//! The parts of HTTP messages that the request logic reads and writes, held
//! as plain values: header values as bytes, header maps as ordered lists of
//! names with their values, request and response heads. Bodies travel beside
//! these heads and are not part of them.

use vstd::prelude::*;
use vstd::string::*;
use crate::text::{push_char, str_eq};

verus! {

broadcast use vstd::string::group_string_axioms;

/// A byte that `http::HeaderValue::from_str` and `from_bytes` accept.
pub open spec fn is_valid_header_byte(b: u8) -> bool {
    (b >= 32 && b != 127) || b == 9
}

/// A byte that `http::HeaderValue::to_str` accepts: visible ASCII or a tab.
pub open spec fn is_visible_ascii_byte(b: u8) -> bool {
    (b >= 32 && b < 127) || b == 9
}

/// Every byte may stand in a header value.
pub open spec fn valid_header_bytes(b: Seq<u8>) -> bool {
    forall|i: int| 0 <= i < b.len() ==> is_valid_header_byte(#[trigger] b[i])
}

/// Every byte is visible ASCII or a tab.
pub open spec fn visible_ascii_bytes(b: Seq<u8>) -> bool {
    forall|i: int| 0 <= i < b.len() ==> is_visible_ascii_byte(#[trigger] b[i])
}

/// The characters that ASCII bytes stand for.
pub open spec fn ascii_chars(b: Seq<u8>) -> Seq<char> {
    Seq::new(b.len(), |i: int| b[i] as char)
}

/// `HeaderValue::to_str`: the text of a header value, when every byte is
/// visible ASCII.
pub open spec fn header_text(b: Seq<u8>) -> Option<Seq<char>> {
    if visible_ascii_bytes(b) {
        Some(ascii_chars(b))
    } else {
        None
    }
}

/// `http::HeaderValue::from_str`: succeeds exactly when every byte of the
/// UTF-8 text is one that a header value may hold, and then holds those bytes.
#[verifier::external_body]
fn header_bytes_from_str(src: &str) -> (r: Result<Vec<u8>, hyper::header::InvalidHeaderValue>)
    ensures
        r is Ok <==> valid_header_bytes(src.spec_bytes()),
        r matches Ok(v) ==> v@ == src.spec_bytes(),
{
    match hyper::header::HeaderValue::from_str(src) {
        Ok(v) => Ok(v.as_bytes().to_vec()),
        Err(e) => Err(e),
    }
}

/// `http::HeaderValue::from_bytes`: succeeds exactly when every byte is one
/// that a header value may hold, and then holds those bytes.
#[verifier::external_body]
fn header_bytes_from_bytes(src: &[u8]) -> (r: Result<Vec<u8>, hyper::header::InvalidHeaderValue>)
    ensures
        r is Ok <==> valid_header_bytes(src@),
        r matches Ok(v) ==> v@ == src@,
{
    match hyper::header::HeaderValue::from_bytes(src) {
        Ok(v) => Ok(v.as_bytes().to_vec()),
        Err(e) => Err(e),
    }
}

/// `http::HeaderValue::from_static`: the bytes of a text that is visible
/// ASCII throughout (it panics on any other text).
#[verifier::external_body]
fn header_bytes_from_static(src: &'static str) -> (v: Vec<u8>)
    requires
        visible_ascii_bytes(src.spec_bytes()),
    ensures
        v@ == src.spec_bytes(),
{
    hyper::header::HeaderValue::from_static(src).as_bytes().to_vec()
}

/// The value of one header field: a sequence of bytes, each one that a
/// header value may hold.
#[derive(Debug)]
pub struct HeaderValue {
    bytes: Vec<u8>,
}

impl View for HeaderValue {
    type V = Seq<u8>;

    closed spec fn view(&self) -> Seq<u8> {
        self.bytes@
    }
}

impl HeaderValue {
    #[verifier::type_invariant]
    closed spec fn inv(self) -> bool {
        valid_header_bytes(self.bytes@)
    }

    /// The value that holds the UTF-8 bytes of `src`, or the error of
    /// `http::HeaderValue::from_str` when a byte may not stand in a header.
    pub fn from_str(src: &str) -> (r: Result<HeaderValue, hyper::header::InvalidHeaderValue>)
        ensures
            r is Ok <==> valid_header_bytes(src.spec_bytes()),
            r matches Ok(v) ==> v@ == src.spec_bytes(),
    {
        match header_bytes_from_str(src) {
            Ok(bytes) => Ok(HeaderValue { bytes }),
            Err(e) => Err(e),
        }
    }

    /// The value that holds `src`, or the error of
    /// `http::HeaderValue::from_bytes` when a byte may not stand in a header.
    pub fn from_bytes(src: &[u8]) -> (r: Result<HeaderValue, hyper::header::InvalidHeaderValue>)
        ensures
            r is Ok <==> valid_header_bytes(src@),
            r matches Ok(v) ==> v@ == src@,
    {
        match header_bytes_from_bytes(src) {
            Ok(bytes) => Ok(HeaderValue { bytes }),
            Err(e) => Err(e),
        }
    }

    /// The value that holds a fixed text of visible ASCII.
    pub fn from_static(src: &'static str) -> (v: HeaderValue)
        requires
            visible_ascii_bytes(src.spec_bytes()),
        ensures
            v@ == src.spec_bytes(),
    {
        let bytes = header_bytes_from_static(src);
        assert(valid_header_bytes(bytes@)) by {
            assert forall|i: int| 0 <= i < bytes@.len() implies is_valid_header_byte(#[trigger] bytes@[i]) by {
                assert(is_visible_ascii_byte(bytes@[i]));
            }
        }
        HeaderValue { bytes }
    }

    /// The bytes of the value.
    pub fn as_bytes(&self) -> (r: &[u8])
        ensures
            r@ == self@,
            valid_header_bytes(r@),
    {
        proof {
            use_type_invariant(self);
        }
        self.bytes.as_slice()
    }

    /// The text of the value when every byte is visible ASCII or a tab, as
    /// `http::HeaderValue::to_str` gives it; `None` otherwise.
    pub fn to_str(&self) -> (r: Option<String>)
        ensures
            r matches Some(s) ==> Some(s@) == header_text(self@),
            r is None ==> header_text(self@) is None,
    {
        let n = self.bytes.len();
        let mut s = String::new();
        let mut i: usize = 0;
        while i < n
            invariant
                n == self@.len(),
                i <= n,
                forall|k: int| 0 <= k < i ==> is_visible_ascii_byte(#[trigger] self@[k]),
                s@ == ascii_chars(self@.subrange(0, i as int)),
            decreases n - i,
        {
            let b = self.bytes[i];
            if !((b >= 32 && b < 127) || b == 9) {
                return None;
            }
            push_char(&mut s, b as char);
            i = i + 1;
            assert(s@ =~= ascii_chars(self@.subrange(0, i as int)));
        }
        assert(self@.subrange(0, n as int) =~= self@);
        Some(s)
    }

    /// A value with the same bytes.
    pub fn duplicate(&self) -> (r: HeaderValue)
        ensures
            r@ == self@,
    {
        proof {
            use_type_invariant(self);
        }
        HeaderValue { bytes: vstd::slice::slice_to_vec(self.bytes.as_slice()) }
    }
}


/// The fields of a header map, in order: each name with its values, first
/// value first.
pub type HeaderFields = Seq<(Seq<char>, Seq<Seq<u8>>)>;

/// A header map as `http::HeaderMap` keeps it: no name twice, every name with
/// at least one value, every value of bytes that may stand in a header.
pub open spec fn fields_wf(h: HeaderFields) -> bool {
    &&& forall|i: int, j: int| 0 <= i < h.len() && 0 <= j < h.len() && i != j ==> #[trigger] h[i].0 != #[trigger] h[j].0
    &&& forall|i: int| 0 <= i < h.len() ==> (#[trigger] h[i]).1.len() > 0
    &&& forall|i: int, k: int| 0 <= i < h.len() && 0 <= k < h[i].1.len() ==> valid_header_bytes(#[trigger] h[i].1[k])
}

/// Where the field called `name` stands, or -1 when there is none.
pub open spec fn field_index(h: HeaderFields, name: Seq<char>) -> int {
    if exists|i: int| 0 <= i < h.len() && #[trigger] h[i].0 == name {
        choose|i: int| 0 <= i < h.len() && #[trigger] h[i].0 == name
    } else {
        -1
    }
}

/// `HeaderMap::get`: the first value of the field called `name`.
pub open spec fn field_get(h: HeaderFields, name: Seq<char>) -> Option<Seq<u8>> {
    let i = field_index(h, name);
    if i >= 0 {
        Some(h[i].1[0])
    } else {
        None
    }
}

/// `HeaderMap::get_all`: every value of the field called `name`, in order
/// (none when there is no such field).
pub open spec fn field_values(h: HeaderFields, name: Seq<char>) -> Seq<Seq<u8>> {
    let i = field_index(h, name);
    if i >= 0 {
        h[i].1
    } else {
        Seq::empty()
    }
}

/// `HeaderMap::insert`: the field called `name` holds `v` alone; a new field
/// comes last.
pub open spec fn field_insert(h: HeaderFields, name: Seq<char>, v: Seq<u8>) -> HeaderFields {
    let i = field_index(h, name);
    if i >= 0 {
        h.update(i, (name, seq![v]))
    } else {
        h.push((name, seq![v]))
    }
}

/// `HeaderMap::append`: `v` joins the values of the field called `name`; a
/// new field comes last.
pub open spec fn field_append(h: HeaderFields, name: Seq<char>, v: Seq<u8>) -> HeaderFields {
    let i = field_index(h, name);
    if i >= 0 {
        h.update(i, (name, h[i].1.push(v)))
    } else {
        h.push((name, seq![v]))
    }
}

/// With no name twice, the field called `name` stands at `i` exactly when
/// `field_index` says so.
pub proof fn lemma_field_index(h: HeaderFields, name: Seq<char>, i: int)
    requires
        fields_wf(h),
        0 <= i < h.len(),
        h[i].0 == name,
    ensures
        field_index(h, name) == i,
{
    let j = field_index(h, name);
    assert(0 <= j < h.len() && h[j].0 == name);
}

/// When no field is called `name`, `field_index` is -1.
pub proof fn lemma_field_index_none(h: HeaderFields, name: Seq<char>)
    requires
        forall|i: int| 0 <= i < h.len() ==> #[trigger] h[i].0 != name,
    ensures
        field_index(h, name) == -1,
{
}

/// After `insert`, the field called `name` reads back `v`; every other
/// field reads as before; the map stays well formed (given a value that may
/// stand in a header).
pub proof fn law_insert_then_get(h: HeaderFields, name: Seq<char>, v: Seq<u8>, other: Seq<char>)
    requires
        fields_wf(h),
        valid_header_bytes(v),
    ensures
        field_get(field_insert(h, name, v), name) == Some(v),
        field_values(field_insert(h, name, v), name) == seq![v],
        other != name ==> field_get(field_insert(h, name, v), other) == field_get(h, other),
        other != name ==> field_values(field_insert(h, name, v), other) == field_values(h, other),
        fields_wf(field_insert(h, name, v)),
{
    lemma_update_or_push_wf(h, name, seq![v]);
    let g = field_insert(h, name, v);
    let i = field_index(h, name);
    let j = if i >= 0 { i } else { h.len() as int };
    assert(g[j].0 == name);
    lemma_field_index(g, name, j);
    if other != name {
        lemma_other_field_unchanged(h, g, name, other);
    }
}

/// After `append`, the field called `name` reads back its first value as
/// before, or `v` when it was not there; every other field reads as before;
/// the map stays well formed (given a value that may stand in a header).
pub proof fn law_append_then_get(h: HeaderFields, name: Seq<char>, v: Seq<u8>, other: Seq<char>)
    requires
        fields_wf(h),
        valid_header_bytes(v),
    ensures
        field_get(field_append(h, name, v), name) == (match field_get(h, name) {
            Some(first) => Some(first),
            None => Some(v),
        }),
        field_values(field_append(h, name, v), name) == field_values(h, name).push(v),
        other != name ==> field_get(field_append(h, name, v), other) == field_get(h, other),
        other != name ==> field_values(field_append(h, name, v), other) == field_values(h, other),
        fields_wf(field_append(h, name, v)),
{
    let i = field_index(h, name);
    let vals = if i >= 0 { h[i].1.push(v) } else { seq![v] };
    if i >= 0 {
        assert(0 <= i < h.len() && h[i].0 == name);
        assert forall|k: int| 0 <= k < vals.len() implies valid_header_bytes(#[trigger] vals[k]) by {
            if k < h[i].1.len() {
                assert(vals[k] == h[i].1[k]);
            }
        }
    }
    lemma_update_or_push_wf(h, name, vals);
    let g = field_append(h, name, v);
    let j = if i >= 0 { i } else { h.len() as int };
    assert(g[j].0 == name);
    lemma_field_index(g, name, j);
    if other != name {
        lemma_other_field_unchanged(h, g, name, other);
    }
}

proof fn lemma_update_or_push_wf(h: HeaderFields, name: Seq<char>, vals: Seq<Seq<u8>>)
    requires
        fields_wf(h),
        vals.len() > 0,
        forall|k: int| 0 <= k < vals.len() ==> valid_header_bytes(#[trigger] vals[k]),
    ensures
        fields_wf(if field_index(h, name) >= 0 {
            h.update(field_index(h, name), (name, vals))
        } else {
            h.push((name, vals))
        }),
{
    let i = field_index(h, name);
    if i >= 0 {
        assert(0 <= i < h.len() && h[i].0 == name);
    }
    let g = if i >= 0 { h.update(i, (name, vals)) } else { h.push((name, vals)) };
    assert forall|a: int, b: int| 0 <= a < g.len() && 0 <= b < g.len() && a != b implies #[trigger] g[a].0 != #[trigger] g[b].0 by {
        if a < h.len() && b < h.len() {
            assert(h[a].0 == g[a].0);
            assert(h[b].0 == g[b].0);
        }
    }
    assert forall|a: int| 0 <= a < g.len() implies (#[trigger] g[a]).1.len() > 0 by {
        if a < h.len() && g[a] == h[a] {
            assert(h[a].1.len() > 0);
        }
    }
    assert forall|a: int, k: int| 0 <= a < g.len() && 0 <= k < g[a].1.len() implies valid_header_bytes(#[trigger] g[a].1[k]) by {
        if a < h.len() && g[a] == h[a] {
            assert(valid_header_bytes(h[a].1[k]));
        } else {
            assert(g[a].1 == vals);
        }
    }
}

proof fn lemma_other_field_unchanged(h: HeaderFields, g: HeaderFields, name: Seq<char>, other: Seq<char>)
    requires
        fields_wf(h),
        fields_wf(g),
        h.len() <= g.len() <= h.len() + 1,
        forall|a: int| 0 <= a < h.len() && h[a].0 != name ==> #[trigger] g[a] == h[a],
        forall|a: int| 0 <= a < h.len() ==> (#[trigger] g[a]).0 == h[a].0,
        g.len() == h.len() + 1 ==> g[h.len() as int].0 == name,
        other != name,
    ensures
        field_get(g, other) == field_get(h, other),
        field_values(g, other) == field_values(h, other),
{
    let i = field_index(h, other);
    if i >= 0 {
        assert(0 <= i < h.len() && h[i].0 == other);
        assert(g[i] == h[i]);
        lemma_field_index(g, other, i);
    } else {
        assert forall|a: int| 0 <= a < g.len() implies #[trigger] g[a].0 != other by {
            if a < h.len() {
                assert(g[a].0 == h[a].0);
                if h[a].0 == other {
                    assert(exists|k: int| 0 <= k < h.len() && #[trigger] h[k].0 == other);
                }
            }
        }
        lemma_field_index_none(g, other);
    }
}

struct HeaderEntry {
    name: String,
    values: Vec<HeaderValue>,
}

spec fn values_view(values: Seq<HeaderValue>) -> Seq<Seq<u8>> {
    values.map_values(|v: HeaderValue| v@)
}

spec fn entry_view(e: HeaderEntry) -> (Seq<char>, Seq<Seq<u8>>) {
    (e.name@, values_view(e.values@))
}

/// The header fields of a request or a response, as `http::HeaderMap` holds
/// them: names with one or more values each, in the order they came. Names
/// are held and compared exactly as given; `http` holds them in lower case,
/// and the request logic uses lower-case names throughout.
pub struct HeaderMap {
    entries: Vec<HeaderEntry>,
}

impl View for HeaderMap {
    type V = HeaderFields;

    closed spec fn view(&self) -> HeaderFields {
        self.entries@.map_values(|e: HeaderEntry| entry_view(e))
    }
}

impl HeaderMap {
    #[verifier::type_invariant]
    closed spec fn inv(self) -> bool {
        fields_wf(self@)
    }

    /// A map with no fields.
    pub fn new() -> (m: HeaderMap)
        ensures
            m@ == Seq::<(Seq<char>, Seq<Seq<u8>>)>::empty(),
    {
        let m = HeaderMap { entries: Vec::new() };
        assert(m@ =~= Seq::<(Seq<char>, Seq<Seq<u8>>)>::empty());
        m
    }

    /// The fields are well formed: no name twice, no field without a value.
    pub fn wf(&self) -> (r: bool)
        ensures
            r,
            fields_wf(self@),
    {
        proof {
            use_type_invariant(self);
        }
        true
    }

    fn find(&self, name: &str) -> (r: Option<usize>)
        ensures
            r matches Some(i) ==> i < self@.len() && field_index(self@, name@) == i,
            r is None ==> field_index(self@, name@) == -1,
    {
        proof {
            use_type_invariant(self);
        }
        let n = self.entries.len();
        let mut i: usize = 0;
        while i < n
            invariant
                n == self.entries@.len(),
                n == self@.len(),
                i <= n,
                fields_wf(self@),
                self@ == self.entries@.map_values(|e: HeaderEntry| entry_view(e)),
                forall|k: int| 0 <= k < i ==> #[trigger] self@[k].0 != name@,
            decreases n - i,
        {
            assert(self@[i as int].0 == self.entries@[i as int].name@);
            if str_eq(self.entries[i].name.as_str(), name) {
                proof {
                    lemma_field_index(self@, name@, i as int);
                }
                return Some(i);
            }
            i = i + 1;
        }
        None
    }

    /// `HeaderMap::contains_key`: some field is called `name`.
    pub fn contains_key(&self, name: &str) -> (r: bool)
        ensures
            r == (field_get(self@, name@) is Some),
    {
        match self.find(name) {
            Some(_) => true,
            None => false,
        }
    }

    /// `HeaderMap::get`: a copy of the first value of the field called `name`.
    pub fn get(&self, name: &str) -> (r: Option<HeaderValue>)
        ensures
            r matches Some(v) ==> field_get(self@, name@) == Some(v@),
            r is None ==> field_get(self@, name@) is None,
    {
        proof {
            use_type_invariant(self);
        }
        match self.find(name) {
            Some(i) => {
                assert(self@[i as int] == entry_view(self.entries@[i as int]));
                assert(self@[i as int].1.len() > 0);
                let v = self.entries[i].values[0].duplicate();
                Some(v)
            },
            None => None,
        }
    }

    /// The number of fields (names).
    pub fn len(&self) -> (r: usize)
        ensures
            r == self@.len(),
    {
        self.entries.len()
    }

    /// The name of the field at position `i`.
    pub fn name_at(&self, i: usize) -> (r: &str)
        requires
            i < self@.len(),
        ensures
            r@ == self@[i as int].0,
    {
        assert(self@[i as int] == entry_view(self.entries@[i as int]));
        self.entries[i].name.as_str()
    }

    /// The number of values of the field at position `i`.
    pub fn value_count_at(&self, i: usize) -> (r: usize)
        requires
            i < self@.len(),
        ensures
            r == self@[i as int].1.len(),
    {
        assert(self@[i as int] == entry_view(self.entries@[i as int]));
        self.entries[i].values.len()
    }

    /// A copy of value `k` of the field at position `i`.
    pub fn value_at(&self, i: usize, k: usize) -> (r: HeaderValue)
        requires
            i < self@.len(),
            k < self@[i as int].1.len(),
        ensures
            r@ == self@[i as int].1[k as int],
    {
        assert(self@[i as int] == entry_view(self.entries@[i as int]));
        self.entries[i].values[k].duplicate()
    }

    /// A map with the same fields.
    pub fn duplicate(&self) -> (r: HeaderMap)
        ensures
            r@ == self@,
    {
        proof {
            use_type_invariant(self);
        }
        let n = self.entries.len();
        let mut entries: Vec<HeaderEntry> = Vec::new();
        let mut i: usize = 0;
        while i < n
            invariant
                n == self.entries@.len(),
                i <= n,
                self@ == self.entries@.map_values(|e: HeaderEntry| entry_view(e)),
                entries@.len() == i,
                forall|j: int| 0 <= j < i ==> entry_view(#[trigger] entries@[j]) == self@[j],
            decreases n - i,
        {
            let src = &self.entries[i];
            let m = src.values.len();
            let mut values: Vec<HeaderValue> = Vec::new();
            let mut k: usize = 0;
            while k < m
                invariant
                    m == src.values@.len(),
                    k <= m,
                    values@.len() == k,
                    forall|j: int| 0 <= j < k ==> (#[trigger] values@[j])@ == src.values@[j]@,
                decreases m - k,
            {
                values.push(src.values[k].duplicate());
                k = k + 1;
            }
            assert(values_view(values@) =~= values_view(src.values@));
            let entry = HeaderEntry { name: src.name.clone(), values };
            assert(entry_view(entry) == entry_view(self.entries@[i as int]));
            entries.push(entry);
            i = i + 1;
        }
        let r = HeaderMap { entries };
        assert(r@ =~= self@);
        r
    }

    /// `HeaderMap::insert`: the field called `name` holds `value` alone
    /// afterwards; a field that was not there comes last.
    pub fn insert(&mut self, name: &str, value: HeaderValue)
        ensures
            final(self)@ == field_insert(old(self)@, name@, value@),
    {
        proof {
            use_type_invariant(&*self);
            use_type_invariant(&value);
        }
        let ghost old_view = self@;
        let idx = self.find(name);
        let mut entries: Vec<HeaderEntry> = Vec::new();
        std::mem::swap(&mut entries, &mut self.entries);
        assert(entries@.map_values(|e: HeaderEntry| entry_view(e)) == old_view);
        let ghost vv = value@;
        let mut values: Vec<HeaderValue> = Vec::new();
        values.push(value);
        let entry = HeaderEntry { name: String::from_str(name), values };
        assert(values_view(entry.values@) =~= seq![vv]);
        let ghost new_view = field_insert(old_view, name@, vv);
        match idx {
            Some(i) => {
                entries.set(i, entry);
                assert(entries@.map_values(|e: HeaderEntry| entry_view(e)) =~= new_view);
            },
            None => {
                entries.push(entry);
                assert(entries@.map_values(|e: HeaderEntry| entry_view(e)) =~= new_view);
            },
        }
        proof {
            assert forall|i: int, j: int| 0 <= i < new_view.len() && 0 <= j < new_view.len() && i != j implies #[trigger] new_view[i].0 != #[trigger] new_view[j].0 by {
                if i < old_view.len() && j < old_view.len() {
                    assert(old_view[i].0 == new_view[i].0);
                    assert(old_view[j].0 == new_view[j].0);
                }
            }
            assert forall|i: int| 0 <= i < new_view.len() implies (#[trigger] new_view[i]).1.len() > 0 by {
                if i < old_view.len() && new_view[i] == old_view[i] {
                    assert(old_view[i].1.len() > 0);
                }
            }
            assert forall|i: int, k: int| 0 <= i < new_view.len() && 0 <= k < new_view[i].1.len() implies valid_header_bytes(#[trigger] new_view[i].1[k]) by {
                if i < old_view.len() && new_view[i] == old_view[i] {
                    assert(valid_header_bytes(old_view[i].1[k]));
                } else {
                    assert(new_view[i].1 == seq![vv]);
                }
            }
        }
        self.entries = entries;
    }

    /// `HeaderMap::append`: `value` joins the values of the field called
    /// `name`, after those it had; a field that was not there comes last.
    pub fn append(&mut self, name: &str, value: HeaderValue)
        ensures
            final(self)@ == field_append(old(self)@, name@, value@),
    {
        proof {
            use_type_invariant(&*self);
            use_type_invariant(&value);
        }
        let ghost old_view = self@;
        let idx = self.find(name);
        let mut entries: Vec<HeaderEntry> = Vec::new();
        std::mem::swap(&mut entries, &mut self.entries);
        assert(entries@.map_values(|e: HeaderEntry| entry_view(e)) == old_view);
        let ghost vv = value@;
        let ghost new_view = field_append(old_view, name@, vv);
        match idx {
            Some(i) => {
                let mut entry = entries.remove(i);
                assert(entry_view(entry) == old_view[i as int]);
                entry.values.push(value);
                assert(values_view(entry.values@) =~= old_view[i as int].1.push(vv));
                entries.insert(i, entry);
                assert(entries@.map_values(|e: HeaderEntry| entry_view(e)) =~= new_view);
            },
            None => {
                let mut values: Vec<HeaderValue> = Vec::new();
                values.push(value);
                let entry = HeaderEntry { name: String::from_str(name), values };
                assert(values_view(entry.values@) =~= seq![vv]);
                entries.push(entry);
                assert(entries@.map_values(|e: HeaderEntry| entry_view(e)) =~= new_view);
            },
        }
        proof {
            assert forall|i: int, j: int| 0 <= i < new_view.len() && 0 <= j < new_view.len() && i != j implies #[trigger] new_view[i].0 != #[trigger] new_view[j].0 by {
                if i < old_view.len() && j < old_view.len() {
                    assert(old_view[i].0 == new_view[i].0);
                    assert(old_view[j].0 == new_view[j].0);
                }
            }
            assert forall|i: int| 0 <= i < new_view.len() implies (#[trigger] new_view[i]).1.len() > 0 by {
                if i < old_view.len() {
                    assert(old_view[i].1.len() > 0);
                }
            }
            assert forall|i: int, k: int| 0 <= i < new_view.len() && 0 <= k < new_view[i].1.len() implies valid_header_bytes(#[trigger] new_view[i].1[k]) by {
                if i < old_view.len() {
                    if k < old_view[i].1.len() {
                        assert(valid_header_bytes(old_view[i].1[k]));
                    }
                }
            }
        }
        self.entries = entries;
    }
}


/// `http::Uri` parsing followed by `Uri::path`: the path of the URI that
/// `text` spells, when `text` spells one.
pub uninterp spec fn parsed_uri_path(text: Seq<char>) -> Option<Seq<char>>;

/// `text.parse::<http::Uri>()` and then `Uri::path`.
#[verifier::external_body]
fn uri_path_of(text: &str) -> (r: Option<String>)
    ensures
        r matches Some(p) ==> parsed_uri_path(text@) == Some(p@),
        r is None ==> parsed_uri_path(text@) is None,
{
    match text.parse::<hyper::Uri>() {
        Ok(uri) => Some(uri.path().to_string()),
        Err(_) => None,
    }
}

/// A request target: the text of the URI and the path that it names.
pub struct Uri {
    text: String,
    path: String,
}

impl Uri {
    /// The text of the URI.
    pub closed spec fn spec_text(&self) -> Seq<char> {
        self.text@
    }

    /// The path of the URI.
    pub closed spec fn spec_path(&self) -> Seq<char> {
        self.path@
    }

    /// The URI that `text` spells, as `str::parse::<http::Uri>` reads it, or
    /// `None` when `text` is no URI.
    pub fn parse(text: &str) -> (r: Option<Uri>)
        ensures
            r is Some <==> parsed_uri_path(text@) is Some,
            r matches Some(u) ==> u.spec_text() == text@ && Some(u.spec_path()) == parsed_uri_path(text@),
    {
        match uri_path_of(text) {
            Some(path) => Some(Uri { text: String::from_str(text), path }),
            None => None,
        }
    }

    /// `Uri::path`.
    pub fn path(&self) -> (r: &str)
        ensures
            r@ == self.spec_path(),
    {
        self.path.as_str()
    }

    /// The text of the URI.
    pub fn as_str(&self) -> (r: &str)
        ensures
            r@ == self.spec_text(),
    {
        self.text.as_str()
    }

    /// A URI with the same text and path.
    pub fn duplicate(&self) -> (r: Uri)
        ensures
            r.spec_text() == self.spec_text(),
            r.spec_path() == self.spec_path(),
    {
        Uri { text: self.text.clone(), path: self.path.clone() }
    }
}

/// A request method.
#[derive(Debug)]
pub enum Method {
    Options,
    Get,
    Post,
    Put,
    Delete,
    Head,
    Trace,
    Connect,
    Patch,
    /// A method outside the standard set, by name.
    Extension(String),
}

impl Method {
    /// A method with the same name.
    pub fn duplicate(&self) -> (r: Method)
        ensures
            r == *self,
    {
        match self {
            Method::Options => Method::Options,
            Method::Get => Method::Get,
            Method::Post => Method::Post,
            Method::Put => Method::Put,
            Method::Delete => Method::Delete,
            Method::Head => Method::Head,
            Method::Trace => Method::Trace,
            Method::Connect => Method::Connect,
            Method::Patch => Method::Patch,
            Method::Extension(name) => Method::Extension(name.clone()),
        }
    }
}

/// An HTTP protocol version.
#[derive(Clone, Copy, Debug, PartialEq, Eq, Structural)]
pub enum Version {
    Http09,
    Http10,
    Http11,
    Http2,
    Http3,
}

/// Status code 200.
pub const OK: u16 = 200;

/// Status code 304.
pub const NOT_MODIFIED: u16 = 304;

/// Status code 404.
pub const NOT_FOUND: u16 = 404;

/// Status code 500.
pub const INTERNAL_SERVER_ERROR: u16 = 500;

/// The head of a request: method, target, version and header fields.
pub struct Request {
    pub method: Method,
    pub uri: Uri,
    pub version: Version,
    pub headers: HeaderMap,
}

/// The head of a response: status code, version and header fields.
pub struct Response {
    pub status: u16,
    pub version: Version,
    pub headers: HeaderMap,
}

/// Two requests hold the same method, target, version and fields.
pub open spec fn same_request(a: Request, b: Request) -> bool {
    &&& a.method == b.method
    &&& a.uri.spec_text() == b.uri.spec_text()
    &&& a.uri.spec_path() == b.uri.spec_path()
    &&& a.version == b.version
    &&& a.headers@ == b.headers@
}

/// Two responses hold the same status, version and fields.
pub open spec fn same_response(a: Response, b: Response) -> bool {
    &&& a.status == b.status
    &&& a.version == b.version
    &&& a.headers@ == b.headers@
}

impl Request {
    /// `Request::default()`: `GET /` over HTTP/1.1 with no fields.
    pub fn default_get() -> (r: Request)
        ensures
            r.method == Method::Get,
            r.uri.spec_text() == seq!['/'],
            r.uri.spec_path() == seq!['/'],
            r.version == Version::Http11,
            r.headers@.len() == 0,
    {
        let uri = Uri { text: String::from_str("/"), path: String::from_str("/") };
        proof {
            reveal_strlit("/");
        }
        Request { method: Method::Get, uri, version: Version::Http11, headers: HeaderMap::new() }
    }

    /// A request with the same method, target, version and fields.
    pub fn duplicate(&self) -> (r: Request)
        ensures
            same_request(r, *self),
    {
        Request {
            method: self.method.duplicate(),
            uri: self.uri.duplicate(),
            version: self.version,
            headers: self.headers.duplicate(),
        }
    }
}

impl Response {
    /// `Response::default()`: status 200 over HTTP/1.1 with no fields.
    pub fn default_ok() -> (r: Response)
        ensures
            r.status == OK,
            r.version == Version::Http11,
            r.headers@.len() == 0,
    {
        Response { status: OK, version: Version::Http11, headers: HeaderMap::new() }
    }

    /// A response with the same status, version and fields.
    pub fn duplicate(&self) -> (r: Response)
        ensures
            same_response(r, *self),
    {
        Response { status: self.status, version: self.version, headers: self.headers.duplicate() }
    }
}

/// An IP address.
#[derive(Clone, Copy)]
pub enum IpAddress {
    V4([u8; 4]),
    V6([u16; 8]),
}

/// A socket address: IP address and port.
#[derive(Clone, Copy)]
pub struct SocketAddress {
    pub ip: IpAddress,
    pub port: u16,
}


/// The name of the `content-type` header field.
pub open spec fn content_type_name() -> Seq<char> {
    "content-type"@
}

/// The name of the `last-modified` header field.
pub open spec fn last_modified_name() -> Seq<char> {
    "last-modified"@
}

/// The name of the `cache-control` header field.
pub open spec fn cache_control_name() -> Seq<char> {
    "cache-control"@
}

/// The name of the `if-none-match` header field.
pub open spec fn if_none_match_name() -> Seq<char> {
    "if-none-match"@
}

/// The name of the `if-modified-since` header field.
pub open spec fn if_modified_since_name() -> Seq<char> {
    "if-modified-since"@
}

/// The name of the `etag` header field.
pub open spec fn etag_name() -> Seq<char> {
    "etag"@
}

/// The header names that the request logic uses are six different names.
pub proof fn lemma_header_names_distinct()
    ensures
        content_type_name() != last_modified_name(),
        content_type_name() != cache_control_name(),
        content_type_name() != if_none_match_name(),
        content_type_name() != if_modified_since_name(),
        content_type_name() != etag_name(),
        last_modified_name() != cache_control_name(),
        last_modified_name() != if_none_match_name(),
        last_modified_name() != if_modified_since_name(),
        last_modified_name() != etag_name(),
        cache_control_name() != if_none_match_name(),
        cache_control_name() != if_modified_since_name(),
        cache_control_name() != etag_name(),
        if_none_match_name() != if_modified_since_name(),
        if_none_match_name() != etag_name(),
        if_modified_since_name() != etag_name(),
{
    reveal_strlit("content-type");
    reveal_strlit("last-modified");
    reveal_strlit("cache-control");
    reveal_strlit("if-none-match");
    reveal_strlit("if-modified-since");
    reveal_strlit("etag");
    assert(content_type_name()[0] != last_modified_name()[0]);
    assert(content_type_name()[2] != cache_control_name()[2]);
    assert(content_type_name()[0] != if_none_match_name()[0]);
    assert(content_type_name()[0] != if_modified_since_name()[0]);
    assert(content_type_name()[0] != etag_name()[0]);
    assert(last_modified_name()[0] != cache_control_name()[0]);
    assert(last_modified_name()[0] != if_none_match_name()[0]);
    assert(last_modified_name()[0] != if_modified_since_name()[0]);
    assert(last_modified_name()[0] != etag_name()[0]);
    assert(cache_control_name()[0] != if_none_match_name()[0]);
    assert(cache_control_name()[0] != if_modified_since_name()[0]);
    assert(cache_control_name()[0] != etag_name()[0]);
    assert(if_none_match_name()[3] != if_modified_since_name()[3]);
    assert(if_none_match_name()[0] != etag_name()[0]);
    assert(if_modified_since_name()[0] != etag_name()[0]);
}

/// Every character is visible ASCII: from a space to a tilde.
pub open spec fn visible_ascii_chars(s: Seq<char>) -> bool {
    forall|i: int| 0 <= i < s.len() ==> ' ' <= #[trigger] s[i] <= '~'
}

/// The bytes of an ASCII text.
pub open spec fn ascii_bytes(s: Seq<char>) -> Seq<u8> {
    Seq::new(s.len(), |i: int| s[i] as u8)
}

/// The bytes of a visible ASCII text may stand in a header value and read
/// back as the same text.
pub proof fn lemma_visible_ascii_bytes(s: Seq<char>)
    requires
        visible_ascii_chars(s),
    ensures
        valid_header_bytes(ascii_bytes(s)),
        visible_ascii_bytes(ascii_bytes(s)),
        header_text(ascii_bytes(s)) == Some(s),
{
    let b = ascii_bytes(s);
    assert forall|i: int| 0 <= i < b.len() implies is_visible_ascii_byte(#[trigger] b[i]) by {
        let c = s[i];
        assert(' ' <= c <= '~');
        assert(32 <= (c as u32) <= 126);
        assert(b[i] == c as u8);
        assert(b[i] as u32 == c as u32);
    }
    assert forall|i: int| 0 <= i < b.len() implies is_valid_header_byte(#[trigger] b[i]) by {
        assert(is_visible_ascii_byte(b[i]));
    }
    assert forall|i: int| 0 <= i < b.len() implies #[trigger] ascii_chars(b)[i] == s[i] by {
        let c = s[i];
        assert(32 <= (c as u32) <= 126);
        assert(b[i] as u32 == c as u32);
    }
    assert(ascii_chars(b) =~= s);
}

/// A text of visible ASCII is encoded byte for byte, and its bytes may stand
/// in a header value and read back as the same text.
pub proof fn lemma_visible_ascii_text(s: &str)
    requires
        visible_ascii_chars(s@),
    ensures
        s.spec_bytes() == ascii_bytes(s@),
        valid_header_bytes(ascii_bytes(s@)),
        visible_ascii_bytes(ascii_bytes(s@)),
        header_text(ascii_bytes(s@)) == Some(s@),
{
    assert(vstd::utf8::is_ascii_chars(s@)) by {
        assert forall|i: int| 0 <= i < s@.len() implies '\0' <= #[trigger] s@[i] <= '\u{7f}' by {
            assert(' ' <= s@[i] <= '~');
        }
    }
    vstd::string::is_ascii_spec_bytes(s);
    lemma_visible_ascii_bytes(s@);
}

} // verus!
