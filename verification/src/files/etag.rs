//! Cache validators for a response that carries a static file: the
//! `Last-Modified` and `Cache-Control` fields, a weak entity tag built from
//! the file's size and modification time, and the not-modified status.

use vstd::prelude::*;
use vstd::string::*;
use crate::error::Error;
use crate::http::{
    fields_wf, field_values, law_insert_then_get, law_append_then_get, lemma_visible_ascii_bytes, HeaderFields, HeaderValue, field_get, field_insert, field_append, header_text, ascii_bytes,
    visible_ascii_chars, lemma_visible_ascii_text, lemma_header_names_distinct, last_modified_name,
    cache_control_name, if_none_match_name, if_modified_since_name, etag_name, NOT_MODIFIED,
};
use crate::message::Message;
use crate::text::{
    digits_in_base, format_decimal, format_hex_alternate, parse_u64, parse_u64_spec, push_char,
    trim_spec, contains_spec, chars_of, trim_chars, contains_chars, lemma_digits_visible,
};

verus! {

broadcast use vstd::string::group_string_axioms;

/// When a file was last modified, as its metadata tells it.
#[derive(Clone, Copy)]
pub enum Modified {
    /// The platform does not record modification times.
    Unavailable,
    /// The time lies before the Unix epoch.
    BeforeEpoch,
    /// Whole seconds since the Unix epoch.
    SecondsSinceEpoch(u64),
}

/// What the cache validators read of a file's metadata.
#[derive(Clone, Copy)]
pub struct FileMetadata {
    /// The size in bytes.
    pub len: u64,
    /// The modification time.
    pub modified: Modified,
}

/// `{:#x}` of `n`: `0x` and the lower-case hexadecimal digits.
pub open spec fn alternate_hex(n: nat) -> Seq<char> {
    seq!['0', 'x'] + digits_in_base(n, 16)
}

/// The modification time in the entity tag: its `{:#x}` form, or `0` when the
/// time is unknown or lies before the epoch.
pub open spec fn modified_tag(m: Modified) -> Seq<char> {
    match m {
        Modified::SecondsSinceEpoch(t) => alternate_hex(t as nat),
        _ => seq!['0'],
    }
}

/// The weak entity tag of a file: `W/<size>-<modified>`, both in `{:#x}` form.
pub open spec fn etag_spec(meta: FileMetadata) -> Seq<char> {
    seq!['W', '/'] + alternate_hex(meta.len as nat) + seq!['-'] + modified_tag(meta.modified)
}

/// Whether none of the tags that an `If-None-Match` value lists is the
/// entity tag: the value `*` (after trimming) lists every tag, so then some
/// match; any other value lists the tag when the tag occurs in it.
pub open spec fn if_none_match_spec(value: Seq<char>, etag: Seq<char>) -> bool {
    trim_spec(value) != seq!['*'] && !contains_spec(value, etag)
}

fn append_str(s: &mut String, t: &str)
    ensures
        final(s)@ == old(s)@ + t@,
{
    s.append(t);
}

/// Calculates the entity tag of a file from its size and modification time.
pub fn calculate(metadata: &FileMetadata) -> (r: String)
    ensures
        r@ == etag_spec(*metadata),
{
    let modified = match metadata.modified {
        Modified::SecondsSinceEpoch(t) => format_hex_alternate(t),
        _ => {
            let mut z = String::new();
            push_char(&mut z, '0');
            z
        },
    };
    let size = format_hex_alternate(metadata.len);
    let mut r = String::new();
    push_char(&mut r, 'W');
    push_char(&mut r, '/');
    append_str(&mut r, size.as_str());
    push_char(&mut r, '-');
    append_str(&mut r, modified.as_str());
    assert(r@ =~= etag_spec(*metadata));
    r
}

/// Checks whether none of the tags of an `If-None-Match` value is the entity
/// tag: `false` when the value is `*` (after trimming whitespace), otherwise
/// whether the tag does not occur in the value.
pub fn if_none_match(value: &str, etag: &str) -> (r: bool)
    ensures
        r == if_none_match_spec(value@, etag@),
{
    let v = chars_of(value);
    let t = trim_chars(&v);
    if t.len() == 1 && t[0] == '*' {
        assert(t@ =~= seq!['*']);
        false
    } else {
        assert(t@ != seq!['*']);
        let e = chars_of(etag);
        !contains_chars(&v, &e)
    }
}


/// `DateTime::<Utc>::from_str` followed by `timestamp`: the Unix time, in
/// seconds, of the date and time that `text` spells, when chrono reads one
/// there.
pub uninterp spec fn parsed_utc_timestamp(text: Seq<char>) -> Option<i64>;

/// `chrono::DateTime::<chrono::Utc>::from_str(text)` and then `timestamp()`.
#[verifier::external_body]
fn parse_utc_timestamp(text: &str) -> (r: Result<i64, chrono::format::ParseError>)
    ensures
        r matches Ok(t) ==> parsed_utc_timestamp(text@) == Some(t),
        r is Err ==> parsed_utc_timestamp(text@) is None,
{
    match <chrono::DateTime<chrono::Utc> as std::str::FromStr>::from_str(text) {
        Ok(date) => Ok(date.timestamp()),
        Err(e) => Err(e),
    }
}

/// The value of the `Cache-Control` field that `generate` adds.
pub open spec fn max_age_zero() -> Seq<char> {
    "max-age=0"@
}

/// How `generate` ended.
pub enum GenerateOutcome {
    /// It returned `Ok`.
    Done,
    /// It stopped at a modification time before the Unix epoch.
    ModifiedBeforeEpoch,
    /// It stopped at an `If-Modified-Since` value that is not a date.
    BadDate,
    /// It stopped on any other error.
    Other,
}

/// The outcome that a result of `generate` stands for.
pub open spec fn outcome_of(r: Result<(), Error>) -> GenerateOutcome {
    match r {
        Ok(_) => GenerateOutcome::Done,
        Err(Error::ModifiedBeforeEpoch) => GenerateOutcome::ModifiedBeforeEpoch,
        Err(Error::DateTime(_)) => GenerateOutcome::BadDate,
        Err(_) => GenerateOutcome::Other,
    }
}

/// The modification time that the response's `Last-Modified` field states:
/// its text read as a decimal number.
pub open spec fn stated_mtime(b: Seq<u8>) -> Option<u64> {
    match header_text(b) {
        Some(t) => parse_u64_spec(t),
        None => None,
    }
}

/// First step: the modification time in force and the fields after it. A
/// `Last-Modified` field that is there states the time (when it reads as a
/// number); otherwise a file time since the epoch is used and written into a
/// new `Last-Modified` field in decimal. The flag tells that the file time
/// lies before the epoch, which stops `generate`.
pub open spec fn last_modified_step(h: HeaderFields, meta: FileMetadata) -> (HeaderFields, Option<u64>, bool) {
    match field_get(h, last_modified_name()) {
        Some(b) => (h, stated_mtime(b), false),
        None => match meta.modified {
            Modified::Unavailable => (h, None, false),
            Modified::BeforeEpoch => (h, None, true),
            Modified::SecondsSinceEpoch(t) => (
                field_insert(h, last_modified_name(), ascii_bytes(digits_in_base(t as nat, 10))),
                Some(t),
                false,
            ),
        },
    }
}

/// Second step: `Cache-Control: max-age=0` is added when there is no
/// `Cache-Control` field.
pub open spec fn cache_control_step(h: HeaderFields) -> HeaderFields {
    if field_get(h, cache_control_name()) is None {
        field_append(h, cache_control_name(), ascii_bytes(max_age_zero()))
    } else {
        h
    }
}

/// Third step: once a modification time is in force, the file's entity tag
/// is added to the `ETag` field (after any value it had); and when an
/// `If-None-Match` field of visible ASCII lists that tag (or is `*`), the
/// status becomes 304.
pub open spec fn etag_step(h: HeaderFields, status: u16, mtime: Option<u64>, meta: FileMetadata) -> (HeaderFields, u16) {
    if mtime is Some {
        let tagged = field_append(h, etag_name(), ascii_bytes(etag_spec(meta)));
        match field_get(h, if_none_match_name()) {
            Some(b) => {
                if header_text(b) is Some && !if_none_match_spec(header_text(b)->0, etag_spec(meta)) {
                    (tagged, NOT_MODIFIED)
                } else {
                    (tagged, status)
                }
            },
            None => (tagged, status),
        }
    } else {
        (h, status)
    }
}

/// Fourth step: when there is an `If-Modified-Since` field of visible ASCII
/// and a modification time is in force, the field must spell a date and time
/// (else `generate` stops, flag set); when its Unix time, taken as a `u64`,
/// is later than the modification time, the status becomes 304.
pub open spec fn if_modified_since_step(h: HeaderFields, status: u16, mtime: Option<u64>) -> (u16, bool) {
    match field_get(h, if_modified_since_name()) {
        Some(b) => match mtime {
            Some(m) => match header_text(b) {
                Some(t) => match parsed_utc_timestamp(t) {
                    Some(ts) => (if (ts as u64) > m { NOT_MODIFIED } else { status }, false),
                    None => (status, true),
                },
                None => (status, false),
            },
            None => (status, false),
        },
        None => (status, false),
    }
}

/// The response fields and status after `generate`, and how it ends.
pub open spec fn generate_spec(h: HeaderFields, status: u16, meta: FileMetadata) -> (HeaderFields, u16, GenerateOutcome) {
    let (h1, mtime, before_epoch) = last_modified_step(h, meta);
    if before_epoch {
        (h1, status, GenerateOutcome::ModifiedBeforeEpoch)
    } else {
        let h2 = cache_control_step(h1);
        let (h3, s3) = etag_step(h2, status, mtime, meta);
        let (s4, bad_date) = if_modified_since_step(h3, s3, mtime);
        (h3, s4, if bad_date { GenerateOutcome::BadDate } else { GenerateOutcome::Done })
    }
}

/// The entity tag of a file is visible ASCII.
pub proof fn lemma_etag_visible(meta: FileMetadata)
    ensures
        visible_ascii_chars(etag_spec(meta)),
        forall|i: int| 0 <= i < etag_spec(meta).len() ==> '!' <= #[trigger] etag_spec(meta)[i] <= '~',
{
    lemma_digits_visible(meta.len as nat, 16);
    if let Modified::SecondsSinceEpoch(t) = meta.modified {
        lemma_digits_visible(t as nat, 16);
    }
    let e = etag_spec(meta);
    let a = alternate_hex(meta.len as nat);
    let m = modified_tag(meta.modified);
    assert forall|i: int| 0 <= i < e.len() implies '!' <= #[trigger] e[i] <= '~' by {
        if i >= 2 && i < 2 + a.len() {
            assert(e[i] == a[i - 2]);
            if i >= 4 {
                assert(a[i - 2] == digits_in_base(meta.len as nat, 16)[i - 4]);
            }
        } else if i > 2 + a.len() {
            assert(e[i] == m[i - 3 - a.len()]);
            if let Modified::SecondsSinceEpoch(t) = meta.modified {
                if i - 3 - a.len() >= 2 {
                    assert(m[i - 3 - a.len()] == digits_in_base(t as nat, 16)[i - 5 - a.len()]);
                }
            }
        }
    }
}

/// Generates the cache validators of a response that carries a static
/// file, following `generate_spec`: sets `Last-Modified` from the file when
/// the response has none, adds `Cache-Control: max-age=0` when missing, adds
/// the file's entity tag to `ETag` once a modification time is in force (with
/// status 304 when `If-None-Match` lists that tag), and sets status 304 when
/// `If-Modified-Since` is later than the modification time. Only the
/// response's fields and status change.
pub fn generate(message: &mut Message, metadata: &FileMetadata) -> (r: Result<(), Error>)
    ensures
        (final(message).response.headers@, final(message).response.status, outcome_of(r))
            == generate_spec(old(message).response.headers@, old(message).response.status, *metadata),
        final(message).response.version == old(message).response.version,
        final(message).request == old(message).request,
        final(message).address == old(message).address,
{
    proof {
        lemma_header_names_distinct();
    }
    let ghost h0 = message.response.headers@;
    let ghost s0 = message.response.status;
    let ghost step1 = last_modified_step(h0, *metadata);
    let mut mtime: Option<u64> = None;
    match message.response.headers.get("last-modified") {
        Some(header) => {
            match header.to_str() {
                Some(text) => {
                    mtime = parse_u64(text.as_str());
                },
                None => {},
            }
        },
        None => {
            match metadata.modified {
                Modified::Unavailable => {},
                Modified::BeforeEpoch => {
                    return Err(Error::ModifiedBeforeEpoch);
                },
                Modified::SecondsSinceEpoch(t) => {
                    mtime = Some(t);
                    let text = format_decimal(t);
                    let text_str = text.as_str();
                    proof {
                        lemma_digits_visible(t as nat, 10);
                        lemma_visible_ascii_text(text_str);
                    }
                    let value = match HeaderValue::from_str(text_str) {
                        Ok(v) => v,
                        Err(e) => {
                            return Err(Error::InvalidHeaderValue(e));
                        },
                    };
                    message.response.headers.insert("last-modified", value);
                },
            }
        },
    }
    assert(message.response.headers@ == step1.0);
    assert(mtime == step1.1);
    let ghost h2 = cache_control_step(step1.0);
    if !message.response.headers.contains_key("cache-control") {
        proof {
            reveal_strlit("max-age=0");
            lemma_visible_ascii_text("max-age=0");
        }
        let value = HeaderValue::from_static("max-age=0");
        message.response.headers.append("cache-control", value);
    }
    assert(message.response.headers@ == h2);
    let ghost step3 = etag_step(h2, s0, mtime, *metadata);
    if mtime.is_some() {
        let condition = message.response.headers.get("if-none-match");
        let etag = calculate(metadata);
        let etag_str = etag.as_str();
        proof {
            lemma_etag_visible(*metadata);
            lemma_visible_ascii_text(etag_str);
        }
        let tag = match HeaderValue::from_str(etag_str) {
            Ok(v) => v,
            Err(e) => {
                return Err(Error::InvalidHeaderValue(e));
            },
        };
        message.response.headers.append("etag", tag);
        match condition {
            Some(value) => {
                match value.to_str() {
                    Some(text) => {
                        if !if_none_match(text.as_str(), etag_str) {
                            message.response.status = NOT_MODIFIED;
                        }
                    },
                    None => {},
                }
            },
            None => {},
        }
    }
    assert(message.response.headers@ == step3.0);
    assert(message.response.status == step3.1);
    match message.response.headers.get("if-modified-since") {
        Some(value) => {
            match mtime {
                Some(m) => {
                    match value.to_str() {
                        Some(text) => {
                            let ts = match parse_utc_timestamp(text.as_str()) {
                                Ok(t) => t,
                                Err(e) => {
                                    return Err(Error::DateTime(e));
                                },
                            };
                            if ts as u64 > m {
                                message.response.status = NOT_MODIFIED;
                            }
                        },
                        None => {},
                    }
                },
                None => {},
            }
        },
        None => {},
    }
    Ok(())
}


/// The values that `generate` may write may stand in a header.
proof fn lemma_written_values_valid(meta: FileMetadata)
    ensures
        forall|t: u64| crate::http::valid_header_bytes(#[trigger] ascii_bytes(digits_in_base(t as nat, 10))),
        crate::http::valid_header_bytes(ascii_bytes(max_age_zero())),
        crate::http::valid_header_bytes(ascii_bytes(etag_spec(meta))),
{
    assert forall|t: u64| crate::http::valid_header_bytes(#[trigger] ascii_bytes(digits_in_base(t as nat, 10))) by {
        lemma_digits_visible(t as nat, 10);
        lemma_visible_ascii_bytes(digits_in_base(t as nat, 10));
    }
    reveal_strlit("max-age=0");
    lemma_visible_ascii_bytes(max_age_zero());
    lemma_etag_visible(meta);
    lemma_visible_ascii_bytes(etag_spec(meta));
}

/// `generate` touches no header field but `Last-Modified`, `Cache-Control`
/// and `ETag`, and leaves the fields well formed.
pub proof fn law_generate_touches_only_validators(h: HeaderFields, status: u16, meta: FileMetadata, other: Seq<char>)
    requires
        fields_wf(h),
    ensures
        fields_wf(generate_spec(h, status, meta).0),
        other != last_modified_name() && other != cache_control_name() && other != etag_name()
            ==> field_get(generate_spec(h, status, meta).0, other) == field_get(h, other),
        other != last_modified_name() && other != cache_control_name() && other != etag_name()
            ==> field_values(generate_spec(h, status, meta).0, other) == field_values(h, other),
{
    lemma_written_values_valid(meta);
    let (h1, mtime, stop) = last_modified_step(h, meta);
    if let Modified::SecondsSinceEpoch(t) = meta.modified {
        if field_get(h, last_modified_name()) is None {
            law_insert_then_get(h, last_modified_name(), ascii_bytes(digits_in_base(t as nat, 10)), other);
        }
    }
    if !stop {
        let h2 = cache_control_step(h1);
        if field_get(h1, cache_control_name()) is None {
            law_append_then_get(h1, cache_control_name(), ascii_bytes(max_age_zero()), other);
        }
        if mtime is Some {
            law_append_then_get(h2, etag_name(), ascii_bytes(etag_spec(meta)), other);
        }
    }
}

/// `generate` never sets a status other than 304: the status stays or
/// becomes 304.
pub proof fn law_generate_status(h: HeaderFields, status: u16, meta: FileMetadata)
    ensures
        generate_spec(h, status, meta).1 == status || generate_spec(h, status, meta).1 == NOT_MODIFIED,
{
}

/// The modification time that `generate` goes by, read from its inputs: the
/// number in a `Last-Modified` field of visible ASCII that the response
/// already has, else the file's time since the epoch.
pub open spec fn time_in_force(h: HeaderFields, meta: FileMetadata) -> Option<u64> {
    match field_get(h, last_modified_name()) {
        Some(b) => match header_text(b) {
            Some(x) => parse_u64_spec(x),
            None => None,
        },
        None => match meta.modified {
            Modified::SecondsSinceEpoch(t) => Some(t),
            _ => None,
        },
    }
}

/// The response's `If-None-Match` field is visible ASCII and lists the
/// file's entity tag: it is `*` after trimming, or the tag occurs in it.
pub open spec fn none_match_lists_tag(h: HeaderFields, meta: FileMetadata) -> bool {
    match field_get(h, if_none_match_name()) {
        Some(b) => match header_text(b) {
            Some(x) => trim_spec(x) == seq!['*'] || contains_spec(x, etag_spec(meta)),
            None => false,
        },
        None => false,
    }
}

/// The response's `If-Modified-Since` field is visible ASCII and spells a
/// date and time whose Unix time, taken as a `u64`, is later than `t`.
pub open spec fn modified_since_later(h: HeaderFields, t: u64) -> bool {
    match field_get(h, if_modified_since_name()) {
        Some(b) => match header_text(b) {
            Some(x) => match parsed_utc_timestamp(x) {
                Some(ts) => (ts as u64) > t,
                None => false,
            },
            None => false,
        },
        None => false,
    }
}

/// The response's `If-Modified-Since` field is visible ASCII but spells no
/// date and time.
pub open spec fn modified_since_unreadable(h: HeaderFields) -> bool {
    match field_get(h, if_modified_since_name()) {
        Some(b) => match header_text(b) {
            Some(x) => parsed_utc_timestamp(x) is None,
            None => false,
        },
        None => false,
    }
}

/// The status that `generate` answers, in terms of the request's
/// validators: with a modification time in force, the status becomes 304
/// when `If-None-Match` lists the file's full entity tag (or is `*`) or when
/// `If-Modified-Since` is later than that time, and stays as it was
/// otherwise (a tag that only shares a prefix with the file's tag is no
/// match); 304 once given is never taken back. Without a time in force the
/// status stays. `generate` stops with an error exactly on an unreadable
/// `If-Modified-Since` date (when a time is in force), keeping the 304 that
/// `If-None-Match` gave.
pub proof fn law_generate_conditional_status(h: HeaderFields, status: u16, meta: FileMetadata)
    requires
        fields_wf(h),
        !(field_get(h, last_modified_name()) is None && meta.modified == Modified::BeforeEpoch),
    ensures
        ({
            let r = generate_spec(h, status, meta);
            let mtime = time_in_force(h, meta);
            &&& r.2 != GenerateOutcome::ModifiedBeforeEpoch
            &&& r.2 != GenerateOutcome::Other
            &&& (r.2 == GenerateOutcome::BadDate <==> (mtime is Some && modified_since_unreadable(h)))
            &&& r.2 == GenerateOutcome::Done ==> r.1 == (if mtime matches Some(t) && (none_match_lists_tag(h, meta) || modified_since_later(h, t)) {
                NOT_MODIFIED
            } else {
                status
            })
            &&& r.2 == GenerateOutcome::BadDate ==> r.1 == (if none_match_lists_tag(h, meta) { NOT_MODIFIED } else { status })
        }),
{
    lemma_header_names_distinct();
    lemma_written_values_valid(meta);
    let (h1, mtime, stop) = last_modified_step(h, meta);
    if let Modified::SecondsSinceEpoch(t) = meta.modified {
        if field_get(h, last_modified_name()) is None {
            law_insert_then_get(h, last_modified_name(), ascii_bytes(digits_in_base(t as nat, 10)), if_none_match_name());
            law_insert_then_get(h, last_modified_name(), ascii_bytes(digits_in_base(t as nat, 10)), if_modified_since_name());
        }
    }
    assert(mtime == time_in_force(h, meta));
    assert(field_get(h1, if_none_match_name()) == field_get(h, if_none_match_name()));
    assert(field_get(h1, if_modified_since_name()) == field_get(h, if_modified_since_name()));
    let h2 = cache_control_step(h1);
    if field_get(h1, cache_control_name()) is None {
        law_append_then_get(h1, cache_control_name(), ascii_bytes(max_age_zero()), if_none_match_name());
        law_append_then_get(h1, cache_control_name(), ascii_bytes(max_age_zero()), if_modified_since_name());
    }
    assert(field_get(h2, if_none_match_name()) == field_get(h, if_none_match_name()));
    assert(field_get(h2, if_modified_since_name()) == field_get(h, if_modified_since_name()));
    let (h3, s3) = etag_step(h2, status, mtime, meta);
    if mtime is Some {
        law_append_then_get(h2, etag_name(), ascii_bytes(etag_spec(meta)), if_modified_since_name());
    }
    assert(field_get(h3, if_modified_since_name()) == field_get(h, if_modified_since_name()));
    assert(mtime is Some ==> (s3 == if none_match_lists_tag(h, meta) { NOT_MODIFIED } else { status }));
}

/// Unless `generate` stops at a modification time before the epoch, a
/// response without `Cache-Control` has exactly `max-age=0` there
/// afterwards; a response that had `Cache-Control` keeps all its values.
pub proof fn law_generate_cache_control(h: HeaderFields, status: u16, meta: FileMetadata)
    requires
        fields_wf(h),
    ensures
        generate_spec(h, status, meta).2 != GenerateOutcome::ModifiedBeforeEpoch
            && field_get(h, cache_control_name()) is None
            ==> field_values(generate_spec(h, status, meta).0, cache_control_name()) == seq![ascii_bytes(max_age_zero())],
        generate_spec(h, status, meta).2 != GenerateOutcome::ModifiedBeforeEpoch
            ==> field_get(generate_spec(h, status, meta).0, cache_control_name()) is Some,
        field_get(h, cache_control_name()) is Some
            ==> field_values(generate_spec(h, status, meta).0, cache_control_name()) == field_values(h, cache_control_name()),
        field_get(h, cache_control_name()) is Some
            ==> field_get(generate_spec(h, status, meta).0, cache_control_name()) == field_get(h, cache_control_name()),
{
    lemma_header_names_distinct();
    lemma_written_values_valid(meta);
    let (h1, mtime, stop) = last_modified_step(h, meta);
    if let Modified::SecondsSinceEpoch(t) = meta.modified {
        if field_get(h, last_modified_name()) is None {
            law_insert_then_get(h, last_modified_name(), ascii_bytes(digits_in_base(t as nat, 10)), cache_control_name());
        }
    }
    if !stop {
        let h2 = cache_control_step(h1);
        law_append_then_get(h1, cache_control_name(), ascii_bytes(max_age_zero()), cache_control_name());
        if field_get(h1, cache_control_name()) is None {
            lemma_no_values_when_absent(h1, cache_control_name());
            assert(Seq::<Seq<u8>>::empty().push(ascii_bytes(max_age_zero())) =~= seq![ascii_bytes(max_age_zero())]);
        }
        if mtime is Some {
            law_append_then_get(h2, etag_name(), ascii_bytes(etag_spec(meta)), cache_control_name());
        }
    }
}

/// A field that `get` does not find has no values.
proof fn lemma_no_values_when_absent(h: HeaderFields, name: Seq<char>)
    requires
        field_get(h, name) is None,
    ensures
        field_values(h, name) == Seq::<Seq<u8>>::empty(),
{
}

/// The values of every field before are the first values of that field
/// after.
pub open spec fn values_extend(h: HeaderFields, g: HeaderFields, name: Seq<char>) -> bool {
    field_values(h, name).len() <= field_values(g, name).len()
        && field_values(g, name).subrange(0, field_values(h, name).len() as int) == field_values(h, name)
}

/// `generate` removes no header value: every field keeps all the values it
/// had, in order, at its start (new values only come after them).
pub proof fn law_generate_keeps_values(h: HeaderFields, status: u16, meta: FileMetadata, name: Seq<char>)
    requires
        fields_wf(h),
    ensures
        values_extend(h, generate_spec(h, status, meta).0, name),
{
    lemma_written_values_valid(meta);
    let (h1, mtime, stop) = last_modified_step(h, meta);
    if let Modified::SecondsSinceEpoch(t) = meta.modified {
        if field_get(h, last_modified_name()) is None {
            law_insert_then_get(h, last_modified_name(), ascii_bytes(digits_in_base(t as nat, 10)), name);
            if name == last_modified_name() {
                lemma_no_values_when_absent(h, name);
            }
        }
    }
    assert(values_extend(h, h1, name)) by {
        assert(field_values(h1, name).subrange(0, field_values(h, name).len() as int) =~= field_values(h, name));
    }
    if !stop {
        let h2 = cache_control_step(h1);
        if field_get(h1, cache_control_name()) is None {
            law_append_then_get(h1, cache_control_name(), ascii_bytes(max_age_zero()), name);
        }
        assert(values_extend(h1, h2, name)) by {
            assert(field_values(h2, name).subrange(0, field_values(h1, name).len() as int) =~= field_values(h1, name));
        }
        let (h3, s3) = etag_step(h2, status, mtime, meta);
        if mtime is Some {
            law_append_then_get(h2, etag_name(), ascii_bytes(etag_spec(meta)), name);
        }
        assert(values_extend(h2, h3, name)) by {
            assert(field_values(h3, name).subrange(0, field_values(h2, name).len() as int) =~= field_values(h2, name));
        }
        assert(field_values(h3, name).subrange(0, field_values(h, name).len() as int) =~= field_values(h, name)) by {
            assert forall|k: int| 0 <= k < field_values(h, name).len() implies
                #[trigger] field_values(h3, name)[k] == field_values(h, name)[k] by {
                assert(field_values(h1, name)[k] == field_values(h, name)[k]);
                assert(field_values(h2, name)[k] == field_values(h1, name)[k]);
                assert(field_values(h3, name)[k] == field_values(h2, name)[k]);
            }
        }
    }
}

/// What `generate` writes into `Last-Modified` is read back: a response
/// without that field, for a file modified `t` seconds after the epoch,
/// leaves `generate` stating `t`, and a later `generate` on the same
/// response (whatever file metadata it is given) takes `t` as the
/// modification time.
pub proof fn law_last_modified_read_back(h: HeaderFields, status: u16, meta: FileMetadata, t: u64, later: FileMetadata)
    requires
        fields_wf(h),
        field_get(h, last_modified_name()) is None,
        meta.modified == Modified::SecondsSinceEpoch(t),
    ensures
        generate_spec(h, status, meta).2 != GenerateOutcome::ModifiedBeforeEpoch,
        last_modified_step(generate_spec(h, status, meta).0, later).1 == Some(t),
{
    lemma_header_names_distinct();
    lemma_written_values_valid(meta);
    let v = ascii_bytes(digits_in_base(t as nat, 10));
    law_insert_then_get(h, last_modified_name(), v, last_modified_name());
    let (h1, mtime, stop) = last_modified_step(h, meta);
    let h2 = cache_control_step(h1);
    law_append_then_get(h1, cache_control_name(), ascii_bytes(max_age_zero()), last_modified_name());
    let (h3, s3) = etag_step(h2, status, mtime, meta);
    law_append_then_get(h2, etag_name(), ascii_bytes(etag_spec(meta)), last_modified_name());
    assert(field_get(h3, last_modified_name()) == Some(v));
    lemma_digits_visible(t as nat, 10);
    lemma_visible_ascii_bytes(digits_in_base(t as nat, 10));
    crate::text::lemma_parse_format_decimal(t);
}

/// A file's entity tag matches itself: an `If-None-Match` value that is
/// exactly the tag of the file lists it, so `if_none_match` answers `false`.
pub proof fn law_etag_matches_itself(meta: FileMetadata)
    ensures
        !if_none_match_spec(etag_spec(meta), etag_spec(meta)),
{
    let e = etag_spec(meta);
    assert(e.subrange(0, 0 + e.len() as int) =~= e);
    assert(crate::text::contains_spec(e, e));
}

/// A response whose `If-None-Match` field holds exactly the file's own
/// entity tag is marked "not modified" once a modification time is in force.
pub proof fn law_own_etag_not_modified(h: HeaderFields, status: u16, mtime: Option<u64>, meta: FileMetadata)
    requires
        mtime is Some,
        field_get(h, if_none_match_name()) == Some(ascii_bytes(etag_spec(meta))),
    ensures
        etag_step(h, status, mtime, meta).1 == NOT_MODIFIED,
{
    law_etag_matches_itself(meta);
    lemma_etag_visible(meta);
    lemma_visible_ascii_bytes(etag_spec(meta));
}

/// `generate` gives every file response whose modification time is in
/// force its entity tag: unless it stops at a time before the epoch, the
/// file's tag is added after the values the `ETag` field had, whatever
/// `If-None-Match` holds; so a response without an `ETag` field has exactly
/// that tag.
pub proof fn law_generate_sets_etag(h: HeaderFields, status: u16, meta: FileMetadata)
    requires
        fields_wf(h),
        last_modified_step(h, meta).1 is Some,
    ensures
        generate_spec(h, status, meta).2 != GenerateOutcome::ModifiedBeforeEpoch,
        field_values(generate_spec(h, status, meta).0, etag_name())
            == field_values(h, etag_name()).push(ascii_bytes(etag_spec(meta))),
        field_get(h, etag_name()) is None
            ==> field_get(generate_spec(h, status, meta).0, etag_name()) == Some(ascii_bytes(etag_spec(meta))),
{
    lemma_header_names_distinct();
    lemma_written_values_valid(meta);
    let (h1, mtime, stop) = last_modified_step(h, meta);
    if let Modified::SecondsSinceEpoch(t) = meta.modified {
        if field_get(h, last_modified_name()) is None {
            law_insert_then_get(h, last_modified_name(), ascii_bytes(digits_in_base(t as nat, 10)), etag_name());
        }
    }
    let h2 = cache_control_step(h1);
    law_append_then_get(h1, cache_control_name(), ascii_bytes(max_age_zero()), etag_name());
    law_append_then_get(h2, etag_name(), ascii_bytes(etag_spec(meta)), etag_name());
}

proof fn lemma_no_dash_in_digits(n: nat, i: int)
    requires
        0 <= i < digits_in_base(n, 16).len(),
    ensures
        digits_in_base(n, 16)[i] != '-',
{
    lemma_digits_visible(n, 16);
    assert('0' <= digits_in_base(n, 16)[i]);
}

/// The entity tag tells files apart: two files whose modification times
/// are known get the same tag exactly when they have the same size and the
/// same modification time, so a browser cache sees a new tag whenever a file
/// changes in size or time.
pub proof fn law_etag_identifies_file(m1: FileMetadata, m2: FileMetadata, t1: u64, t2: u64)
    requires
        m1.modified == Modified::SecondsSinceEpoch(t1),
        m2.modified == Modified::SecondsSinceEpoch(t2),
    ensures
        etag_spec(m1) == etag_spec(m2) <==> (m1.len == m2.len && t1 == t2),
{
    let e1 = etag_spec(m1);
    let e2 = etag_spec(m2);
    let a1 = digits_in_base(m1.len as nat, 16);
    let a2 = digits_in_base(m2.len as nat, 16);
    let b1 = digits_in_base(t1 as nat, 16);
    let b2 = digits_in_base(t2 as nat, 16);
    assert(e1 =~= seq!['W', '/', '0', 'x'] + a1 + seq!['-', '0', 'x'] + b1);
    assert(e2 =~= seq!['W', '/', '0', 'x'] + a2 + seq!['-', '0', 'x'] + b2);
    if e1 == e2 {
        if a1.len() < a2.len() {
            assert(e1[4 + a1.len() as int] == '-');
            assert(e2[4 + a1.len() as int] == a2[a1.len() as int]);
            lemma_no_dash_in_digits(m2.len as nat, a1.len() as int);
        } else if a2.len() < a1.len() {
            assert(e2[4 + a2.len() as int] == '-');
            assert(e1[4 + a2.len() as int] == a1[a2.len() as int]);
            lemma_no_dash_in_digits(m1.len as nat, a2.len() as int);
        }
        assert(a1.len() == a2.len());
        assert(a1 =~= e1.subrange(4, 4 + a1.len() as int));
        assert(a2 =~= e2.subrange(4, 4 + a2.len() as int));
        crate::text::lemma_digits_injective(m1.len as nat, m2.len as nat, 16);
        assert(b1 =~= e1.subrange(7 + a1.len() as int, e1.len() as int));
        assert(b2 =~= e2.subrange(7 + a2.len() as int, e2.len() as int));
        crate::text::lemma_digits_injective(t1 as nat, t2 as nat, 16);
    }
}

} // verus!
