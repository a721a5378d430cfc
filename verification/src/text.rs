//! Text helpers with exact specifications: number formatting and parsing,
//! whitespace trimming and substring search over Unicode scalar values.

use vstd::prelude::*;
use vstd::string::*;

verus! {

/// The character that stands for digit `d` (0 to 15) in lower-case
/// hexadecimal or decimal notation.
pub open spec fn digit_char(d: nat) -> char {
    if d == 0 { '0' }
    else if d == 1 { '1' }
    else if d == 2 { '2' }
    else if d == 3 { '3' }
    else if d == 4 { '4' }
    else if d == 5 { '5' }
    else if d == 6 { '6' }
    else if d == 7 { '7' }
    else if d == 8 { '8' }
    else if d == 9 { '9' }
    else if d == 10 { 'a' }
    else if d == 11 { 'b' }
    else if d == 12 { 'c' }
    else if d == 13 { 'd' }
    else if d == 14 { 'e' }
    else { 'f' }
}

/// The digits of `n` written in `base` (2 to 16), most significant first,
/// without leading zeros (zero is written as a single `0`).
pub open spec fn digits_in_base(n: nat, base: nat) -> Seq<char>
    decreases n,
{
    if base < 2 || n < base {
        seq![digit_char(n)]
    } else {
        proof {
            lemma_div_decreases(n, base);
        }
        digits_in_base(n / base, base).push(digit_char(n % base))
    }
}

pub proof fn lemma_div_decreases(n: nat, base: nat)
    requires
        base >= 2,
        n >= base,
    ensures
        n / base < n,
{
    assert(n / base < n) by (nonlinear_arith)
        requires
            base >= 2,
            n >= base,
    ;
}

/// `String::push`: appends one character.
#[verifier::external_body]
pub(crate) fn push_char(s: &mut String, c: char)
    ensures
        final(s)@ == old(s)@.push(c),
{
    s.push(c);
}

fn digit_to_char(d: u64) -> (c: char)
    requires
        d < 16,
    ensures
        c == digit_char(d as nat),
{
    if d == 0 { '0' }
    else if d == 1 { '1' }
    else if d == 2 { '2' }
    else if d == 3 { '3' }
    else if d == 4 { '4' }
    else if d == 5 { '5' }
    else if d == 6 { '6' }
    else if d == 7 { '7' }
    else if d == 8 { '8' }
    else if d == 9 { '9' }
    else if d == 10 { 'a' }
    else if d == 11 { 'b' }
    else if d == 12 { 'c' }
    else if d == 13 { 'd' }
    else if d == 14 { 'e' }
    else { 'f' }
}

/// Appends the digits of `n` in `base` to `out`.
pub fn push_digits(n: u64, base: u64, out: &mut String)
    requires
        2 <= base <= 16,
    ensures
        final(out)@ == old(out)@ + digits_in_base(n as nat, base as nat),
    decreases n,
{
    if n < base {
        push_char(out, digit_to_char(n));
    } else {
        proof {
            lemma_div_decreases(n as nat, base as nat);
        }
        push_digits(n / base, base, out);
        push_char(out, digit_to_char(n % base));
        proof {
            assert(old(out)@ + digits_in_base(n as nat, base as nat) =~= old(out)@
                + digits_in_base((n / base) as nat, base as nat) + seq![digit_char((n % base) as nat)]);
        }
    }
}


/// A character `0` to `9`.
pub open spec fn is_decimal_digit(c: char) -> bool {
    '0' <= c && c <= '9'
}

/// Every character of `s` is a decimal digit.
pub open spec fn all_decimal(s: Seq<char>) -> bool {
    forall|i: int| 0 <= i < s.len() ==> is_decimal_digit(#[trigger] s[i])
}

/// The number that the decimal digits `s` denote (zero for no digits).
pub open spec fn decimal_value(s: Seq<char>) -> nat
    decreases s.len(),
{
    if s.len() == 0 {
        0
    } else {
        decimal_value(s.drop_last()) * 10 + ((s.last() as int) - ('0' as int)) as nat
    }
}

/// The digits that `u64::from_str` reads: the text after one optional `+`.
pub open spec fn unsigned_digits(s: Seq<char>) -> Seq<char> {
    if s.len() > 0 && s[0] == '+' {
        s.drop_first()
    } else {
        s
    }
}

/// What `str::parse::<u64>` gives for `s`: an optional `+` followed by at
/// least one decimal digit and nothing else, whose value fits in 64 bits.
pub open spec fn parse_u64_spec(s: Seq<char>) -> Option<u64> {
    let d = unsigned_digits(s);
    if d.len() > 0 && all_decimal(d) && decimal_value(d) <= u64::MAX {
        Some(decimal_value(d) as u64)
    } else {
        None
    }
}

/// The characters of `s`, one by one.
pub fn chars_of(s: &str) -> (v: Vec<char>)
    ensures
        v@ == s@,
{
    let n = s.unicode_len();
    let mut v: Vec<char> = Vec::new();
    let mut i: usize = 0;
    while i < n
        invariant
            n == s@.len(),
            i <= n,
            v@ == s@.subrange(0, i as int),
        decreases n - i,
    {
        let c = s.get_char(i);
        v.push(c);
        i = i + 1;
        assert(v@ =~= s@.subrange(0, i as int));
    }
    assert(v@ =~= s@);
    v
}

/// Whether two strings hold the same characters.
pub fn str_eq(a: &str, b: &str) -> (r: bool)
    ensures
        r == (a@ == b@),
{
    let x = chars_of(a);
    let y = chars_of(b);
    if x.len() != y.len() {
        return false;
    }
    let mut i: usize = 0;
    while i < x.len()
        invariant
            x@ == a@,
            y@ == b@,
            x.len() == y.len(),
            i <= x.len(),
            forall|k: int| 0 <= k < i ==> x@[k] == y@[k],
        decreases x.len() - i,
    {
        if x[i] != y[i] {
            return false;
        }
        i = i + 1;
    }
    assert(x@ =~= y@);
    true
}

/// Taking more leading digits never gives a smaller number.
pub proof fn lemma_decimal_value_prefix(s: Seq<char>, k: int)
    requires
        0 <= k <= s.len(),
        all_decimal(s),
    ensures
        decimal_value(s.take(k)) <= decimal_value(s),
    decreases s.len(),
{
    if k < s.len() {
        let t = s.drop_last();
        assert(all_decimal(t)) by {
            assert forall|i: int| 0 <= i < t.len() implies is_decimal_digit(#[trigger] t[i]) by {
                assert(t[i] == s[i]);
            }
        }
        lemma_decimal_value_prefix(t, k);
        assert(t.take(k) =~= s.take(k));
    } else {
        assert(s.take(k) =~= s);
    }
}

/// Parses `s` as `str::parse::<u64>` does.
pub fn parse_u64(s: &str) -> (r: Option<u64>)
    ensures
        r == parse_u64_spec(s@),
{
    let c = chars_of(s);
    let n = c.len();
    let start: usize = if n > 0 && c[0] == '+' { 1 } else { 0 };
    let ghost d = unsigned_digits(s@);
    assert(d =~= c@.subrange(start as int, n as int));
    if start == n {
        return None;
    }
    let mut acc: u64 = 0;
    let mut i: usize = start;
    while i < n
        invariant
            c@ == s@,
            n == c.len(),
            start <= i <= n,
            d == c@.subrange(start as int, n as int),
            d == unsigned_digits(s@),
            d.len() > 0,
            all_decimal(d.take(i - start)),
            acc as nat == decimal_value(d.take(i - start)),
        decreases n - i,
    {
        let ch = c[i];
        if !('0' <= ch && ch <= '9') {
            assert(d[i - start] == ch);
            assert(!is_decimal_digit(d[i - start]));
            return None;
        }
        let digit: u64 = (ch as u32 - '0' as u32) as u64;
        proof {
            let t = d.take(i - start + 1);
            assert(t.drop_last() =~= d.take(i - start));
            assert(t.last() == ch);
        }
        let next = match acc.checked_mul(10) {
            Some(m) => m.checked_add(digit),
            None => None,
        };
        match next {
            Some(v) => {
                acc = v;
            },
            None => {
                proof {
                    let t = d.take(i - start + 1);
                    assert(all_decimal(t)) by {
                        assert forall|k: int| 0 <= k < t.len() implies is_decimal_digit(#[trigger] t[k]) by {
                            if k < t.len() - 1 {
                                assert(t[k] == d.take(i - start)[k]);
                            }
                        }
                    }
                    assert(decimal_value(t) > u64::MAX);
                    if all_decimal(d) {
                        lemma_decimal_value_prefix(d, i - start + 1);
                    }
                }
                return None;
            },
        }
        i = i + 1;
        proof {
            let t = d.take(i - start);
            assert forall|k: int| 0 <= k < t.len() implies is_decimal_digit(#[trigger] t[k]) by {
                if k < t.len() - 1 {
                    assert(t[k] == d.take(i - start - 1)[k]);
                }
            }
        }
    }
    assert(d.take(n - start) =~= d);
    Some(acc)
}


/// `n` in decimal notation, as `u64::to_string` writes it.
pub fn format_decimal(n: u64) -> (r: String)
    ensures
        r@ == digits_in_base(n as nat, 10),
{
    let mut r = String::new();
    push_digits(n, 10, &mut r);
    assert(r@ =~= digits_in_base(n as nat, 10));
    r
}

/// `n` in the alternate lower-case hexadecimal notation of `format!("{:#x}")`:
/// `0x` followed by the hexadecimal digits.
pub fn format_hex_alternate(n: u64) -> (r: String)
    ensures
        r@ == seq!['0', 'x'] + digits_in_base(n as nat, 16),
{
    let mut r = String::new();
    push_char(&mut r, '0');
    push_char(&mut r, 'x');
    push_digits(n, 16, &mut r);
    r
}

/// A decimal digit character stands for its own value.
pub proof fn lemma_digit_char_value(d: nat)
    requires
        d < 10,
    ensures
        is_decimal_digit(digit_char(d)),
        (digit_char(d) as int) - ('0' as int) == d,
{
    assert('0' as int == 48);
    if d == 0 { assert('0' as int == 48); }
    else if d == 1 { assert('1' as int == 49); }
    else if d == 2 { assert('2' as int == 50); }
    else if d == 3 { assert('3' as int == 51); }
    else if d == 4 { assert('4' as int == 52); }
    else if d == 5 { assert('5' as int == 53); }
    else if d == 6 { assert('6' as int == 54); }
    else if d == 7 { assert('7' as int == 55); }
    else if d == 8 { assert('8' as int == 56); }
    else { assert('9' as int == 57); }
}

/// Decimal digits of `n` are all decimal digits, there is at least one, and
/// they denote `n`.
pub proof fn lemma_decimal_digits(n: nat)
    ensures
        digits_in_base(n, 10).len() > 0,
        all_decimal(digits_in_base(n, 10)),
        decimal_value(digits_in_base(n, 10)) == n,
    decreases n,
{
    let s = digits_in_base(n, 10);
    if n < 10 {
        assert(s.drop_last() =~= Seq::<char>::empty());
        assert(s.last() == digit_char(n));
        lemma_digit_char_value(n);
        assert(decimal_value(s.drop_last()) == 0);
        assert(decimal_value(s) == decimal_value(s.drop_last()) * 10 + ((s.last() as int) - ('0' as int)) as nat);
    } else {
        let t = digits_in_base(n / 10, 10);
        lemma_decimal_digits(n / 10);
        assert(s == t.push(digit_char(n % 10)));
        assert(s.drop_last() =~= t);
        lemma_digit_char_value(n % 10);
        assert(n == (n / 10) * 10 + n % 10);
        assert(decimal_value(s) == decimal_value(s.drop_last()) * 10 + ((s.last() as int) - ('0' as int)) as nat);
        assert(s.last() == digit_char(n % 10));
        assert forall|i: int| 0 <= i < s.len() implies is_decimal_digit(#[trigger] s[i]) by {
            if i < t.len() {
                assert(s[i] == t[i]);
            }
        }
    }
}

/// Reading back a number written in decimal gives the number: what
/// `format_decimal` writes, `parse_u64` reads as the same value.
pub proof fn lemma_parse_format_decimal(n: u64)
    ensures
        parse_u64_spec(digits_in_base(n as nat, 10)) == Some(n),
{
    let s = digits_in_base(n as nat, 10);
    lemma_decimal_digits(n as nat);
    assert(is_decimal_digit(s[0]));
    assert(unsigned_digits(s) == s);
}


/// `char::is_whitespace`: the characters with the Unicode `White_Space`
/// property.
pub open spec fn is_unicode_whitespace(c: char) -> bool {
    let v = c as u32;
    ||| 0x9 <= v <= 0xd
    ||| v == 0x20
    ||| v == 0x85
    ||| v == 0xa0
    ||| v == 0x1680
    ||| 0x2000 <= v <= 0x200a
    ||| v == 0x2028
    ||| v == 0x2029
    ||| v == 0x202f
    ||| v == 0x205f
    ||| v == 0x3000
}

/// `s` without its leading whitespace.
pub open spec fn trim_start_spec(s: Seq<char>) -> Seq<char>
    decreases s.len(),
{
    if s.len() > 0 && is_unicode_whitespace(s[0]) {
        trim_start_spec(s.drop_first())
    } else {
        s
    }
}

/// `s` without its trailing whitespace.
pub open spec fn trim_end_spec(s: Seq<char>) -> Seq<char>
    decreases s.len(),
{
    if s.len() > 0 && is_unicode_whitespace(s.last()) {
        trim_end_spec(s.drop_last())
    } else {
        s
    }
}

/// `str::trim`: `s` without leading and trailing whitespace.
pub open spec fn trim_spec(s: Seq<char>) -> Seq<char> {
    trim_end_spec(trim_start_spec(s))
}

/// `pat` occurs in `s` as a contiguous run of characters.
pub open spec fn contains_spec(s: Seq<char>, pat: Seq<char>) -> bool {
    exists|i: int| 0 <= i && i + pat.len() <= s.len() && #[trigger] s.subrange(i, i + pat.len()) == pat
}

fn is_whitespace(c: char) -> (r: bool)
    ensures
        r == is_unicode_whitespace(c),
{
    let v = c as u32;
    (0x9 <= v && v <= 0xd) || v == 0x20 || v == 0x85 || v == 0xa0 || v == 0x1680 || (0x2000 <= v
        && v <= 0x200a) || v == 0x2028 || v == 0x2029 || v == 0x202f || v == 0x205f || v == 0x3000
}

/// The characters of `s` with leading and trailing whitespace removed, as
/// `str::trim` does.
pub fn trim_chars(s: &Vec<char>) -> (r: Vec<char>)
    ensures
        r@ == trim_spec(s@),
{
    let n = s.len();
    let mut i: usize = 0;
    assert(s@.subrange(0, n as int) =~= s@);
    while i < n && is_whitespace(s[i])
        invariant
            n == s@.len(),
            i <= n,
            trim_start_spec(s@) == trim_start_spec(s@.subrange(i as int, n as int)),
        decreases n - i,
    {
        proof {
            let t = s@.subrange(i as int, n as int);
            assert(t.drop_first() =~= s@.subrange(i + 1, n as int));
        }
        i = i + 1;
    }
    assert(trim_start_spec(s@) == s@.subrange(i as int, n as int));
    let mut j: usize = n;
    while j > i && is_whitespace(s[j - 1])
        invariant
            n == s@.len(),
            i <= j <= n,
            trim_start_spec(s@) == s@.subrange(i as int, n as int),
            trim_spec(s@) == trim_end_spec(s@.subrange(i as int, j as int)),
        decreases j,
    {
        proof {
            let t = s@.subrange(i as int, j as int);
            assert(t.drop_last() =~= s@.subrange(i as int, j - 1));
            assert(t.last() == s@[j - 1]);
        }
        j = j - 1;
    }
    let mut r: Vec<char> = Vec::new();
    let mut k: usize = i;
    while k < j
        invariant
            n == s@.len(),
            i <= k <= j <= n,
            r@ == s@.subrange(i as int, k as int),
        decreases j - k,
    {
        r.push(s[k]);
        k = k + 1;
        assert(r@ =~= s@.subrange(i as int, k as int));
    }
    r
}

/// Whether `pat` occurs in `s`, as `str::contains` with a string pattern.
pub fn contains_chars(s: &Vec<char>, pat: &Vec<char>) -> (r: bool)
    ensures
        r == contains_spec(s@, pat@),
{
    let n = s.len();
    let m = pat.len();
    if m > n {
        return false;
    }
    let mut i: usize = 0;
    while i <= n - m
        invariant
            n == s@.len(),
            m == pat@.len(),
            m <= n,
            i <= n - m + 1,
            forall|k: int| 0 <= k < i ==> #[trigger] s@.subrange(k, k + m) != pat@,
        decreases n - m + 1 - i,
    {
        let mut j: usize = 0;
        while j < m && s[i + j] == pat[j]
            invariant
                n == s@.len(),
                m == pat@.len(),
                i + m <= n,
                j <= m,
                forall|k: int| 0 <= k < j ==> s@[i + k] == pat@[k],
            decreases m - j,
        {
            j = j + 1;
        }
        if j == m {
            assert(s@.subrange(i as int, i + m) =~= pat@);
            return true;
        }
        assert(s@.subrange(i as int, i + m)[j as int] != pat@[j as int]);
        i = i + 1;
    }
    false
}


/// A digit character lies between `0` and `f`.
pub proof fn lemma_digit_char_visible(d: nat)
    ensures
        '0' <= digit_char(d) <= 'f',
{
}

/// The digits of a number lie between `0` and `f`.
pub proof fn lemma_digits_visible(n: nat, base: nat)
    ensures
        forall|i: int| 0 <= i < digits_in_base(n, base).len() ==> '0' <= #[trigger] digits_in_base(n, base)[i] <= 'f',
    decreases n,
{
    let s = digits_in_base(n, base);
    if base < 2 || n < base {
        lemma_digit_char_visible(n);
    } else {
        lemma_div_decreases(n, base);
        lemma_digits_visible(n / base, base);
        lemma_digit_char_visible(n % base);
        let t = digits_in_base(n / base, base);
        assert forall|i: int| 0 <= i < s.len() implies '0' <= #[trigger] s[i] <= 'f' by {
            if i < t.len() {
                assert(s[i] == t[i]);
            }
        }
    }
}


/// `p` is a prefix of `s`.
pub open spec fn starts_with_spec(s: Seq<char>, p: Seq<char>) -> bool {
    p.len() <= s.len() && s.subrange(0, p.len() as int) == p
}

/// Whether `p` is a prefix of `s`, as `str::starts_with` with a string
/// pattern.
pub fn starts_with(s: &str, p: &str) -> (r: bool)
    ensures
        r == starts_with_spec(s@, p@),
{
    let x = chars_of(s);
    let y = chars_of(p);
    if y.len() > x.len() {
        return false;
    }
    let mut i: usize = 0;
    while i < y.len()
        invariant
            x@ == s@,
            y@ == p@,
            y.len() <= x.len(),
            i <= y.len(),
            forall|k: int| 0 <= k < i ==> x@[k] == y@[k],
        decreases y.len() - i,
    {
        if x[i] != y[i] {
            assert(s@.subrange(0, p@.len() as int)[i as int] != p@[i as int]);
            return false;
        }
        i = i + 1;
    }
    assert(s@.subrange(0, p@.len() as int) =~= p@);
    true
}

/// `s` followed by `t`, as a new string.
pub fn concat_str(s: &str, t: &str) -> (r: String)
    ensures
        r@ == s@ + t@,
{
    let mut r = String::from_str(s);
    r.append(t);
    r
}


/// The value of a digit character `0` to `9` or `a` to `f`.
pub open spec fn digit_value(c: char) -> nat {
    if '0' <= c && c <= '9' {
        ((c as int) - ('0' as int)) as nat
    } else {
        ((c as int) - ('a' as int) + 10) as nat
    }
}

/// The number that the digits `s` denote in `base`.
pub open spec fn base_value(s: Seq<char>, base: nat) -> nat
    decreases s.len(),
{
    if s.len() == 0 {
        0
    } else {
        base_value(s.drop_last(), base) * base + digit_value(s.last())
    }
}

/// A digit character stands for its own value.
pub proof fn lemma_digit_value(d: nat)
    requires
        d < 16,
    ensures
        digit_value(digit_char(d)) == d,
{
    if d < 10 {
        lemma_digit_char_value(d);
    } else if d == 10 {
        assert('a' as int == 97);
    } else if d == 11 {
        assert('b' as int == 98);
    } else if d == 12 {
        assert('c' as int == 99);
    } else if d == 13 {
        assert('d' as int == 100);
    } else if d == 14 {
        assert('e' as int == 101);
    } else {
        assert('f' as int == 102);
    }
}

/// The digits of `n` in `base` (2 to 16) denote `n`.
pub proof fn lemma_digits_value(n: nat, base: nat)
    requires
        2 <= base <= 16,
    ensures
        base_value(digits_in_base(n, base), base) == n,
    decreases n,
{
    let s = digits_in_base(n, base);
    if n < base {
        lemma_digit_value(n);
        assert(s.drop_last() =~= Seq::<char>::empty());
        assert(base_value(s.drop_last(), base) == 0);
    } else {
        lemma_div_decreases(n, base);
        lemma_digits_value(n / base, base);
        lemma_digit_value(n % base);
        assert(s.drop_last() =~= digits_in_base(n / base, base));
        vstd::arithmetic::div_mod::lemma_fundamental_div_mod(n as int, base as int);
        assert(base_value(s, base) == (n / base) * base + n % base) by (nonlinear_arith)
            requires
                base_value(s, base) == base_value(s.drop_last(), base) * base + digit_value(s.last()),
                base_value(s.drop_last(), base) == n / base,
                digit_value(s.last()) == n % base,
        ;
        assert((n / base) * base == base * (n / base)) by (nonlinear_arith);
    }
}

/// Different numbers have different digits: the digits of a number in a
/// base (2 to 16) determine it.
pub proof fn lemma_digits_injective(a: nat, b: nat, base: nat)
    requires
        2 <= base <= 16,
        digits_in_base(a, base) == digits_in_base(b, base),
    ensures
        a == b,
{
    lemma_digits_value(a, base);
    lemma_digits_value(b, base);
}

} // verus!
