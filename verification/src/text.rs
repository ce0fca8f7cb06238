//! Character and string helpers with exact specifications.
//!
//! Strings are reasoned about through their view, the sequence of their
//! Unicode scalar values (`Seq<char>`).

use vstd::prelude::*;

verus! {

// ---------------------------------------------------------------------------
// Whitespace and trimming
// ---------------------------------------------------------------------------

/// Unicode `White_Space` property, the definition that `char::is_whitespace`
/// and `str::trim` follow.
pub open spec fn is_ws(c: char) -> bool {
    ||| '\u{9}' <= c <= '\u{d}'
    ||| c == ' '
    ||| c == '\u{85}'
    ||| c == '\u{a0}'
    ||| c == '\u{1680}'
    ||| '\u{2000}' <= c <= '\u{200a}'
    ||| c == '\u{2028}'
    ||| c == '\u{2029}'
    ||| c == '\u{202f}'
    ||| c == '\u{205f}'
    ||| c == '\u{3000}'
}

/// Whether `c` is Unicode whitespace.
pub fn is_whitespace_char(c: char) -> (r: bool)
    ensures
        r == is_ws(c),
{
    ('\u{9}' <= c && c <= '\u{d}') || c == ' ' || c == '\u{85}' || c == '\u{a0}' || c
        == '\u{1680}' || ('\u{2000}' <= c && c <= '\u{200a}') || c == '\u{2028}' || c
        == '\u{2029}' || c == '\u{202f}' || c == '\u{205f}' || c == '\u{3000}'
}

/// `s` without its leading whitespace.
pub open spec fn trim_start_ws(s: Seq<char>) -> Seq<char>
    decreases s.len(),
{
    if s.len() > 0 && is_ws(s[0]) {
        trim_start_ws(s.drop_first())
    } else {
        s
    }
}

/// `s` without its trailing whitespace.
pub open spec fn trim_end_ws(s: Seq<char>) -> Seq<char>
    decreases s.len(),
{
    if s.len() > 0 && is_ws(s.last()) {
        trim_end_ws(s.drop_last())
    } else {
        s
    }
}

/// `s` without leading and trailing whitespace (`str::trim`).
pub open spec fn trim_ws(s: Seq<char>) -> Seq<char> {
    trim_end_ws(trim_start_ws(s))
}

/// Whether `s` contains only whitespace (the empty sequence included).
pub open spec fn all_ws(s: Seq<char>) -> bool {
    forall|i: int| 0 <= i < s.len() ==> is_ws(#[trigger] s[i])
}

/// Trimming removes nothing but whitespace from the ends, and leaves a
/// sequence that does not start or end with whitespace.
pub proof fn lemma_trim_start_shape(s: Seq<char>)
    ensures
        trim_start_ws(s).len() <= s.len(),
        trim_start_ws(s) == s.skip(s.len() - trim_start_ws(s).len()),
        all_ws(s.take(s.len() - trim_start_ws(s).len())),
        trim_start_ws(s).len() > 0 ==> !is_ws(trim_start_ws(s)[0]),
    decreases s.len(),
{
    if s.len() > 0 && is_ws(s[0]) {
        lemma_trim_start_shape(s.drop_first());
        let t = trim_start_ws(s.drop_first());
        assert(s.drop_first().skip(s.drop_first().len() - t.len()) =~= s.skip(s.len() - t.len()));
        assert forall|i: int| 0 <= i < s.len() - t.len() implies is_ws(
            #[trigger] s.take(s.len() - t.len())[i],
        ) by {
            if i > 0 {
                assert(s.take(s.len() - t.len())[i] == s.drop_first().take(
                    s.drop_first().len() - t.len(),
                )[i - 1]);
            }
        }
    } else {
        assert(s.skip(0) =~= s);
    }
}

/// Shape of `trim_end_ws`, mirror of `lemma_trim_start_shape`.
pub proof fn lemma_trim_end_shape(s: Seq<char>)
    ensures
        trim_end_ws(s).len() <= s.len(),
        trim_end_ws(s) == s.take(trim_end_ws(s).len() as int),
        all_ws(s.skip(trim_end_ws(s).len() as int)),
        trim_end_ws(s).len() > 0 ==> !is_ws(trim_end_ws(s).last()),
    decreases s.len(),
{
    if s.len() > 0 && is_ws(s.last()) {
        lemma_trim_end_shape(s.drop_last());
        let t = trim_end_ws(s.drop_last());
        assert(s.drop_last().take(t.len() as int) =~= s.take(t.len() as int));
        assert forall|i: int| 0 <= i < s.len() - t.len() implies is_ws(
            #[trigger] s.skip(t.len() as int)[i],
        ) by {
            if i < s.len() - t.len() - 1 {
                assert(s.skip(t.len() as int)[i] == s.drop_last().skip(t.len() as int)[i]);
            }
        }
    } else {
        assert(s.take(s.len() as int) =~= s);
    }
}

/// Trimming a sequence twice is the same as trimming it once.
pub proof fn lemma_trim_idempotent(s: Seq<char>)
    ensures
        trim_ws(trim_ws(s)) == trim_ws(s),
{
    let a = trim_start_ws(s);
    lemma_trim_start_shape(s);
    lemma_trim_end_shape(a);
    let t = trim_end_ws(a);
    if t.len() > 0 {
        assert(t[0] == a[0]);
        assert(trim_start_ws(t) == t);
        assert(trim_end_ws(t) == t);
    } else {
        assert(trim_start_ws(t) == t);
        assert(trim_end_ws(t) == t);
    }
}

// ---------------------------------------------------------------------------
// Building strings
// ---------------------------------------------------------------------------

/// Appends one character to a `String` (`String::push`).
#[verifier::external_body]
pub(crate) fn push_char(s: &mut String, c: char)
    ensures
        final(s)@ == old(s)@.push(c),
{
    s.push(c);
}

/// The characters of `s`, in order.
pub fn chars_of(s: &str) -> (v: Vec<char>)
    ensures
        v@ == s@,
{
    let mut v: Vec<char> = Vec::new();
    for c in it: s.chars()
        invariant
            v@ == it.seq().take(it.index() as int),
    {
        v.push(c);
    }
    v
}

/// The string made of `v[lo..hi]`.
pub fn string_from_chars(v: &Vec<char>, lo: usize, hi: usize) -> (r: String)
    requires
        lo <= hi <= v@.len(),
    ensures
        r@ == v@.subrange(lo as int, hi as int),
{
    let mut r = String::new();
    let mut i: usize = lo;
    while i < hi
        invariant
            lo <= i <= hi <= v@.len(),
            r@ == v@.subrange(lo as int, i as int),
        decreases hi - i,
    {
        push_char(&mut r, v[i]);
        assert(v@.subrange(lo as int, i + 1) =~= v@.subrange(lo as int, i as int).push(v@[i as int]));
        i = i + 1;
    }
    r
}

/// A fresh `String` with the same characters as `s`.
pub fn owned(s: &str) -> (r: String)
    ensures
        r@ == s@,
{
    s.to_owned()
}

/// Whether two strings hold the same characters.
pub fn str_eq(a: &str, b: &str) -> (r: bool)
    ensures
        r == (a@ == b@),
{
    let va = chars_of(a);
    let vb = chars_of(b);
    if va.len() != vb.len() {
        return false;
    }
    let mut i: usize = 0;
    while i < va.len()
        invariant
            va@ == a@,
            vb@ == b@,
            va@.len() == vb@.len(),
            i <= va@.len(),
            forall|k: int| 0 <= k < i ==> va@[k] == vb@[k],
        decreases va.len() - i,
    {
        if va[i] != vb[i] {
            return false;
        }
        i = i + 1;
    }
    assert(va@ =~= vb@);
    true
}

/// Whether `p` is a prefix of `s`.
pub open spec fn has_prefix(s: Seq<char>, p: Seq<char>) -> bool {
    p.len() <= s.len() && s.take(p.len() as int) == p
}

/// Whether `p` is a suffix of `s`.
pub open spec fn has_suffix(s: Seq<char>, p: Seq<char>) -> bool {
    p.len() <= s.len() && s.skip(s.len() - p.len()) == p
}

/// Whether `s` starts with `p` (`str::starts_with` on a string pattern).
pub fn starts_with(s: &str, p: &str) -> (r: bool)
    ensures
        r == has_prefix(s@, p@),
{
    let vs = chars_of(s);
    let vp = chars_of(p);
    if vp.len() > vs.len() {
        return false;
    }
    let mut i: usize = 0;
    while i < vp.len()
        invariant
            vs@ == s@,
            vp@ == p@,
            vp@.len() <= vs@.len(),
            i <= vp@.len(),
            forall|k: int| 0 <= k < i ==> vs@[k] == vp@[k],
        decreases vp.len() - i,
    {
        if vs[i] != vp[i] {
            assert(s@.take(p@.len() as int)[i as int] != p@[i as int]);
            return false;
        }
        i = i + 1;
    }
    assert(s@.take(p@.len() as int) =~= p@);
    true
}

/// Whether `s` ends with `p` (`str::ends_with` on a string pattern).
pub fn ends_with(s: &str, p: &str) -> (r: bool)
    ensures
        r == has_suffix(s@, p@),
{
    let vs = chars_of(s);
    let vp = chars_of(p);
    if vp.len() > vs.len() {
        return false;
    }
    let off = vs.len() - vp.len();
    let mut i: usize = 0;
    while i < vp.len()
        invariant
            vs@ == s@,
            vp@ == p@,
            vp@.len() <= vs@.len(),
            off + vp@.len() == vs@.len(),
            i <= vp@.len(),
            forall|k: int| 0 <= k < i ==> vs@[off + k] == vp@[k],
        decreases vp.len() - i,
    {
        let k: usize = vs.len() - (vp.len() - i);
        assert(k == off + i);
        if vs[k] != vp[i] {
            assert(s@.skip(s@.len() - p@.len())[i as int] != p@[i as int]);
            return false;
        }
        i = i + 1;
    }
    assert(s@.skip(s@.len() - p@.len()) =~= p@);
    true
}

/// `s` without leading and trailing whitespace (`str::trim`).
pub fn trim(s: &str) -> (r: String)
    ensures
        r@ == trim_ws(s@),
{
    let v = chars_of(s);
    let n = v.len();
    let mut lo: usize = 0;
    assert(s@.skip(0) =~= s@);
    while lo < n && is_whitespace_char(v[lo])
        invariant
            v@ == s@,
            n == v@.len(),
            lo <= n,
            trim_start_ws(s@) == trim_start_ws(s@.skip(lo as int)),
        decreases n - lo,
    {
        assert(s@.skip(lo as int).drop_first() =~= s@.skip(lo + 1));
        lo = lo + 1;
    }
    assert(trim_start_ws(s@) == s@.skip(lo as int)) by {
        if lo < n {
            assert(s@.skip(lo as int)[0] == s@[lo as int]);
        }
    }
    let mut hi: usize = n;
    while hi > lo && is_whitespace_char(v[hi - 1])
        invariant
            v@ == s@,
            n == v@.len(),
            lo <= hi <= n,
            trim_ws(s@) == trim_end_ws(s@.subrange(lo as int, hi as int)),
        decreases hi - lo,
    {
        assert(s@.subrange(lo as int, hi as int).drop_last() =~= s@.subrange(
            lo as int,
            hi - 1,
        ));
        hi = hi - 1;
    }
    assert(s@.skip(lo as int) =~= s@.subrange(lo as int, n as int));
    string_from_chars(&v, lo, hi)
}

// ---------------------------------------------------------------------------
// Lowercase
// ---------------------------------------------------------------------------

/// What `str::to_lowercase` returns for a string with the given characters.
pub uninterp spec fn lowercase_of(s: Seq<char>) -> Seq<char>;

/// ASCII lowercase of one character.
pub open spec fn ascii_lower_char(c: char) -> char {
    if 'A' <= c <= 'Z' {
        ((c as u32) + 32) as char
    } else {
        c
    }
}

/// Whether every character is ASCII.
pub open spec fn all_ascii(s: Seq<char>) -> bool {
    forall|i: int| 0 <= i < s.len() ==> (#[trigger] s[i] as u32) < 128
}

/// `std::str::to_lowercase`: the Unicode lowercase of `s`.
///
/// Claimed of the std function: the result is a function of the characters
/// of `s` alone (`lowercase_of`), and on an all-ASCII string it maps
/// `A`..=`Z` to `a`..=`z` and keeps every other character (the Unicode
/// `Lowercase` mapping that its documentation names does so on ASCII; its
/// own example lowercases `"HELLO"`). What it does to other characters is
/// left unstated.
#[verifier::external_body]
pub(crate) fn to_lowercase(s: &str) -> (r: String)
    ensures
        r@ == lowercase_of(s@),
        all_ascii(s@) ==> r@ == s@.map_values(|c: char| ascii_lower_char(c)),
{
    s.to_lowercase()
}

// ---------------------------------------------------------------------------
// Decimal numbers
// ---------------------------------------------------------------------------

/// The decimal digit character for `d` (`0 <= d < 10`).
pub open spec fn digit_char(d: nat) -> char {
    (('0' as u32) + d) as char
}

/// Decimal digits of `n`, most significant first, without leading zeros
/// (`"0"` for zero).
pub open spec fn decimal_digits(n: nat) -> Seq<char>
    decreases n,
{
    if n < 10 {
        seq![digit_char(n)]
    } else {
        decimal_digits(n / 10).push(digit_char(n % 10))
    }
}

/// Decimal text of an integer as `Display` writes it: a `-` before the
/// digits of a negative number.
pub open spec fn decimal_text(n: int) -> Seq<char> {
    if n < 0 {
        seq!['-'] + decimal_digits((-n) as nat)
    } else {
        decimal_digits(n as nat)
    }
}

/// Whether `c` is an ASCII decimal digit.
pub open spec fn is_digit(c: char) -> bool {
    '0' <= c <= '9'
}

/// Whether every character of `s` is a decimal digit.
pub open spec fn all_digits(s: Seq<char>) -> bool {
    forall|i: int| 0 <= i < s.len() ==> is_digit(#[trigger] s[i])
}

/// The value of a digit character.
pub open spec fn digit_value(c: char) -> nat {
    ((c as u32) - ('0' as u32)) as nat
}

/// The number that a string of decimal digits denotes.
pub open spec fn digits_value(s: Seq<char>) -> nat
    decreases s.len(),
{
    if s.len() == 0 {
        0
    } else {
        digits_value(s.drop_last()) * 10 + digit_value(s.last())
    }
}

/// `u64::from_str`: an optional `+`, then one or more decimal digits whose
/// value fits in a `u64`.
pub open spec fn parse_u64_text(s: Seq<char>) -> Option<u64> {
    let body = if s.len() > 0 && s[0] == '+' {
        s.drop_first()
    } else {
        s
    };
    if body.len() > 0 && all_digits(body) && digits_value(body) <= u64::MAX {
        Some(digits_value(body) as u64)
    } else {
        None
    }
}

/// `i64::from_str`: an optional `+` or `-`, then one or more decimal digits
/// whose signed value fits in an `i64`.
pub open spec fn parse_i64_text(s: Seq<char>) -> Option<i64> {
    if s.len() > 0 && s[0] == '-' {
        let body = s.drop_first();
        if body.len() > 0 && all_digits(body) && digits_value(body) <= 0x8000_0000_0000_0000 {
            Some((-(digits_value(body) as int)) as i64)
        } else {
            None
        }
    } else {
        let body = if s.len() > 0 && s[0] == '+' {
            s.drop_first()
        } else {
            s
        };
        if body.len() > 0 && all_digits(body) && digits_value(body) <= i64::MAX {
            Some(digits_value(body) as i64)
        } else {
            None
        }
    }
}

/// Decimal digits are all digits, never empty, and denote their number.
pub proof fn lemma_decimal_digits(n: nat)
    ensures
        decimal_digits(n).len() > 0,
        all_digits(decimal_digits(n)),
        digits_value(decimal_digits(n)) == n,
        decimal_digits(n)[0] != '0' || n == 0,
    decreases n,
{
    if n >= 10 {
        lemma_decimal_digits(n / 10);
        let d = decimal_digits(n / 10);
        assert(d.push(digit_char(n % 10)).drop_last() =~= d);
        assert(d.push(digit_char(n % 10))[0] == d[0]);
        let t = d.push(digit_char(n % 10));
        assert(decimal_digits(n) == t);
        assert(digit_value(digit_char(n % 10)) == n % 10);
        assert(t.last() == digit_char(n % 10));
        assert(digits_value(t) == digits_value(d) * 10 + digit_value(digit_char(n % 10)));
        assert((n / 10) * 10 + n % 10 == n);
    } else {
        let t = seq![digit_char(n)];
        assert(decimal_digits(n) == t);
        assert(digit_value(digit_char(n)) == n);
        assert(t.drop_last() =~= Seq::<char>::empty());
        assert(digits_value(t) == digits_value(t.drop_last()) * 10 + digit_value(t.last()));
    }
}

/// A longer run of digits never denotes a smaller number than its prefix.
pub proof fn lemma_digits_value_prefix(s: Seq<char>, k: int)
    requires
        0 <= k <= s.len(),
        all_digits(s),
    ensures
        digits_value(s.take(k)) <= digits_value(s),
    decreases s.len(),
{
    if k < s.len() {
        assert(all_digits(s.drop_last()));
        lemma_digits_value_prefix(s.drop_last(), k);
        assert(s.drop_last().take(k) =~= s.take(k));
    } else {
        assert(s.take(k) =~= s);
    }
}

/// The decimal digits of `n`.
pub fn nat_to_decimal(n: u64) -> (r: String)
    ensures
        r@ == decimal_digits(n as nat),
{
    // Collect digits least significant first, then emit them in reverse.
    let mut rev: Vec<char> = Vec::new();
    let mut m: u64 = n;
    while m >= 10
        invariant
            m <= n,
            decimal_digits(n as nat) == decimal_digits(m as nat) + rev@.reverse(),
        decreases m,
    {
        let d = (m % 10) as u8;
        let c = (48u8 + d) as char;
        assert(c == digit_char((m % 10) as nat));
        let ghost old_rev = rev@;
        rev.push(c);
        assert(rev@.reverse() =~= seq![c] + old_rev.reverse());
        assert(decimal_digits(m as nat) == decimal_digits((m / 10) as nat).push(c));
        assert(decimal_digits(m as nat) + old_rev.reverse() =~= decimal_digits((m / 10) as nat)
            + rev@.reverse());
        m = m / 10;
    }
    let c = (48u8 + m as u8) as char;
    assert(c == digit_char(m as nat));
    let ghost old_rev = rev@;
    rev.push(c);
    assert(rev@.reverse() =~= seq![c] + old_rev.reverse());
    assert(decimal_digits(n as nat) =~= rev@.reverse());
    let mut r = String::new();
    let mut i: usize = rev.len();
    while i > 0
        invariant
            i <= rev@.len(),
            r@ == rev@.reverse().take(rev@.len() - i),
        decreases i,
    {
        i = i - 1;
        push_char(&mut r, rev[i]);
        assert(rev@.reverse().take(rev@.len() - i) =~= rev@.reverse().take(
            rev@.len() - i - 1,
        ).push(rev@[i as int]));
    }
    assert(rev@.reverse().take(rev@.len() as int) =~= rev@.reverse());
    r
}

/// Decimal text of a signed number, as `Display` for `i64` writes it.
pub fn int_to_decimal(n: i64) -> (r: String)
    ensures
        r@ == decimal_text(n as int),
{
    if n < 0 {
        let mag: u64 = if n == i64::MIN {
            0x8000_0000_0000_0000u64
        } else {
            (-n) as u64
        };
        let digits = nat_to_decimal(mag);
        let mut r = String::new();
        push_char(&mut r, '-');
        r.append(digits.as_str());
        assert(r@ =~= seq!['-'] + decimal_digits((-(n as int)) as nat));
        r
    } else {
        nat_to_decimal(n as u64)
    }
}

/// Accumulates a run of decimal digits, returning `None` once the value
/// exceeds `bound`.
fn digits_up_to(v: &Vec<char>, start: usize, bound: u64) -> (r: Option<u64>)
    requires
        start <= v@.len(),
    ensures
        ({
            let body = v@.skip(start as int);
            match r {
                Some(x) => all_digits(body) && digits_value(body) == x && x <= bound,
                None => !all_digits(body) || digits_value(body) > bound,
            }
        }),
{
    let ghost body = v@.skip(start as int);
    let mut acc: u64 = 0;
    let mut i: usize = start;
    while i < v.len()
        invariant
            start <= i <= v@.len(),
            body == v@.skip(start as int),
            all_digits(body.take(i - start)),
            digits_value(body.take(i - start)) == acc,
            acc <= bound,
        decreases v.len() - i,
    {
        let c = v[i];
        if !('0' <= c && c <= '9') {
            assert(body[i - start] == c);
            return None;
        }
        let d = (c as u32 - '0' as u32) as u64;
        assert(body.take(i - start + 1).drop_last() =~= body.take(i - start));
        assert(body.take(i - start + 1).last() == c);
        if acc > bound / 10 || (acc == bound / 10 && d > bound % 10) {
            proof {
                assert(all_digits(body.take(i - start + 1)));
                assert(digits_value(body.take(i - start + 1)) > bound);
                if all_digits(body) {
                    lemma_digits_value_prefix(body, i - start + 1);
                }
            }
            return None;
        }
        acc = acc * 10 + d;
        assert(all_digits(body.take(i - start + 1)));
        i = i + 1;
    }
    assert(body.take(i - start) =~= body);
    Some(acc)
}

/// `u64::from_str` on `s`.
pub fn parse_u64(s: &str) -> (r: Option<u64>)
    ensures
        r == parse_u64_text(s@),
{
    let v = chars_of(s);
    let start: usize = if v.len() > 0 && v[0] == '+' {
        1
    } else {
        0
    };
    assert(start == 1 ==> s@.drop_first() =~= v@.skip(1));
    assert(start == 0 ==> s@ =~= v@.skip(0));
    if start == v.len() {
        return None;
    }
    digits_up_to(&v, start, u64::MAX)
}

/// `i64::from_str` on `s`.
pub fn parse_i64(s: &str) -> (r: Option<i64>)
    ensures
        r == parse_i64_text(s@),
{
    let v = chars_of(s);
    if v.len() > 0 && v[0] == '-' {
        assert(s@.drop_first() =~= v@.skip(1));
        if v.len() == 1 {
            return None;
        }
        match digits_up_to(&v, 1, 0x8000_0000_0000_0000u64) {
            Some(x) => {
                if x == 0x8000_0000_0000_0000u64 {
                    Some(i64::MIN)
                } else {
                    Some(-(x as i64))
                }
            },
            None => None,
        }
    } else {
        let start: usize = if v.len() > 0 && v[0] == '+' {
            1
        } else {
            0
        };
        assert(start == 1 ==> s@.drop_first() =~= v@.skip(1));
        assert(start == 0 ==> s@ =~= v@.skip(0));
        if start == v.len() {
            return None;
        }
        match digits_up_to(&v, start, i64::MAX as u64) {
            Some(x) => Some(x as i64),
            None => None,
        }
    }
}

// ---------------------------------------------------------------------------
// Hexadecimal
// ---------------------------------------------------------------------------

/// Lowercase hex digit for `d` (`0 <= d < 16`).
pub open spec fn hex_digit(d: nat) -> char {
    if d < 10 {
        (('0' as u32) + d) as char
    } else {
        (('a' as u32) + d - 10) as char
    }
}

/// Lowercase hex text of a byte sequence, two digits per byte, high nibble
/// first (the `{:x}` form of a digest).
pub open spec fn lower_hex(bytes: Seq<u8>) -> Seq<char>
    decreases bytes.len(),
{
    if bytes.len() == 0 {
        Seq::empty()
    } else {
        lower_hex(bytes.drop_last()) + seq![
            hex_digit((bytes.last() / 16) as nat),
            hex_digit((bytes.last() % 16) as nat),
        ]
    }
}

fn hex_char(d: u8) -> (c: char)
    requires
        d < 16,
    ensures
        c == hex_digit(d as nat),
{
    if d < 10 {
        (48u8 + d) as char
    } else {
        (87u8 + d) as char
    }
}

/// Lowercase hex text of `bytes`.
pub fn to_lower_hex(bytes: &Vec<u8>) -> (r: String)
    ensures
        r@ == lower_hex(bytes@),
{
    let mut r = String::new();
    let mut i: usize = 0;
    while i < bytes.len()
        invariant
            i <= bytes@.len(),
            r@ == lower_hex(bytes@.take(i as int)),
        decreases bytes.len() - i,
    {
        let b = bytes[i];
        push_char(&mut r, hex_char(b / 16));
        push_char(&mut r, hex_char(b % 16));
        assert(bytes@.take(i + 1).drop_last() =~= bytes@.take(i as int));
        assert(r@ =~= lower_hex(bytes@.take(i + 1)));
        i = i + 1;
    }
    assert(bytes@.take(i as int) =~= bytes@);
    r
}

} // verus!
