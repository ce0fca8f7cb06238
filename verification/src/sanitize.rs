//! Tag normalization and on-disk folder names.

use vstd::prelude::*;

use crate::text::{
    all_ascii, ascii_lower_char, chars_of, is_whitespace_char, is_ws, push_char, string_from_chars, lemma_trim_end_shape, lemma_trim_start_shape, lowercase_of,
    to_lowercase, trim, trim_end_ws, trim_start_ws, trim_ws,
};

verus! {

// ---------------------------------------------------------------------------
// normalize_tag
// ---------------------------------------------------------------------------

/// A tag as it is keyed everywhere: trimmed, then lowercased.
pub open spec fn normalized_tag(s: Seq<char>) -> Seq<char> {
    lowercase_of(trim_ws(s))
}

/// ASCII lowercase of every character.
pub open spec fn ascii_lower(s: Seq<char>) -> Seq<char> {
    s.map_values(|c: char| ascii_lower_char(c))
}

proof fn lemma_trim_keeps_ascii(s: Seq<char>)
    requires
        all_ascii(s),
    ensures
        all_ascii(trim_ws(s)),
{
    lemma_trim_start_shape(s);
    let a = trim_start_ws(s);
    lemma_trim_end_shape(a);
    assert forall|i: int| 0 <= i < trim_ws(s).len() implies (#[trigger] trim_ws(s)[i] as u32)
        < 128 by {
        assert(trim_ws(s)[i] == a[i]);
        assert(a[i] == s[s.len() - a.len() + i]);
    }
}

/// Tags are normalized to trimmed lowercase, so that `Foo` and `foo` are
/// treated as the same subscription.
pub fn normalize_tag(input: &str) -> (r: String)
    ensures
        r@ == normalized_tag(input@),
        all_ascii(input@) ==> r@ == ascii_lower(trim_ws(input@)),
{
    let t = trim(input);
    proof {
        if all_ascii(input@) {
            lemma_trim_keeps_ascii(input@);
        }
    }
    to_lowercase(t.as_str())
}

/// The normalized form of an ASCII tag, as `normalize_tag` produces it.
pub open spec fn ascii_normalized_tag(s: Seq<char>) -> Seq<char> {
    ascii_lower(trim_ws(s))
}

/// Normalizing an already normalized ASCII tag changes nothing: with the
/// `ensures` of `normalize_tag`, `normalize_tag(normalize_tag(t)) ==
/// normalize_tag(t)` for every ASCII tag `t`.
pub proof fn law_normalize_idempotent(s: Seq<char>)
    requires
        all_ascii(s),
    ensures
        all_ascii(ascii_normalized_tag(s)),
        ascii_normalized_tag(ascii_normalized_tag(s)) == ascii_normalized_tag(s),
{
    let t = trim_ws(s);
    lemma_trim_keeps_ascii(s);
    lemma_trim_start_shape(s);
    lemma_trim_end_shape(trim_start_ws(s));
    let n = ascii_lower(t);
    assert(all_ascii(n)) by {
        assert forall|i: int| 0 <= i < n.len() implies (#[trigger] n[i] as u32) < 128 by {
            assert((t[i] as u32) < 128);
        }
    }
    if n.len() > 0 {
        assert(!is_ws(t[0]));
        assert(!is_ws(t.last()));
        assert(!is_ws(n[0]));
        assert(!is_ws(n.last()));
        assert(trim_start_ws(n) == n);
        assert(trim_end_ws(n) == n);
    } else {
        assert(trim_start_ws(n) == n);
        assert(trim_end_ws(n) == n);
    }
    assert(ascii_lower(n) =~= n);
}

// ---------------------------------------------------------------------------
// safe_folder_segment
// ---------------------------------------------------------------------------

/// Unicode control characters (general category `Cc`, `char::is_control`):
/// U+0000..=U+001F and U+007F..=U+009F.
pub open spec fn is_control_char(c: char) -> bool {
    (c as u32) < 0x20 || (0x7f <= (c as u32) && (c as u32) <= 0x9f)
}

/// Characters that Windows does not accept in a file name, and control
/// characters.
pub open spec fn is_unsafe_char(c: char) -> bool {
    ||| c == '<'
    ||| c == '>'
    ||| c == ':'
    ||| c == '"'
    ||| c == '/'
    ||| c == '\\'
    ||| c == '|'
    ||| c == '?'
    ||| c == '*'
    ||| is_control_char(c)
}

/// Rule 1 and 2: unsafe characters and whitespace become `_`.
pub open spec fn replace_unsafe(c: char) -> char {
    if is_unsafe_char(c) || is_ws(c) {
        '_'
    } else {
        c
    }
}

/// Rule 3: every run of `_` collapsed into a single `_`.
pub open spec fn collapse_underscores(s: Seq<char>) -> Seq<char>
    decreases s.len(),
{
    if s.len() == 0 {
        s
    } else if s.len() >= 2 && s.last() == '_' && s[s.len() - 2] == '_' {
        collapse_underscores(s.drop_last())
    } else {
        collapse_underscores(s.drop_last()).push(s.last())
    }
}

/// The characters stripped from both ends of a folder name.
pub open spec fn is_edge_char(c: char) -> bool {
    c == '.' || c == '_'
}

/// `s` without leading `.` and `_`.
pub open spec fn strip_start_edges(s: Seq<char>) -> Seq<char>
    decreases s.len(),
{
    if s.len() > 0 && is_edge_char(s[0]) {
        strip_start_edges(s.drop_first())
    } else {
        s
    }
}

/// `s` without trailing `.` and `_`.
pub open spec fn strip_end_edges(s: Seq<char>) -> Seq<char>
    decreases s.len(),
{
    if s.len() > 0 && is_edge_char(s.last()) {
        strip_end_edges(s.drop_last())
    } else {
        s
    }
}

/// Rule 4: `s` without leading and trailing `.` and `_`.
pub open spec fn strip_edges(s: Seq<char>) -> Seq<char> {
    strip_end_edges(strip_start_edges(s))
}

/// The longest folder segment, in characters.
pub open spec fn max_segment_len() -> nat {
    120
}

/// The folder segment for a tag: replace, collapse, strip, truncate to 120
/// characters, and `_` for an empty result.
pub open spec fn safe_segment(tag: Seq<char>) -> Seq<char> {
    let t = strip_edges(collapse_underscores(tag.map_values(|c: char| replace_unsafe(c))));
    let u = if t.len() > max_segment_len() {
        t.take(max_segment_len() as int)
    } else {
        t
    };
    if u.len() == 0 {
        seq!['_']
    } else {
        u
    }
}

/// Whether a character may stand in a folder segment.
pub open spec fn segment_char_ok(c: char) -> bool {
    !is_unsafe_char(c) && !is_ws(c)
}

/// Whether `s` holds two `_` in a row.
pub open spec fn has_double_underscore(s: Seq<char>) -> bool {
    exists|i: int| 0 <= i < s.len() - 1 && s[i] == '_' && #[trigger] s[i + 1] == '_'
}

proof fn lemma_collapse_last(t: Seq<char>)
    ensures
        collapse_underscores(t).len() <= t.len(),
        t.len() > 0 ==> collapse_underscores(t).len() > 0 && collapse_underscores(t).last()
            == t.last(),
    decreases t.len(),
{
    if t.len() > 0 {
        lemma_collapse_last(t.drop_last());
    }
}

proof fn lemma_collapse_push(t: Seq<char>, x: char)
    ensures
        collapse_underscores(t.push(x)) == if x == '_' && t.len() > 0 && collapse_underscores(
            t,
        ).last() == '_' {
            collapse_underscores(t)
        } else {
            collapse_underscores(t).push(x)
        },
{
    lemma_collapse_last(t);
    let s = t.push(x);
    assert(s.drop_last() =~= t);
    assert(s.last() == x);
    if t.len() > 0 {
        assert(s[s.len() - 2] == t.last());
    }
}

proof fn lemma_collapse_props(t: Seq<char>)
    requires
        forall|i: int| 0 <= i < t.len() ==> segment_char_ok(#[trigger] t[i]),
    ensures
        forall|i: int|
            0 <= i < collapse_underscores(t).len() ==> segment_char_ok(
                #[trigger] collapse_underscores(t)[i],
            ),
        !has_double_underscore(collapse_underscores(t)),
    decreases t.len(),
{
    if t.len() > 0 {
        let p = t.drop_last();
        lemma_collapse_props(p);
        lemma_collapse_push(p, t.last());
        lemma_collapse_last(p);
        assert(p.push(t.last()) =~= t);
        let c = collapse_underscores(p);
        if !(t.last() == '_' && p.len() > 0 && c.last() == '_') {
            let d = c.push(t.last());
            assert forall|i: int| 0 <= i < d.len() implies segment_char_ok(#[trigger] d[i]) by {
                if i < c.len() {
                    assert(d[i] == c[i]);
                }
            }
            assert(!has_double_underscore(d)) by {
                if has_double_underscore(d) {
                    let i = choose|i: int|
                        0 <= i < d.len() - 1 && d[i] == '_' && #[trigger] d[i + 1] == '_';
                    if i + 1 < c.len() {
                        assert(c[i] == '_' && c[i + 1] == '_');
                    } else {
                        assert(i == c.len() - 1);
                        assert(p.len() > 0);
                    }
                }
            }
        }
    }
}

proof fn lemma_collapse_identity(t: Seq<char>)
    requires
        !has_double_underscore(t),
    ensures
        collapse_underscores(t) == t,
    decreases t.len(),
{
    if t.len() > 0 {
        let p = t.drop_last();
        assert(!has_double_underscore(p)) by {
            if has_double_underscore(p) {
                let i = choose|i: int|
                    0 <= i < p.len() - 1 && p[i] == '_' && #[trigger] p[i + 1] == '_';
                assert(t[i] == '_' && t[i + 1] == '_');
            }
        }
        lemma_collapse_identity(p);
        lemma_collapse_push(p, t.last());
        lemma_collapse_last(p);
        assert(p.push(t.last()) =~= t);
        if t.last() == '_' && p.len() > 0 {
            assert(t[t.len() - 2] == p.last());
            if p.last() == '_' {
                let k = t.len() - 2;
                assert(0 <= k < t.len() - 1 && t[k] == '_' && t[k + 1] == '_');
                assert(has_double_underscore(t));
            }
        }
    }
}

proof fn lemma_strip_start_shape(s: Seq<char>)
    ensures
        strip_start_edges(s).len() <= s.len(),
        strip_start_edges(s) == s.skip(s.len() - strip_start_edges(s).len()),
        strip_start_edges(s).len() > 0 ==> !is_edge_char(strip_start_edges(s)[0]),
    decreases s.len(),
{
    if s.len() > 0 && is_edge_char(s[0]) {
        lemma_strip_start_shape(s.drop_first());
        let t = strip_start_edges(s.drop_first());
        assert(s.drop_first().skip(s.drop_first().len() - t.len()) =~= s.skip(s.len() - t.len()));
    } else {
        assert(s.skip(0) =~= s);
    }
}

proof fn lemma_strip_end_shape(s: Seq<char>)
    ensures
        strip_end_edges(s).len() <= s.len(),
        strip_end_edges(s) == s.take(strip_end_edges(s).len() as int),
        strip_end_edges(s).len() > 0 ==> !is_edge_char(strip_end_edges(s).last()),
    decreases s.len(),
{
    if s.len() > 0 && is_edge_char(s.last()) {
        lemma_strip_end_shape(s.drop_last());
        let t = strip_end_edges(s.drop_last());
        assert(s.drop_last().take(t.len() as int) =~= s.take(t.len() as int));
    } else {
        assert(s.take(s.len() as int) =~= s);
    }
}

/// A contiguous piece of a sequence keeps the per-character and the
/// no-double-underscore properties.
proof fn lemma_piece_props(s: Seq<char>, lo: int, hi: int)
    requires
        0 <= lo <= hi <= s.len(),
        forall|i: int| 0 <= i < s.len() ==> segment_char_ok(#[trigger] s[i]),
        !has_double_underscore(s),
    ensures
        forall|i: int|
            0 <= i < s.subrange(lo, hi).len() ==> segment_char_ok(#[trigger] s.subrange(lo, hi)[i]),
        !has_double_underscore(s.subrange(lo, hi)),
{
    let p = s.subrange(lo, hi);
    assert forall|i: int| 0 <= i < p.len() implies segment_char_ok(#[trigger] p[i]) by {
        assert(p[i] == s[lo + i]);
    }
    if has_double_underscore(p) {
        let i = choose|i: int| 0 <= i < p.len() - 1 && p[i] == '_' && #[trigger] p[i + 1] == '_';
        assert(s[lo + i] == '_' && s[lo + i + 1] == '_');
    }
}

/// What every folder segment satisfies: one to 120 characters, none of
/// them unsafe or whitespace, no `__`, not starting with `.` or `_` unless
/// it is the fallback `_`, and not ending with one unless it was truncated.
pub proof fn lemma_safe_segment_props(tag: Seq<char>)
    ensures
        1 <= safe_segment(tag).len() <= max_segment_len(),
        forall|i: int|
            0 <= i < safe_segment(tag).len() ==> segment_char_ok(#[trigger] safe_segment(tag)[i]),
        !has_double_underscore(safe_segment(tag)),
        safe_segment(tag) == seq!['_'] || !is_edge_char(safe_segment(tag)[0]),
        safe_segment(tag) == seq!['_'] || safe_segment(tag).len() == max_segment_len()
            || !is_edge_char(safe_segment(tag).last()),
{
    let m = tag.map_values(|c: char| replace_unsafe(c));
    assert forall|i: int| 0 <= i < m.len() implies segment_char_ok(#[trigger] m[i]) by {
        assert(m[i] == replace_unsafe(tag[i]));
    }
    lemma_collapse_props(m);
    let c = collapse_underscores(m);
    lemma_strip_start_shape(c);
    let a = strip_start_edges(c);
    lemma_strip_end_shape(a);
    let t = strip_end_edges(a);
    assert(a == c.subrange(c.len() - a.len(), c.len() as int));
    lemma_piece_props(c, c.len() - a.len(), c.len() as int);
    assert(t == a.subrange(0, t.len() as int));
    lemma_piece_props(a, 0, t.len() as int);
    if t.len() > max_segment_len() {
        lemma_piece_props(t, 0, max_segment_len() as int);
        assert(t.take(max_segment_len() as int) == t.subrange(0, max_segment_len() as int));
        assert(t[0] == a[0]);
    } else if t.len() > 0 {
        assert(t[0] == a[0]);
    } else {
        let f = seq!['_'];
        assert(!has_double_underscore(f));
        assert(segment_char_ok(f[0]));
    }
}

/// Sanitizing a folder segment again leaves it as it is, except where
/// truncation to 120 characters left a trailing `.` or `_`.
pub proof fn law_safe_segment_idempotent(tag: Seq<char>)
    requires
        !(safe_segment(tag).len() == max_segment_len() && is_edge_char(safe_segment(tag).last())),
    ensures
        safe_segment(safe_segment(tag)) == safe_segment(tag),
{
    let r = safe_segment(tag);
    lemma_safe_segment_props(tag);
    let m = r.map_values(|c: char| replace_unsafe(c));
    assert(m =~= r) by {
        assert forall|i: int| 0 <= i < r.len() implies m[i] == r[i] by {
            assert(segment_char_ok(r[i]));
        }
    }
    lemma_collapse_identity(r);
    if r == seq!['_'] {
        assert(strip_start_edges(r) == strip_start_edges(r.drop_first()));
        assert(r.drop_first() =~= Seq::<char>::empty());
    } else {
        assert(strip_start_edges(r) == r);
        assert(strip_end_edges(r) == r);
    }
}

/// Whether `c` is unsafe in a file name (see `is_unsafe_char`).
fn unsafe_char(c: char) -> (r: bool)
    ensures
        r == is_unsafe_char(c),
{
    c == '<' || c == '>' || c == ':' || c == '"' || c == '/' || c == '\\' || c == '|' || c == '?'
        || c == '*' || (c as u32) < 0x20 || ('\u{7f}' <= c && c <= '\u{9f}')
}

/// Convert a tag to a cross-platform-safe folder segment.
///
/// 1. Replace Windows-unsafe `< > : " / \ | ? *` and control chars with `_`.
/// 2. Replace any whitespace with `_`.
/// 3. Collapse runs of `_` into a single `_`.
/// 4. Strip leading/trailing `.` and `_`.
/// 5. Truncate to 120 unicode code points.
/// 6. Empty result falls back to `_`.
pub fn safe_folder_segment(tag: &str) -> (r: String)
    ensures
        r@ == safe_segment(tag@),
        1 <= r@.len() <= max_segment_len(),
        forall|i: int| 0 <= i < r@.len() ==> segment_char_ok(#[trigger] r@[i]),
        !has_double_underscore(r@),
        r@ == seq!['_'] || !is_edge_char(r@[0]),
{
    let v = chars_of(tag);
    let ghost m = tag@.map_values(|c: char| replace_unsafe(c));
    // Rules 1-3 in one pass.
    let mut out: Vec<char> = Vec::new();
    let mut i: usize = 0;
    while i < v.len()
        invariant
            v@ == tag@,
            m == tag@.map_values(|c: char| replace_unsafe(c)),
            i <= v@.len(),
            out@ == collapse_underscores(m.take(i as int)),
            i > 0 ==> out@.len() > 0 && out@.last() == m[i - 1],
        decreases v.len() - i,
    {
        let c = v[i];
        let mc = if unsafe_char(c) || is_whitespace_char(c) {
            '_'
        } else {
            c
        };
        assert(mc == m[i as int]);
        proof {
            lemma_collapse_push(m.take(i as int), mc);
            assert(m.take(i + 1) =~= m.take(i as int).push(mc));
            lemma_collapse_last(m.take(i as int));
        }
        let n = out.len();
        if !(mc == '_' && n > 0 && out[n - 1] == '_') {
            out.push(mc);
        }
        proof {
            lemma_collapse_last(m.take(i + 1));
        }
        i = i + 1;
    }
    assert(m.take(v@.len() as int) =~= m);
    // Rule 4.
    let n = out.len();
    let mut lo: usize = 0;
    assert(out@.skip(0) =~= out@);
    while lo < n && (out[lo] == '.' || out[lo] == '_')
        invariant
            n == out@.len(),
            lo <= n,
            strip_start_edges(out@) == strip_start_edges(out@.skip(lo as int)),
        decreases n - lo,
    {
        assert(out@.skip(lo as int).drop_first() =~= out@.skip(lo + 1));
        lo = lo + 1;
    }
    assert(strip_start_edges(out@) == out@.skip(lo as int)) by {
        if lo < n {
            assert(out@.skip(lo as int)[0] == out@[lo as int]);
        }
    }
    assert(out@.skip(lo as int) =~= out@.subrange(lo as int, n as int));
    let mut hi: usize = n;
    while hi > lo && (out[hi - 1] == '.' || out[hi - 1] == '_')
        invariant
            n == out@.len(),
            lo <= hi <= n,
            strip_edges(out@) == strip_end_edges(out@.subrange(lo as int, hi as int)),
        decreases hi - lo,
    {
        assert(out@.subrange(lo as int, hi as int).drop_last() =~= out@.subrange(
            lo as int,
            hi - 1,
        ));
        hi = hi - 1;
    }
    // Rule 5 and 6.
    let end: usize = if hi - lo > 120 {
        lo + 120
    } else {
        hi
    };
    proof {
        let t = out@.subrange(lo as int, hi as int);
        assert(strip_edges(out@) == t);
        if hi - lo > 120 {
            assert(t.take(120) =~= out@.subrange(lo as int, end as int));
        }
        lemma_safe_segment_props(tag@);
    }
    if end == lo {
        let mut r = String::new();
        push_char(&mut r, '_');
        assert(r@ =~= seq!['_']);
        r
    } else {
        string_from_chars(&out, lo, end)
    }
}

} // verus!
