//! Text as sequences of characters: the searches and rewrites that the
//! parser, the validator and the renderer are stated in.

use vstd::prelude::*;
use vstd::std_specs::iter::IteratorSpec;
use vstd::utf8::{decode_utf8, valid_utf8};

verus! {

/// The characters of a string, in order.
pub fn to_chars(s: &str) -> (v: Vec<char>)
    ensures
        v@ == s@,
{
    let mut v: Vec<char> = Vec::new();
    for c in it: s.chars()
        invariant
            it.seq() == s@,
            v@ == it.seq().take(it.index()),
    {
        v.push(c);
    }
    v
}

/// The string made of the given characters. Calls `String::from_iter`, of
/// which the contract claims that it keeps every character in its place.
#[verifier::external_body]
pub(crate) fn from_chars(v: &Vec<char>) -> (s: String)
    ensures
        s@ == v@,
{
    String::from_iter(v.iter())
}

/// Whether two runs of characters are the same.
pub fn chars_eq(a: &Vec<char>, b: &Vec<char>) -> (r: bool)
    ensures
        r == (a@ == b@),
{
    if a.len() != b.len() {
        return false;
    }
    let mut i: usize = 0;
    while i < a.len()
        invariant
            a.len() == b.len(),
            i <= a.len(),
            a@.take(i as int) == b@.take(i as int),
        decreases a.len() - i,
    {
        if a[i] != b[i] {
            assert(a@[i as int] != b@[i as int]);
            return false;
        }
        assert(a@.take(i + 1) == a@.take(i as int).push(a@[i as int]));
        assert(b@.take(i + 1) == b@.take(i as int).push(b@[i as int]));
        i += 1;
    }
    assert(a@.take(a.len() as int) == a@);
    assert(b@.take(b.len() as int) == b@);
    true
}

/// Whether `pat` stands in `s` at position `at`.
pub open spec fn occurs_at(s: Seq<char>, at: int, pat: Seq<char>) -> bool {
    0 <= at && at + pat.len() <= s.len() && s.subrange(at, at + pat.len()) == pat
}

/// Whether `pat` stands in `s` at position `at`.
pub fn matches_at(s: &Vec<char>, at: usize, pat: &Vec<char>) -> (r: bool)
    requires
        at <= s.len(),
    ensures
        r == occurs_at(s@, at as int, pat@),
{
    if pat.len() > s.len() - at {
        return false;
    }
    let mut k: usize = 0;
    while k < pat.len()
        invariant
            at + pat.len() <= s.len(),
            k <= pat.len(),
            s@.subrange(at as int, at + k) == pat@.take(k as int),
        decreases pat.len() - k,
    {
        if s[at + k] != pat[k] {
            assert(s@.subrange(at as int, at + pat.len())[k as int] != pat@[k as int]);
            return false;
        }
        assert(s@.subrange(at as int, at + k + 1) == s@.subrange(at as int, at + k).push(
            s@[at + k],
        ));
        assert(pat@.take(k + 1) == pat@.take(k as int).push(pat@[k as int]));
        k += 1;
    }
    assert(pat@.take(pat.len() as int) == pat@);
    true
}

/// Whether `s` begins with `pat`.
pub open spec fn has_prefix(s: Seq<char>, pat: Seq<char>) -> bool {
    occurs_at(s, 0, pat)
}

/// Whether `s` begins with `pat`.
pub fn starts_with(s: &Vec<char>, pat: &Vec<char>) -> (r: bool)
    ensures
        r == has_prefix(s@, pat@),
{
    matches_at(s, 0, pat)
}

/// Whether `s` is not empty and ends in `c`.
pub open spec fn has_last(s: Seq<char>, c: char) -> bool {
    s.len() > 0 && s.last() == c
}

/// Whether `s` is not empty and ends in `c`.
pub fn ends_with_char(s: &Vec<char>, c: char) -> (r: bool)
    ensures
        r == has_last(s@, c),
{
    s.len() > 0 && s[s.len() - 1] == c
}

/// Whether `c` occurs in `s`.
pub fn contains_char(s: &Vec<char>, c: char) -> (r: bool)
    ensures
        r == s@.contains(c),
{
    let mut i: usize = 0;
    while i < s.len()
        invariant
            i <= s.len(),
            forall|j: int| 0 <= j < i ==> s@[j] != c,
        decreases s.len() - i,
    {
        if s[i] == c {
            return true;
        }
        i += 1;
    }
    false
}

/// Appends the characters of `tail` to `out`.
pub fn push_all(out: &mut Vec<char>, tail: &Vec<char>)
    ensures
        final(out)@ == old(out)@ + tail@,
{
    let mut i: usize = 0;
    while i < tail.len()
        invariant
            i <= tail.len(),
            out@ == old(out)@ + tail@.take(i as int),
        decreases tail.len() - i,
    {
        out.push(tail[i]);
        assert(tail@.take(i + 1) == tail@.take(i as int).push(tail@[i as int]));
        i += 1;
    }
    assert(tail@.take(tail.len() as int) == tail@);
}

/// The characters of `s` from `from` up to `to`.
pub fn slice_chars(s: &Vec<char>, from: usize, to: usize) -> (r: Vec<char>)
    requires
        from <= to <= s.len(),
    ensures
        r@ == s@.subrange(from as int, to as int),
{
    let mut r: Vec<char> = Vec::new();
    let mut i: usize = from;
    while i < to
        invariant
            from <= i <= to <= s.len(),
            r@ == s@.subrange(from as int, i as int),
        decreases to - i,
    {
        r.push(s[i]);
        assert(s@.subrange(from as int, i + 1) == s@.subrange(from as int, i as int).push(
            s@[i as int],
        ));
        i += 1;
    }
    r
}

/// The character in lower case, where it is one of the letters `A` to `Z`;
/// any other character is kept.
pub open spec fn lower_char(c: char) -> char {
    if 'A' <= c && c <= 'Z' {
        ((c as u8) + 32) as char
    } else {
        c
    }
}

/// The character in lower case, where it is one of the letters `A` to `Z`.
pub fn to_lower_char(c: char) -> (r: char)
    ensures
        r == lower_char(c),
{
    if 'A' <= c && c <= 'Z' {
        ((c as u8) + 32) as char
    } else {
        c
    }
}

/// The text with each of the letters `A` to `Z` in lower case.
pub open spec fn lowered(s: Seq<char>) -> Seq<char> {
    s.map_values(|c: char| lower_char(c))
}

/// The text with each of the letters `A` to `Z` in lower case.
pub fn to_lowered(s: &Vec<char>) -> (r: Vec<char>)
    ensures
        r@ == lowered(s@),
{
    let mut r: Vec<char> = Vec::new();
    let mut i: usize = 0;
    while i < s.len()
        invariant
            i <= s.len(),
            r@ == lowered(s@.take(i as int)),
        decreases s.len() - i,
    {
        r.push(to_lower_char(s[i]));
        assert(lowered(s@.take(i + 1)) =~= lowered(s@.take(i as int)).push(lower_char(s@[i as int])));
        i += 1;
    }
    assert(s@.take(s.len() as int) == s@);
    r
}

/// Where the extension of a path begins: behind its last `.`, or at 0 where
/// the path has none.
pub open spec fn extension_start(path: Seq<char>) -> int
    decreases path.len(),
{
    if path.len() == 0 {
        0
    } else if path.last() == '.' {
        path.len() as int
    } else {
        extension_start(path.drop_last())
    }
}

/// The text behind the last `.` of a path; the whole path where it has none.
pub open spec fn extension(path: Seq<char>) -> Seq<char> {
    path.skip(extension_start(path))
}

/// The extension is the longest end of the path that holds no `.`.
pub proof fn lemma_extension(path: Seq<char>)
    ensures
        0 <= extension_start(path) <= path.len(),
        !extension(path).contains('.'),
        extension_start(path) == 0 || path[extension_start(path) - 1] == '.',
    decreases path.len(),
{
    if path.len() > 0 && path.last() != '.' {
        let shorter = path.drop_last();
        lemma_extension(shorter);
        let k = extension_start(path);
        assert forall|j: int| 0 <= j < extension(path).len() implies extension(path)[j] != '.' by {
            if k + j < shorter.len() {
                assert(extension(shorter)[j] == shorter[k + j]);
                assert(extension(shorter).contains(path[k + j]) || path[k + j] != '.');
            }
        }
    }
}

/// Where the extension of a path begins.
pub fn find_extension(path: &Vec<char>) -> (k: usize)
    ensures
        k == extension_start(path@),
{
    let mut k: usize = path.len();
    assert(path@.take(k as int) == path@);
    while k > 0 && path[k - 1] != '.'
        invariant
            k <= path.len(),
            extension_start(path@) == extension_start(path@.take(k as int)),
        decreases k,
    {
        assert(path@.take(k as int).drop_last() == path@.take(k - 1));
        k -= 1;
    }
    k
}

/// The extension of a path, in lower case.
pub fn lowered_extension(path: &str) -> (r: Vec<char>)
    ensures
        r@ == lowered(extension(path@)),
{
    let chars = to_chars(path);
    let start = find_extension(&chars);
    proof {
        lemma_extension(chars@);
        assert(chars@.subrange(start as int, chars.len() as int) == chars@.skip(start as int));
    }
    to_lowered(&slice_chars(&chars, start, chars.len()))
}

/// The text that the bytes encode in UTF-8. Calls `String::from_utf8`, of
/// which the contract claims what its documentation says: it succeeds on
/// exactly the byte strings that are valid UTF-8, and gives the text that
/// they encode. On failure it hands the error on as words.
#[verifier::external_body]
pub(crate) fn text_from_utf8(bytes: Vec<u8>) -> (r: Result<String, String>)
    ensures
        r is Ok <==> valid_utf8(bytes@),
        r matches Ok(text) ==> text@ == decode_utf8(bytes@),
{
    match String::from_utf8(bytes) {
        Ok(text) => Ok(text),
        Err(e) => Err(e.to_string()),
    }
}

/// Whether a character is white space, as Unicode defines it.
pub open spec fn is_space(c: char) -> bool {
    ||| '\u{9}' <= c <= '\u{d}'
    ||| c == ' '
    ||| c == '\u{85}'
    ||| c == '\u{a0}'
    ||| c == '\u{1680}'
    ||| '\u{2000}' <= c <= '\u{200a}'
    ||| c == '\u{2028}'
    ||| c == '\u{2029}'
    ||| c == '\u{202f}'
    ||| c == '\u{205f}'
    ||| c == '\u{3000}'
}

/// Whether a character is white space, as Unicode defines it.
pub fn is_whitespace(c: char) -> (r: bool)
    ensures
        r == is_space(c),
{
    ('\u{9}' <= c && c <= '\u{d}') || c == ' ' || c == '\u{85}' || c == '\u{a0}' || c
        == '\u{1680}' || ('\u{2000}' <= c && c <= '\u{200a}') || c == '\u{2028}' || c
        == '\u{2029}' || c == '\u{202f}' || c == '\u{205f}' || c == '\u{3000}'
}

/// The text without the white space it begins with.
pub open spec fn trim_start(s: Seq<char>) -> Seq<char>
    decreases s.len(),
{
    if s.len() > 0 && is_space(s[0]) {
        trim_start(s.drop_first())
    } else {
        s
    }
}

/// The text without the white space it ends with.
pub open spec fn trim_end(s: Seq<char>) -> Seq<char>
    decreases s.len(),
{
    if s.len() > 0 && is_space(s.last()) {
        trim_end(s.drop_last())
    } else {
        s
    }
}

/// The text without the white space at its two ends.
pub open spec fn trimmed(s: Seq<char>) -> Seq<char> {
    trim_end(trim_start(s))
}

/// The bounds of what is left of `s[from..to]` when the white space at its
/// two ends is taken away.
pub fn trim_range(s: &Vec<char>, from: usize, to: usize) -> (r: (usize, usize))
    requires
        from <= to <= s.len(),
    ensures
        from <= r.0 <= r.1 <= to,
        s@.subrange(r.0 as int, r.1 as int) == trimmed(s@.subrange(from as int, to as int)),
{
    let mut a: usize = from;
    while a < to && is_whitespace(s[a])
        invariant
            from <= a <= to <= s.len(),
            trim_start(s@.subrange(from as int, to as int)) == trim_start(
                s@.subrange(a as int, to as int),
            ),
        decreases to - a,
    {
        assert(s@.subrange(a as int, to as int).drop_first() == s@.subrange(a + 1, to as int));
        a += 1;
    }
    let mut b: usize = to;
    while b > a && is_whitespace(s[b - 1])
        invariant
            a <= b <= to <= s.len(),
            trim_end(s@.subrange(a as int, to as int)) == trim_end(
                s@.subrange(a as int, b as int),
            ),
        decreases b,
    {
        assert(s@.subrange(a as int, b as int).drop_last() == s@.subrange(a as int, b - 1));
        b -= 1;
    }
    (a, b)
}

/// The text in which every occurrence of `pat` is replaced by `with`. The
/// occurrences are taken from the left and do not overlap. An empty `pat`
/// occurs before every character and at the end.
pub open spec fn replaced(s: Seq<char>, pat: Seq<char>, with: Seq<char>) -> Seq<char>
    decreases s.len(),
{
    if pat.len() == 0 {
        if s.len() == 0 {
            with
        } else {
            with + seq![s[0]] + replaced(s.drop_first(), pat, with)
        }
    } else if s.len() < pat.len() {
        s
    } else if has_prefix(s, pat) {
        with + replaced(s.skip(pat.len() as int), pat, with)
    } else {
        seq![s[0]] + replaced(s.drop_first(), pat, with)
    }
}

/// Replaces every occurrence of `pat` in `s` by `with`.
pub fn replace_all(s: &Vec<char>, pat: &Vec<char>, with: &Vec<char>) -> (r: Vec<char>)
    ensures
        r@ == replaced(s@, pat@, with@),
{
    let n = s.len();
    let m = pat.len();
    let mut out: Vec<char> = Vec::new();
    let mut i: usize = 0;
    assert(s@.skip(0) == s@);
    while i < n
        invariant
            i <= n,
            n == s.len(),
            m == pat.len(),
            replaced(s@, pat@, with@) == out@ + replaced(s@.skip(i as int), pat@, with@),
        decreases n - i,
    {
        let ghost rest = s@.skip(i as int);
        let ghost before = out@;
        assert(rest.drop_first() == s@.skip(i + 1));
        assert(rest[0] == s@[i as int]);
        if m == 0 {
            push_all(&mut out, with);
            out.push(s[i]);
            assert(out@ + replaced(s@.skip(i + 1), pat@, with@) =~= before + (with@ + seq![
                s@[i as int],
            ] + replaced(s@.skip(i + 1), pat@, with@)));
            i += 1;
        } else if matches_at(s, i, pat) {
            assert(rest.subrange(0, m as int) == s@.subrange(i as int, i + m));
            assert(rest.skip(m as int) == s@.skip(i + m));
            push_all(&mut out, with);
            assert(out@ + replaced(s@.skip(i + m), pat@, with@) =~= before + (with@ + replaced(
                s@.skip(i + m),
                pat@,
                with@,
            )));
            i += m;
        } else {
            out.push(s[i]);
            proof {
                if rest.len() >= m {
                    assert(rest.subrange(0, m as int) == s@.subrange(i as int, i + m));
                } else {
                    lemma_replaced_short(rest, pat@, with@);
                    lemma_replaced_short(s@.skip(i + 1), pat@, with@);
                    assert(seq![s@[i as int]] + s@.skip(i + 1) =~= rest);
                }
            }
            assert(out@ + replaced(s@.skip(i + 1), pat@, with@) =~= before + (seq![s@[i as int]]
                + replaced(s@.skip(i + 1), pat@, with@)));
            i += 1;
        }
    }
    assert(s@.skip(n as int) =~= Seq::<char>::empty());
    if m == 0 {
        push_all(&mut out, with);
    } else {
        assert(out@ + Seq::<char>::empty() =~= out@);
    }
    out
}

/// A text that is shorter than a pattern holds no occurrence of it.
proof fn lemma_replaced_short(s: Seq<char>, pat: Seq<char>, with: Seq<char>)
    requires
        s.len() < pat.len(),
    ensures
        replaced(s, pat, with) == s,
{
}

} // verus!
