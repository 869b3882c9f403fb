//! Character-level text handling used by the shader preprocessor:
//! Unicode whitespace, trimming and splitting into lines.

use vstd::prelude::*;

verus! {

/// Unicode `White_Space` characters, the set that `char::is_whitespace` accepts.
pub open spec fn is_space(c: char) -> bool {
    ||| ('\u{9}' <= c && c <= '\u{d}')
    ||| c == ' '
    ||| c == '\u{85}'
    ||| c == '\u{a0}'
    ||| c == '\u{1680}'
    ||| ('\u{2000}' <= c && c <= '\u{200a}')
    ||| c == '\u{2028}'
    ||| c == '\u{2029}'
    ||| c == '\u{202f}'
    ||| c == '\u{205f}'
    ||| c == '\u{3000}'
}

/// Whether `c` is Unicode whitespace.
pub fn is_space_char(c: char) -> (r: bool)
    ensures
        r == is_space(c),
{
    ('\u{9}' <= c && c <= '\u{d}') || c == ' ' || c == '\u{85}' || c == '\u{a0}' || c == '\u{1680}'
        || ('\u{2000}' <= c && c <= '\u{200a}') || c == '\u{2028}' || c == '\u{2029}' || c
        == '\u{202f}' || c == '\u{205f}' || c == '\u{3000}'
}


/// Number of whitespace characters at the start of `s`.
pub open spec fn leading_spaces(s: Seq<char>) -> nat
    decreases s.len(),
{
    if s.len() > 0 && is_space(s[0]) {
        1 + leading_spaces(s.drop_first())
    } else {
        0
    }
}

/// Number of whitespace characters at the end of `s`.
pub open spec fn trailing_spaces(s: Seq<char>) -> nat
    decreases s.len(),
{
    if s.len() > 0 && is_space(s.last()) {
        1 + trailing_spaces(s.drop_last())
    } else {
        0
    }
}

/// `s` without its leading and trailing whitespace, as `str::trim` gives it.
pub open spec fn trim(s: Seq<char>) -> Seq<char> {
    let rest = s.skip(leading_spaces(s) as int);
    rest.take(rest.len() - trailing_spaces(rest))
}

/// The leading whitespace run ends exactly at the first non-space character.
pub proof fn lemma_leading_spaces(s: Seq<char>, a: int)
    requires
        0 <= a <= s.len(),
        forall|j: int| 0 <= j < a ==> is_space(#[trigger] s[j]),
        a == s.len() || !is_space(s[a]),
    ensures
        leading_spaces(s) == a,
    decreases a,
{
    if a > 0 {
        assert(is_space(s[0]));
        lemma_leading_spaces(s.drop_first(), a - 1);
    }
}

/// The trailing whitespace run starts just after the last non-space character.
pub proof fn lemma_trailing_spaces(s: Seq<char>, b: int)
    requires
        0 <= b <= s.len(),
        forall|j: int| b <= j < s.len() ==> is_space(#[trigger] s[j]),
        b == 0 || !is_space(s[b - 1]),
    ensures
        trailing_spaces(s) == s.len() - b,
    decreases s.len() - b,
{
    if b < s.len() {
        assert(is_space(s.last()));
        lemma_trailing_spaces(s.drop_last(), b);
    }
}

/// The bounds of `trim(s)` inside `s`.
pub fn trim_bounds(s: &[char]) -> (r: (usize, usize))
    ensures
        r.0 == leading_spaces(s@),
        r.0 <= r.1 <= s@.len(),
        s@.subrange(r.0 as int, r.1 as int) == trim(s@),
{
    let n = s.len();
    let mut a: usize = 0;
    while a < n && is_space_char(s[a])
        invariant
            a <= n == s@.len(),
            forall|j: int| 0 <= j < a ==> is_space(#[trigger] s@[j]),
        decreases n - a,
    {
        a = a + 1;
    }
    proof {
        lemma_leading_spaces(s@, a as int);
    }
    let mut b: usize = n;
    while b > a && is_space_char(s[b - 1])
        invariant
            a <= b <= n == s@.len(),
            forall|j: int| b <= j < n ==> is_space(#[trigger] s@[j]),
        decreases b,
    {
        b = b - 1;
    }
    let ghost rest = s@.skip(a as int);
    proof {
        assert forall|j: int| b - a <= j < rest.len() implies is_space(#[trigger] rest[j]) by {
            assert(rest[j] == s@[j + a]);
        }
        if b > a {
            assert(rest[b - a - 1] == s@[b - 1]);
        }
        lemma_trailing_spaces(rest, b - a);
    }
    assert(s@.subrange(a as int, b as int) =~= trim(s@));
    (a, b)
}

/// `l` without a final carriage return.
pub open spec fn without_cr(l: Seq<char>) -> Seq<char> {
    if l.len() > 0 && l.last() == '\r' {
        l.drop_last()
    } else {
        l
    }
}

/// Scanning `t` from the start: the lines finished so far and the line in progress.
/// A `'\n'` finishes the line in progress, without a `'\r'` that precedes it.
pub open spec fn scan_lines(t: Seq<char>) -> (Seq<Seq<char>>, Seq<char>)
    decreases t.len(),
{
    if t.len() == 0 {
        (seq![], seq![])
    } else {
        let (done, cur) = scan_lines(t.drop_last());
        if t.last() == '\n' {
            (done.push(without_cr(cur)), seq![])
        } else {
            (done, cur.push(t.last()))
        }
    }
}

/// The lines of `t`, as `str::lines` yields them: split at `"\n"` or `"\r\n"`,
/// with a final line ending optional.
pub open spec fn lines_of(t: Seq<char>) -> Seq<Seq<char>> {
    let (done, cur) = scan_lines(t);
    if cur.len() > 0 {
        done.push(cur)
    } else {
        done
    }
}

/// The characters of `s`, in order.
pub fn chars_of(s: &str) -> (r: Vec<char>)
    ensures
        r@ == s@,
{
    let mut out: Vec<char> = Vec::new();
    for c in it: s.chars()
        invariant
            out@ == it.seq().take(it.index()),
    {
        out.push(c);
    }
    out
}


/// The lines of `t`, each as its characters.
pub fn split_lines(t: &[char]) -> (r: Vec<Vec<char>>)
    ensures
        r.deep_view() == lines_of(t@),
{
    let mut done: Vec<Vec<char>> = Vec::new();
    let mut cur: Vec<char> = Vec::new();
    let n = t.len();
    let mut i: usize = 0;
    while i < n
        invariant
            i <= n == t@.len(),
            (done.deep_view(), cur@) == scan_lines(t@.take(i as int)),
        decreases n - i,
    {
        let c = t[i];
        assert(t@.take(i + 1).drop_last() =~= t@.take(i as int));
        if c == '\n' {
            let ghost before = cur@;
            let len = cur.len();
            if len > 0 && cur[len - 1] == '\r' {
                cur.pop();
            }
            assert(cur@ == without_cr(before));
            let ghost old_done = done.deep_view();
            let ghost line = cur.deep_view();
        assert(line =~= cur@);
            done.push(cur);
            cur = Vec::new();
            assert(done.deep_view() =~= old_done.push(line));
        } else {
            cur.push(c);
        }
        i = i + 1;
    }
    assert(t@.take(n as int) =~= t@);
    if cur.len() > 0 {
        let ghost old_done = done.deep_view();
        let ghost line = cur.deep_view();
        assert(line =~= cur@);
        done.push(cur);
        assert(done.deep_view() =~= old_done.push(line));
    }
    done
}


/// Calls `String::push`, which appends one character.
#[verifier::external_body]
pub(crate) fn push_char(s: &mut String, c: char)
    ensures
        final(s)@ == old(s)@.push(c),
{
    s.push(c)
}

/// Appends `t[from..to]` to `out`.
pub fn push_chars(out: &mut String, t: &[char], from: usize, to: usize)
    requires
        from <= to <= t@.len(),
    ensures
        final(out)@ == old(out)@ + t@.subrange(from as int, to as int),
{
    let mut i = from;
    while i < to
        invariant
            from <= i <= to <= t@.len(),
            out@ == old(out)@ + t@.subrange(from as int, i as int),
        decreases to - i,
    {
        push_char(out, t[i]);
        assert(t@.subrange(from as int, i + 1) =~= t@.subrange(from as int, i as int).push(t@[i as int]));
        i = i + 1;
    }
}

} // verus!
