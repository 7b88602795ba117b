//! Character-level helpers: UTF-8 lengths, whitespace trimming, joining.

use vstd::prelude::*;
use vstd::string::StringExecFns;

verus! {

/// Number of bytes that the UTF-8 encoding of `chars` takes (what `str::len` reports).
pub open spec fn utf8_len(chars: Seq<char>) -> nat {
    vstd::utf8::encode_utf8(chars).len()
}

/// Bytes in the UTF-8 encoding of a text, as `str::len` returns it.
pub open spec fn byte_len(s: Seq<char>) -> usize {
    utf8_len(s) as usize
}

/// Appends one character to a string (`String::push`).
#[verifier::external_body]
pub(crate) fn push_char(s: &mut String, c: char)
    ensures
        final(s)@ == old(s)@.push(c),
{
    s.push(c);
}

/// The characters of `s`, in order.
pub fn chars_of(s: &str) -> (r: Vec<char>)
    ensures
        r@ == s@,
{
    let mut out: Vec<char> = Vec::new();
    for c in it: s.chars()
        invariant
            out@ == it.seq().take(it.index() as int),
            it.seq() == s@,
    {
        out.push(c);
    }
    out
}

/// Appends the characters `cs[from..to]` to `out`.
pub fn push_chars(out: &mut String, cs: &Vec<char>, from: usize, to: usize)
    requires
        from <= to <= cs.len(),
    ensures
        final(out)@ == old(out)@ + cs@.subrange(from as int, to as int),
{
    let ghost start = out@;
    let mut i = from;
    while i < to
        invariant
            from <= i <= to <= cs.len(),
            out@ == start + cs@.subrange(from as int, i as int),
        decreases to - i,
    {
        push_char(out, cs[i]);
        assert(cs@.subrange(from as int, i + 1) == cs@.subrange(from as int, i as int).push(
            cs@[i as int],
        ));
        i = i + 1;
    }
}

/// Copies a string slice into an owned string.
pub fn owned(s: &str) -> (r: String)
    ensures
        r@ == s@,
{
    String::from_str(s)
}

/// Concatenation `a + b + c` as a new string.
pub fn concat3(a: &str, b: &str, c: &str) -> (r: String)
    ensures
        r@ == a@ + b@ + c@,
{
    let mut out = String::from_str(a);
    out.append(b);
    out.append(c);
    out
}

/// Unicode `White_Space`: the characters that `char::is_whitespace` accepts.
pub open spec fn is_white_space(c: char) -> bool {
    ||| ('\u{9}' <= c && c <= '\u{d}')
    ||| c == ' '
    ||| c == '\u{85}'
    ||| c == '\u{a0}'
    ||| c == '\u{1680}'
    ||| ('\u{2000}' <= c && c <= '\u{200a}')
    ||| c == '\u{2028}'
    ||| c == '\u{2029}'
    ||| c == '\u{202f}'
    ||| c == '\u{205f}'
    ||| c == '\u{3000}'
}

/// Executable test for [`is_white_space`].
pub fn white_space(c: char) -> (r: bool)
    ensures
        r == is_white_space(c),
{
    ('\u{9}' <= c && c <= '\u{d}') || c == ' ' || c == '\u{85}' || c == '\u{a0}' || c
        == '\u{1680}' || ('\u{2000}' <= c && c <= '\u{200a}') || c == '\u{2028}' || c
        == '\u{2029}' || c == '\u{202f}' || c == '\u{205f}' || c == '\u{3000}'
}

/// Number of white-space characters at the start of `s`.
pub open spec fn leading_ws(s: Seq<char>) -> nat
    decreases s.len(),
{
    if s.len() > 0 && is_white_space(s[0]) {
        1 + leading_ws(s.drop_first())
    } else {
        0
    }
}

/// Number of white-space characters at the end of `s`.
pub open spec fn trailing_ws(s: Seq<char>) -> nat
    decreases s.len(),
{
    if s.len() > 0 && is_white_space(s.last()) {
        1 + trailing_ws(s.drop_last())
    } else {
        0
    }
}

/// `s` without leading and trailing white space (what `str::trim` returns).
pub open spec fn trim(s: Seq<char>) -> Seq<char> {
    let rest = s.skip(leading_ws(s) as int);
    rest.take(rest.len() - trailing_ws(rest))
}

pub proof fn lemma_leading_ws(s: Seq<char>)
    ensures
        leading_ws(s) <= s.len(),
        forall|i: int| 0 <= i < leading_ws(s) ==> is_white_space(#[trigger] s[i]),
        leading_ws(s) < s.len() ==> !is_white_space(s[leading_ws(s) as int]),
    decreases s.len(),
{
    if s.len() > 0 && is_white_space(s[0]) {
        lemma_leading_ws(s.drop_first());
        assert forall|i: int| 0 <= i < leading_ws(s) implies is_white_space(#[trigger] s[i]) by {
            if i > 0 {
                assert(s[i] == s.drop_first()[i - 1]);
            }
        }
    }
}

pub proof fn lemma_trailing_ws(s: Seq<char>)
    ensures
        trailing_ws(s) <= s.len(),
        forall|i: int|
            s.len() - trailing_ws(s) <= i < s.len() ==> is_white_space(#[trigger] s[i]),
        trailing_ws(s) < s.len() ==> !is_white_space(s[s.len() - trailing_ws(s) - 1]),
    decreases s.len(),
{
    if s.len() > 0 && is_white_space(s.last()) {
        lemma_trailing_ws(s.drop_last());
        assert forall|i: int|
            s.len() - trailing_ws(s) <= i < s.len() implies is_white_space(#[trigger] s[i]) by {
            if i < s.len() - 1 {
                assert(s[i] == s.drop_last()[i]);
            }
        }
    }
}

/// The trimmed text is a contiguous piece of the input whose first and last
/// characters are not white space, and everything cut off is white space.
pub proof fn lemma_trim_shape(s: Seq<char>)
    ensures
        ({
            let a = leading_ws(s) as int;
            let t = trim(s);
            &&& a + t.len() <= s.len()
            &&& t == s.subrange(a, a + t.len())
            &&& forall|i: int| 0 <= i < a ==> is_white_space(#[trigger] s[i])
            &&& forall|i: int| a + t.len() <= i < s.len() ==> is_white_space(#[trigger] s[i])
            &&& t.len() > 0 ==> !is_white_space(t[0]) && !is_white_space(t.last())
        }),
{
    lemma_leading_ws(s);
    let a = leading_ws(s) as int;
    let rest = s.skip(a);
    lemma_trailing_ws(rest);
    let t = trim(s);
    assert(t =~= s.subrange(a, a + t.len()));
    assert forall|i: int| a + t.len() <= i < s.len() implies is_white_space(#[trigger] s[i]) by {
        assert(s[i] == rest[i - a]);
    }
    if t.len() > 0 {
        assert(t[0] == rest[0]);
        assert(rest[0] == s[a]);
        assert(t.last() == rest[rest.len() - trailing_ws(rest) - 1]);
    }
}

/// Trimming twice is trimming once.
pub proof fn lemma_trim_idempotent(s: Seq<char>)
    ensures
        trim(trim(s)) == trim(s),
{
    lemma_trim_shape(s);
    let t = trim(s);
    assert(leading_ws(t) == 0);
    assert(t.skip(0) =~= t);
    assert(trailing_ws(t) == 0);
    assert(t.take(t.len() as int) =~= t);
}

/// `trim` on a character vector, as a new string.
pub fn trim_chars(cs: &Vec<char>) -> (r: String)
    ensures
        r@ == trim(cs@),
{
    let n = cs.len();
    let mut i: usize = 0;
    assert(cs@.skip(0) =~= cs@);
    while i < n && white_space(cs[i])
        invariant
            0 <= i <= n == cs.len(),
            leading_ws(cs@) == i + leading_ws(cs@.skip(i as int)),
        decreases n - i,
    {
        assert(cs@.skip(i as int).drop_first() =~= cs@.skip(i + 1));
        i = i + 1;
    }
    assert(leading_ws(cs@.skip(i as int)) == 0);
    let ghost rest = cs@.skip(i as int);
    let mut j: usize = n;
    while j > i && white_space(cs[j - 1])
        invariant
            i <= j <= n == cs.len(),
            rest == cs@.skip(i as int),
            trailing_ws(rest) == (n - j) + trailing_ws(cs@.subrange(i as int, j as int)),
        decreases j,
    {
        assert(cs@.subrange(i as int, j as int).drop_last() =~= cs@.subrange(
            i as int,
            j - 1,
        ));
        j = j - 1;
    }
    assert(trailing_ws(cs@.subrange(i as int, j as int)) == 0);
    assert(rest.take(rest.len() - trailing_ws(rest)) =~= cs@.subrange(i as int, j as int));
    let mut out = String::new();
    push_chars(&mut out, cs, i, j);
    out
}

/// `str::trim`, as a new string.
pub fn trim_str(s: &str) -> (r: String)
    ensures
        r@ == trim(s@),
{
    let cs = chars_of(s);
    trim_chars(&cs)
}

/// `parts` joined with `sep` between neighbours (what `slice::join` gives).
pub open spec fn join_with(parts: Seq<Seq<char>>, sep: Seq<char>) -> Seq<char>
    decreases parts.len(),
{
    if parts.len() == 0 {
        seq![]
    } else if parts.len() == 1 {
        parts[0]
    } else {
        join_with(parts.drop_last(), sep) + sep + parts.last()
    }
}

/// Joins the given strings with `sep` between neighbours.
pub fn join_strings(parts: &Vec<String>, sep: &str) -> (r: String)
    ensures
        r@ == join_with(parts.deep_view(), sep@),
{
    let mut out = String::new();
    let n = parts.len();
    for i in 0..n
        invariant
            n == parts.len(),
            out@ == join_with(parts.deep_view().take(i as int), sep@),
    {
        let ghost before = parts.deep_view().take(i as int);
        let ghost after = parts.deep_view().take(i + 1);
        assert(after.drop_last() =~= before);
        if i > 0 {
            out.append(sep);
        } else {
            assert(out@ =~= seq![]);
        }
        out.append(parts[i].as_str());
        assert(after.last() == parts[i as int]@);
    }
    assert(parts.deep_view().take(n as int) =~= parts.deep_view());
    out
}

} // verus!
