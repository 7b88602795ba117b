//! Cleaning a model's reply before it is handed to OpenAI-style clients:
//! reasoning sections (`<think>...</think>`, also an unterminated one) are
//! cut out with regular expressions, runs of blank lines are squeezed, and
//! a reply that ends up too short is replaced by a fixed answer.

use vstd::prelude::*;
use crate::text::{
    byte_len, chars_of, is_white_space, leading_ws, lemma_trim_idempotent, lemma_trim_shape,
    push_chars, trim, trim_str, utf8_len, white_space,
};

verus! {

#[verifier::external_type_specification]
#[verifier::external_body]
pub struct ExRegex(regex::Regex);

/// Whether `regex::Regex::new` accepts the pattern.
pub uninterp spec fn regex_compiles(pattern: Seq<char>) -> bool;

/// What `Regex::replace_all` returns for a regex compiled from `pattern`
/// on `haystack` with the replacement text `replacement`.
pub uninterp spec fn regex_replace_all_result(
    pattern: Seq<char>,
    haystack: Seq<char>,
    replacement: Seq<char>,
) -> Seq<char>;

/// A regular expression together with the pattern it was compiled from.
pub struct CompiledPattern {
    source: String,
    regex: regex::Regex,
}

impl CompiledPattern {
    /// The pattern the regex was compiled from.
    pub closed spec fn pattern(&self) -> Seq<char> {
        self.source@
    }
}

/// `regex::Regex::new`: compiles `pattern`, or `None` when it is refused.
/// The pattern text is kept beside the compiled regex.
#[verifier::external_body]
fn compile(pattern: &str) -> (r: Option<CompiledPattern>)
    ensures
        r is Some <==> regex_compiles(pattern@),
        r matches Some(c) ==> c.pattern() == pattern@,
{
    match regex::Regex::new(pattern) {
        Ok(regex) => Some(CompiledPattern { source: pattern.to_string(), regex }),
        Err(_) => None,
    }
}

/// `Regex::replace_all`: every non-overlapping match replaced.
#[verifier::external_body]
fn replace_all(p: &CompiledPattern, haystack: &str, replacement: &str) -> (r: String)
    ensures
        r@ == regex_replace_all_result(p.pattern(), haystack@, replacement@),
{
    p.regex.replace_all(haystack, replacement).into_owned()
}

/// Complete reasoning sections, case-insensitive and across lines.
pub open spec fn think_block_pattern() -> Seq<char> {
    "(?si)<think\\s*>.*?</think\\s*>"@
}

/// An opened reasoning section that is never closed, up to the end.
pub open spec fn open_think_pattern() -> Seq<char> {
    "(?si)<think\\s*>.*$"@
}

/// Three or more line breaks with only white space between them.
pub open spec fn blank_lines_pattern() -> Seq<char> {
    "\n\\s*\n\\s*\n"@
}

/// The answer given when nothing useful is left of a reply.
pub open spec fn fallback_reply() -> Seq<char> {
    "I understand your request. How can I help you?"@
}

/// The three compiled expressions used for cleaning.
pub struct ResponseCleaner {
    think_blocks: CompiledPattern,
    open_think: CompiledPattern,
    blank_lines: CompiledPattern,
}

impl ResponseCleaner {
    /// The expressions are the three patterns above.
    pub closed spec fn well_formed(&self) -> bool {
        &&& self.think_blocks.pattern() == think_block_pattern()
        &&& self.open_think.pattern() == open_think_pattern()
        &&& self.blank_lines.pattern() == blank_lines_pattern()
    }
}

/// Whether all three patterns compile.
pub open spec fn cleaner_patterns_compile() -> bool {
    &&& regex_compiles(think_block_pattern())
    &&& regex_compiles(open_think_pattern())
    &&& regex_compiles(blank_lines_pattern())
}

/// Compiles the cleaning expressions.
pub fn response_cleaner() -> (r: Option<ResponseCleaner>)
    ensures
        r is Some <==> cleaner_patterns_compile(),
        r matches Some(c) ==> c.well_formed(),
{
    let think_blocks = compile("(?si)<think\\s*>.*?</think\\s*>");
    let open_think = compile("(?si)<think\\s*>.*$");
    let blank_lines = compile("\n\\s*\n\\s*\n");
    match (think_blocks, open_think, blank_lines) {
        (Some(think_blocks), Some(open_think), Some(blank_lines)) => Some(
            ResponseCleaner { think_blocks, open_think, blank_lines },
        ),
        _ => None,
    }
}

/// Whether an opening reasoning tag starts at `i`: `<think`, in any ASCII
/// case, then white space, then `>`.
pub open spec fn open_think_tag_at(s: Seq<char>, i: int) -> bool {
    &&& 0 <= i && i + 6 <= s.len()
    &&& s[i] == '<'
    &&& (s[i + 1] == 't' || s[i + 1] == 'T')
    &&& (s[i + 2] == 'h' || s[i + 2] == 'H')
    &&& (s[i + 3] == 'i' || s[i + 3] == 'I')
    &&& (s[i + 4] == 'n' || s[i + 4] == 'N')
    &&& (s[i + 5] == 'k' || s[i + 5] == 'K')
    &&& closes_tag_from(s, i + 6)
}

/// Whether, from position `from` on, white space and then `>` follow.
pub open spec fn closes_tag_from(s: Seq<char>, from: int) -> bool {
    exists|j: int|
        from <= j < s.len() && s[j] == '>' && forall|k: int|
            from <= k < j ==> is_white_space(#[trigger] s[k])
}

/// Whether the text holds an opening reasoning tag anywhere.
pub open spec fn has_open_think_tag(s: Seq<char>) -> bool {
    exists|i: int| open_think_tag_at(s, i)
}

/// The position of the first opening reasoning tag at or after `i`, or the
/// length of the text when there is none.
pub open spec fn first_open_think_from(s: Seq<char>, i: nat) -> nat
    decreases s.len() - i,
{
    if i >= s.len() {
        s.len()
    } else if open_think_tag_at(s, i as int) {
        i
    } else {
        first_open_think_from(s, i + 1)
    }
}

/// The text up to its first opening reasoning tag: what is left when an
/// unterminated reasoning section is cut off.
pub open spec fn cut_open_think(s: Seq<char>) -> Seq<char> {
    s.take(first_open_think_from(s, 0) as int)
}

/// The text after the three replacements (reasoning sections removed, then
/// an unterminated one removed, then runs of blank lines squeezed to one),
/// cut at any opening reasoning tag still left, so that no reasoning section
/// survives whatever the expressions matched.
pub open spec fn strip_reasoning_spec(content: Seq<char>) -> Seq<char> {
    let a = regex_replace_all_result(think_block_pattern(), content, ""@);
    let b = regex_replace_all_result(open_think_pattern(), a, ""@);
    cut_open_think(regex_replace_all_result(blank_lines_pattern(), b, "\n\n"@))
}

/// Whether white space and then `>` follow from `from` on.
fn closes_tag_at(cs: &Vec<char>, from: usize) -> (r: bool)
    requires
        from <= cs.len(),
    ensures
        r == closes_tag_from(cs@, from as int),
{
    let mut k = from;
    while k < cs.len() && white_space(cs[k])
        invariant
            from <= k <= cs.len(),
            forall|m: int| from <= m < k ==> is_white_space(#[trigger] cs@[m]),
        decreases cs.len() - k,
    {
        k = k + 1;
    }
    let r = k < cs.len() && cs[k] == '>';
    proof {
        if r {
            assert(from <= k < cs@.len() && cs@[k as int] == '>' && forall|m: int|
                from <= m < k ==> is_white_space(#[trigger] cs@[m]));
        } else if closes_tag_from(cs@, from as int) {
            let j = choose|j: int|
                from <= j < cs@.len() && cs@[j] == '>' && forall|m: int|
                    from <= m < j ==> is_white_space(#[trigger] cs@[m]);
            assert(!is_white_space('>'));
            if j < k {
                assert(is_white_space(cs@[j]));
            } else if j > k {
                assert(is_white_space(cs@[k as int]));
            }
        }
    }
    r
}

/// Whether an opening reasoning tag starts at `i`.
fn open_think_tag_at_exec(cs: &Vec<char>, i: usize) -> (r: bool)
    requires
        i <= cs.len(),
    ensures
        r == open_think_tag_at(cs@, i as int),
{
    if cs.len() - i < 6 {
        return false;
    }
    let name = cs[i] == '<' && (cs[i + 1] == 't' || cs[i + 1] == 'T') && (cs[i + 2] == 'h'
        || cs[i + 2] == 'H') && (cs[i + 3] == 'i' || cs[i + 3] == 'I') && (cs[i + 4] == 'n'
        || cs[i + 4] == 'N') && (cs[i + 5] == 'k' || cs[i + 5] == 'K');
    if !name {
        return false;
    }
    closes_tag_at(cs, i + 6)
}

/// Cuts the text at its first opening reasoning tag (see [`cut_open_think`]).
pub fn cut_at_open_think(text: &str) -> (r: String)
    ensures
        r@ == cut_open_think(text@),
{
    let cs = chars_of(text);
    let n = cs.len();
    let mut i: usize = 0;
    while i < n
        invariant
            n == cs.len(),
            i <= n,
            first_open_think_from(cs@, 0) == first_open_think_from(cs@, i as nat),
        ensures
            i <= n,
            first_open_think_from(cs@, 0) == i,
        decreases n - i,
    {
        if open_think_tag_at_exec(&cs, i) {
            break;
        }
        i = i + 1;
    }
    let mut out = String::new();
    push_chars(&mut out, &cs, 0, i);
    assert(cs@.subrange(0, i as int) =~= cs@.take(i as int));
    out
}

proof fn lemma_first_open_think(s: Seq<char>, from: nat)
    requires
        from <= s.len(),
    ensures
        from <= first_open_think_from(s, from) <= s.len(),
        forall|i: int|
            from <= i < first_open_think_from(s, from) ==> !open_think_tag_at(s, i),
    decreases s.len() - from,
{
    if from < s.len() && !open_think_tag_at(s, from as int) {
        lemma_first_open_think(s, from + 1);
    }
}

/// Nothing cut at its first opening reasoning tag holds one.
pub proof fn lemma_cut_has_no_open_think(s: Seq<char>)
    ensures
        !has_open_think_tag(cut_open_think(s)),
{
    lemma_first_open_think(s, 0);
    let n = first_open_think_from(s, 0) as int;
    let t = cut_open_think(s);
    if has_open_think_tag(t) {
        let i = choose|i: int| open_think_tag_at(t, i);
        let j = choose|j: int|
            i + 6 <= j < t.len() && t[j] == '>' && forall|k: int|
                i + 6 <= k < j ==> is_white_space(#[trigger] t[k]);
        assert forall|k: int| i + 6 <= k < j implies is_white_space(#[trigger] s[k]) by {
            assert(s[k] == t[k]);
        }
        assert(s[j] == t[j]);
        assert(open_think_tag_at(s, i));
    }
}

/// A piece of a text without opening reasoning tags holds none either.
proof fn lemma_no_open_think_in_piece(s: Seq<char>, a: int, b: int)
    requires
        0 <= a <= b <= s.len(),
        !has_open_think_tag(s),
    ensures
        !has_open_think_tag(s.subrange(a, b)),
{
    let t = s.subrange(a, b);
    if has_open_think_tag(t) {
        let i = choose|i: int| open_think_tag_at(t, i);
        let j = choose|j: int|
            i + 6 <= j < t.len() && t[j] == '>' && forall|k: int|
                i + 6 <= k < j ==> is_white_space(#[trigger] t[k]);
        assert forall|k: int| a + i + 6 <= k < a + j implies is_white_space(#[trigger] s[k]) by {
            assert(s[k] == t[k - a]);
        }
        assert(s[a + j] == t[j]);
        assert(closes_tag_from(s, a + i + 6));
        assert(open_think_tag_at(s, a + i));
    }
}

/// A cleaned reply never holds an opening reasoning tag (`<think>`, in any
/// ASCII case, with optional white space before `>`): whatever the reply,
/// nothing of an unterminated reasoning section survives cleaning.
pub proof fn lemma_cleaned_reply_has_no_open_think(content: Seq<char>)
    ensures
        !has_open_think_tag(finish_reply_spec(strip_reasoning_spec(content))),
{
    let x = strip_reasoning_spec(content);
    let b = regex_replace_all_result(
        blank_lines_pattern(),
        regex_replace_all_result(
            open_think_pattern(),
            regex_replace_all_result(think_block_pattern(), content, ""@),
            ""@,
        ),
        "\n\n"@,
    );
    lemma_cut_has_no_open_think(b);
    let t = trim(x);
    lemma_trim_shape(x);
    let a = leading_ws(x) as int;
    lemma_no_open_think_in_piece(x, a, a + t.len());
    reveal_strlit("I understand your request. How can I help you?");
    let f = fallback_reply();
    assert forall|i: int| 0 <= i < f.len() implies f[i] != '<' by {}
    if has_open_think_tag(f) {
        let i = choose|i: int| open_think_tag_at(f, i);
        assert(f[i] == '<');
    }
}

/// Applies the three replacements and cuts at any opening reasoning tag
/// left (see [`strip_reasoning_spec`]).
pub fn strip_reasoning(cleaner: &ResponseCleaner, content: &str) -> (r: String)
    requires
        cleaner.well_formed(),
    ensures
        r@ == strip_reasoning_spec(content@),
{
    let a = replace_all(&cleaner.think_blocks, content, "");
    let b = replace_all(&cleaner.open_think, a.as_str(), "");
    let c = replace_all(&cleaner.blank_lines, b.as_str(), "\n\n");
    cut_at_open_think(c.as_str())
}

/// The final step of cleaning: the text trimmed, or the fixed answer when
/// that is empty or shorter than ten bytes.
pub open spec fn finish_reply_spec(text: Seq<char>) -> Seq<char> {
    let t = trim(text);
    if t.len() == 0 || byte_len(t) < 10 {
        fallback_reply()
    } else {
        t
    }
}

/// Trims the stripped reply and falls back to the fixed answer when too
/// little is left (see [`finish_reply_spec`]).
pub fn finish_reply(text: &str) -> (r: String)
    ensures
        r@ == finish_reply_spec(text@),
{
    let t = trim_str(text);
    if t.as_str().is_empty() || t.as_str().len() < 10 {
        String::from_str("I understand your request. How can I help you?")
    } else {
        t
    }
}

/// The whole cleaning of a reply (see [`strip_reasoning_spec`] and
/// [`finish_reply_spec`]); `None` only when the patterns do not compile.
pub fn clean_response_content(content: &str) -> (r: Option<String>)
    ensures
        r is Some <==> cleaner_patterns_compile(),
        r matches Some(s) ==> s@ == finish_reply_spec(strip_reasoning_spec(content@)),
{
    match response_cleaner() {
        Some(cleaner) => {
            let stripped = strip_reasoning(&cleaner, content);
            Some(finish_reply(stripped.as_str()))
        },
        None => None,
    }
}

/// A text takes at least as many bytes as it has characters.
pub proof fn lemma_utf8_len_at_least_chars(s: Seq<char>)
    ensures
        utf8_len(s) >= s.len(),
    decreases s.len(),
{
    if s.len() > 0 {
        lemma_utf8_len_at_least_chars(s.drop_first());
    }
}

/// A cleaned reply is never shorter than ten bytes and is already trimmed.
pub proof fn lemma_finished_reply(text: Seq<char>)
    ensures
        utf8_len(finish_reply_spec(text)) >= 10,
        trim(finish_reply_spec(text)) == finish_reply_spec(text),
{
    reveal_strlit("I understand your request. How can I help you?");
    let f = fallback_reply();
    lemma_utf8_len_at_least_chars(f);
    lemma_trim_idempotent(text);
    if trim(text).len() == 0 || byte_len(trim(text)) < 10 {
        assert(!is_white_space(f[0]));
        assert(!is_white_space(f.last()));
        assert(crate::text::leading_ws(f) == 0);
        assert(crate::text::trailing_ws(f) == 0);
        assert(f.skip(0) =~= f);
        assert(f.take(f.len() as int) =~= f);
    }
}

} // verus!
