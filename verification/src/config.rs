//! Server settings: decimal parsing of the limits and their defaults.

use vstd::prelude::*;
use crate::text::chars_of;

verus! {

pub open spec fn is_ascii_digit(c: char) -> bool {
    '0' <= c && c <= '9'
}

pub open spec fn all_digits(s: Seq<char>) -> bool {
    forall|i: int| 0 <= i < s.len() ==> is_ascii_digit(#[trigger] s[i])
}

pub open spec fn digit_value(c: char) -> nat {
    (c as u32 - '0' as u32) as nat
}

/// The number that a string of decimal digits denotes.
pub open spec fn digits_value(s: Seq<char>) -> nat
    decreases s.len(),
{
    if s.len() == 0 {
        0
    } else {
        10 * digits_value(s.drop_last()) + digit_value(s.last())
    }
}

/// The integer that `s` denotes as Rust's `FromStr` for integers reads it: an
/// optional `+` (or `-`, when `signed`) followed by one or more ASCII digits.
pub open spec fn decimal_value(s: Seq<char>, signed: bool) -> Option<int> {
    if s.len() == 0 {
        None
    } else if s[0] == '+' || (signed && s[0] == '-') {
        let digits = s.drop_first();
        if digits.len() == 0 || !all_digits(digits) {
            None
        } else if s[0] == '-' {
            Some(-(digits_value(digits) as int))
        } else {
            Some(digits_value(digits) as int)
        }
    } else if all_digits(s) {
        Some(digits_value(s) as int)
    } else {
        None
    }
}

/// What `s.parse::<i32>()` gives: the value when it is well formed and in range.
pub open spec fn parse_i32_spec(s: Seq<char>) -> Option<i32> {
    match decimal_value(s, true) {
        Some(v) => if i32::MIN <= v <= i32::MAX {
            Some(v as i32)
        } else {
            None
        },
        None => None,
    }
}

/// What `s.parse::<usize>()` gives.
pub open spec fn parse_usize_spec(s: Seq<char>) -> Option<usize> {
    match decimal_value(s, false) {
        Some(v) => if 0 <= v <= usize::MAX {
            Some(v as usize)
        } else {
            None
        },
        None => None,
    }
}

pub proof fn lemma_digits_value_grows(s: Seq<char>, i: int)
    requires
        0 <= i <= s.len(),
        all_digits(s),
    ensures
        digits_value(s.take(i)) <= digits_value(s),
    decreases s.len() - i,
{
    if i < s.len() {
        lemma_digits_value_grows(s, i + 1);
        assert(s.take(i + 1).drop_last() =~= s.take(i));
    } else {
        assert(s.take(i) =~= s);
    }
}

/// Reads `cs[start..]` as digits, stopping once the value exceeds `bound`.
/// Returns `Some(v)` when every character is a digit and the value is at
/// most `bound`.
fn read_digits(cs: &Vec<char>, start: usize, bound: u128) -> (r: Option<u128>)
    requires
        start <= cs.len(),
        bound <= u128::MAX / 16,
    ensures
        match r {
            Some(v) => all_digits(cs@.skip(start as int)) && v == digits_value(
                cs@.skip(start as int),
            ) && v <= bound,
            None => !all_digits(cs@.skip(start as int)) || digits_value(cs@.skip(start as int))
                > bound,
        },
{
    let ghost d = cs@.skip(start as int);
    let mut acc: u128 = 0;
    let mut i = start;
    assert(d.take(0) =~= Seq::<char>::empty());
    while i < cs.len()
        invariant
            start <= i <= cs.len(),
            d == cs@.skip(start as int),
            bound <= u128::MAX / 16,
            acc <= bound,
            all_digits(d.take(i - start)),
            acc == digits_value(d.take(i - start)),
        decreases cs.len() - i,
    {
        let c = cs[i];
        if !('0' <= c && c <= '9') {
            assert(d[i - start] == c);
            return None;
        }
        let digit = (c as u32 - '0' as u32) as u128;
        assert(d.take(i + 1 - start).drop_last() =~= d.take(i - start));
        assert(d.take(i + 1 - start).last() == c);
        acc = acc * 10 + digit;
        i = i + 1;
        if acc > bound {
            proof {
                if all_digits(d) {
                    lemma_digits_value_grows(d, i - start);
                }
            }
            return None;
        }
    }
    assert(d.take(i - start) =~= d);
    Some(acc)
}

/// `s.parse::<i32>().ok()`.
pub fn parse_i32(s: &str) -> (r: Option<i32>)
    ensures
        r == parse_i32_spec(s@),
{
    let cs = chars_of(s);
    if cs.len() == 0 {
        return None;
    }
    let negative = cs[0] == '-';
    let start: usize = if cs[0] == '+' || cs[0] == '-' {
        1
    } else {
        0
    };
    if start == 1 && cs.len() == 1 {
        return None;
    }
    let bound: u128 = if negative {
        0x8000_0000
    } else {
        0x7fff_ffff
    };
    assert(start == 0 ==> cs@.skip(0) =~= cs@);
    assert(start == 1 ==> cs@.skip(1) =~= cs@.drop_first());
    match read_digits(&cs, start, bound) {
        Some(v) => {
            if negative {
                if v == 0x8000_0000 {
                    Some(i32::MIN)
                } else {
                    Some(-(v as i32))
                }
            } else {
                Some(v as i32)
            }
        },
        None => None,
    }
}

/// `s.parse::<usize>().ok()`.
pub fn parse_usize(s: &str) -> (r: Option<usize>)
    ensures
        r == parse_usize_spec(s@),
{
    let cs = chars_of(s);
    if cs.len() == 0 {
        return None;
    }
    let start: usize = if cs[0] == '+' {
        1
    } else {
        0
    };
    if start == 1 && cs.len() == 1 {
        return None;
    }
    assert(start == 0 ==> cs@.skip(0) =~= cs@);
    assert(start == 1 ==> cs@.skip(1) =~= cs@.drop_first());
    if cs[0] == '-' {
        assert(!is_ascii_digit(cs@[0]));
        return None;
    }
    let bound: u128 = usize::MAX as u128;
    match read_digits(&cs, start, bound) {
        Some(v) => Some(v as usize),
        None => None,
    }
}

/// A setting read as `i32`, falling back to `default` when it is absent or
/// does not parse.
pub open spec fn setting_i32_spec(value: Option<Seq<char>>, default: i32) -> i32 {
    match value {
        Some(s) => match parse_i32_spec(s) {
            Some(v) => v,
            None => default,
        },
        None => default,
    }
}

/// A setting read as `usize`, with the same fallback.
pub open spec fn setting_usize_spec(value: Option<Seq<char>>, default: usize) -> usize {
    match value {
        Some(s) => match parse_usize_spec(s) {
            Some(v) => v,
            None => default,
        },
        None => default,
    }
}

pub open spec fn opt_string_view(o: Option<String>) -> Option<Seq<char>> {
    match o {
        Some(s) => Some(s@),
        None => None,
    }
}

/// Reads an `i32` setting with a fallback.
pub fn setting_i32(value: &Option<String>, default: i32) -> (r: i32)
    ensures
        r == setting_i32_spec(opt_string_view(*value), default),
{
    match value {
        Some(s) => match parse_i32(s.as_str()) {
            Some(v) => v,
            None => default,
        },
        None => default,
    }
}

/// Reads a `usize` setting with a fallback.
pub fn setting_usize(value: &Option<String>, default: usize) -> (r: usize)
    ensures
        r == setting_usize_spec(opt_string_view(*value), default),
{
    match value {
        Some(s) => match parse_usize(s.as_str()) {
            Some(v) => v,
            None => default,
        },
        None => default,
    }
}

/// The server's configuration.
#[derive(Clone, Debug, PartialEq, Eq)]
pub struct ServerConfig {
    /// The model file, or the directory of model files.
    pub model_path: String,
    pub max_context_len: i32,
    pub max_new_tokens_default: i32,
    pub max_new_tokens_limit: i32,
    /// Longest accepted prompt, in bytes.
    pub max_prompt_length: usize,
}

/// The raw settings, as found in the environment (`None` when unset).
#[derive(Clone, Debug, PartialEq, Eq)]
pub struct RawSettings {
    pub model_path: Option<String>,
    pub max_context_len: Option<String>,
    pub max_new_tokens_default: Option<String>,
    pub max_new_tokens_limit: Option<String>,
    pub max_prompt_length: Option<String>,
}

impl ServerConfig {
    /// Builds the configuration from the raw settings, with the defaults
    /// `/path/to/your/model.rkllm`, 512, 128, 256 and 2048 for what is unset
    /// or does not parse.
    pub fn from_settings(raw: &RawSettings) -> (r: ServerConfig)
        ensures
            r.model_path@ == match raw.model_path {
                Some(p) => p@,
                None => "/path/to/your/model.rkllm"@,
            },
            r.max_context_len == setting_i32_spec(opt_string_view(raw.max_context_len), 512),
            r.max_new_tokens_default == setting_i32_spec(
                opt_string_view(raw.max_new_tokens_default),
                128,
            ),
            r.max_new_tokens_limit == setting_i32_spec(
                opt_string_view(raw.max_new_tokens_limit),
                256,
            ),
            r.max_prompt_length == setting_usize_spec(
                opt_string_view(raw.max_prompt_length),
                2048,
            ),
    {
        let model_path = match &raw.model_path {
            Some(p) => p.clone(),
            None => String::from_str("/path/to/your/model.rkllm"),
        };
        ServerConfig {
            model_path,
            max_context_len: setting_i32(&raw.max_context_len, 512),
            max_new_tokens_default: setting_i32(&raw.max_new_tokens_default, 128),
            max_new_tokens_limit: setting_i32(&raw.max_new_tokens_limit, 256),
            max_prompt_length: setting_usize(&raw.max_prompt_length, 2048),
        }
    }
}

} // verus!
