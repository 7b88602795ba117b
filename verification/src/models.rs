//! Model files: cleaning requested model names, the places where a model
//! file is looked for, and the listing of the models that are on disk.
//!
//! The file system itself is read by the caller: it reports what kind of
//! thing the configured model path is, the current directory, and which of
//! the candidate paths are regular files; this module decides.

use vstd::prelude::*;
use crate::text::{
    chars_of, is_white_space, leading_ws, lemma_trim_idempotent, lemma_trim_shape, push_char,
    push_chars, trim, trim_chars,
};

verus! {

/// Characters removed from a requested model name before it is used in a path.
pub open spec fn is_forbidden_name_char(c: char) -> bool {
    c == '/' || c == '\\' || c == ':' || c == '*' || c == '?' || c == '"' || c == '<' || c
        == '>' || c == '|'
}

/// Executable test for [`is_forbidden_name_char`].
pub fn forbidden_name_char(c: char) -> (r: bool)
    ensures
        r == is_forbidden_name_char(c),
{
    c == '/' || c == '\\' || c == ':' || c == '*' || c == '?' || c == '"' || c == '<' || c
        == '>' || c == '|'
}

/// `s` with every forbidden character removed.
pub open spec fn strip_forbidden(s: Seq<char>) -> Seq<char>
    decreases s.len(),
{
    if s.len() == 0 {
        seq![]
    } else if is_forbidden_name_char(s.last()) {
        strip_forbidden(s.drop_last())
    } else {
        strip_forbidden(s.drop_last()).push(s.last())
    }
}

/// The cleaned form of a requested model name: forbidden characters removed,
/// then surrounding white space trimmed.
pub open spec fn clean_name(s: Seq<char>) -> Seq<char> {
    trim(strip_forbidden(s))
}

/// The extension that model files carry, without the dot.
pub open spec fn model_extension() -> Seq<char> {
    seq!['r', 'k', 'l', 'l', 'm']
}

/// The extension that model files carry, with the dot.
pub open spec fn dotted_model_extension() -> Seq<char> {
    seq!['.'] + model_extension()
}

pub open spec fn ends_with_model_extension(s: Seq<char>) -> bool {
    s.len() >= 6 && s.subrange(s.len() - 6, s.len() as int) == dotted_model_extension()
}

/// The file name that a (cleaned) model name stands for.
pub open spec fn model_file_name(clean: Seq<char>) -> Seq<char> {
    if ends_with_model_extension(clean) {
        clean
    } else {
        clean + dotted_model_extension()
    }
}

/// Joins a path and a component the way `Path::join` does on Unix: an
/// absolute component replaces the path, otherwise a `/` goes between the two
/// unless the path is empty or already ends with one.
pub open spec fn join_path(base: Seq<char>, comp: Seq<char>) -> Seq<char> {
    if comp.len() > 0 && comp[0] == '/' {
        comp
    } else if base.len() == 0 || base.last() == '/' {
        base + comp
    } else {
        base + seq!['/'] + comp
    }
}

/// The name of the subdirectory of the working directory that holds models.
pub open spec fn models_dir_name() -> Seq<char> {
    seq!['m', 'o', 'd', 'e', 'l', 's']
}

/// What the configured model path turned out to be on disk.
#[derive(Clone, Copy, Debug, PartialEq, Eq)]
pub enum BasePathKind {
    Directory,
    File,
    Missing,
}

/// The paths at which a model file is looked for, in order: inside the
/// configured directory and in its subdirectory named after the model; next
/// to the configured file; in the working directory and its `models`
/// subdirectory.
pub open spec fn search_paths(
    clean: Seq<char>,
    base: Seq<char>,
    kind: BasePathKind,
    parent: Option<Seq<char>>,
    cwd: Option<Seq<char>>,
) -> Seq<Seq<char>> {
    let file = model_file_name(clean);
    let from_base = match kind {
        BasePathKind::Directory => seq![
            join_path(base, file),
            join_path(join_path(base, clean), file),
        ],
        BasePathKind::File => match parent {
            Some(p) => seq![join_path(p, file)],
            None => seq![],
        },
        BasePathKind::Missing => seq![],
    };
    let from_cwd = match cwd {
        Some(c) => seq![join_path(c, file), join_path(join_path(c, models_dir_name()), file)],
        None => seq![],
    };
    from_base + from_cwd
}

/// Why a model could not be located.
#[derive(Clone, Debug, PartialEq, Eq)]
pub enum LookupError {
    /// Nothing is left of the requested name once it is cleaned.
    EmptyName,
    /// None of the searched paths is a model file.
    NotFound { file_name: String, searched: Vec<String> },
}

/// Everything needed to look a requested model up on disk.
#[derive(Clone, Debug, PartialEq, Eq)]
pub struct ModelLookup {
    pub clean_name: String,
    pub file_name: String,
    pub candidates: Vec<String>,
}

/// Removes the forbidden characters from `s`.
pub fn strip_forbidden_chars(cs: &Vec<char>) -> (r: Vec<char>)
    ensures
        r@ == strip_forbidden(cs@),
{
    let mut out: Vec<char> = Vec::new();
    let n = cs.len();
    for i in 0..n
        invariant
            n == cs.len(),
            out@ == strip_forbidden(cs@.take(i as int)),
    {
        assert(cs@.take(i + 1).drop_last() =~= cs@.take(i as int));
        if !forbidden_name_char(cs[i]) {
            out.push(cs[i]);
        }
    }
    assert(cs@.take(n as int) =~= cs@);
    out
}

/// Cleans a requested model name: removes path separators and the other
/// forbidden characters, then trims surrounding white space.
pub fn clean_model_name(name: &str) -> (r: String)
    ensures
        r@ == clean_name(name@),
{
    let cs = chars_of(name);
    let stripped = strip_forbidden_chars(&cs);
    trim_chars(&stripped)
}

/// Whether the characters end with `.rkllm`.
fn chars_end_with_model_extension(cs: &Vec<char>) -> (r: bool)
    ensures
        r == ends_with_model_extension(cs@),
{
    let n = cs.len();
    if n < 6 {
        return false;
    }
    let r = cs[n - 6] == '.' && cs[n - 5] == 'r' && cs[n - 4] == 'k' && cs[n - 3] == 'l' && cs[n
        - 2] == 'l' && cs[n - 1] == 'm';
    let ghost tail = cs@.subrange(n - 6, n as int);
    let ghost ext = dotted_model_extension();
    if r {
        assert(tail =~= ext);
    } else {
        assert(ext[0] == '.' && ext[1] == 'r' && ext[2] == 'k' && ext[3] == 'l' && ext[4] == 'l'
            && ext[5] == 'm');
        assert(tail[0] == cs@[n - 6] && tail[1] == cs@[n - 5] && tail[2] == cs@[n - 4] && tail[3]
            == cs@[n - 3] && tail[4] == cs@[n - 2] && tail[5] == cs@[n - 1]);
        assert(tail != ext);
    }
    r
}

/// Appends `.rkllm` to `out`.
fn push_model_extension(out: &mut String)
    ensures
        final(out)@ == old(out)@ + dotted_model_extension(),
{
    push_char(out, '.');
    push_char(out, 'r');
    push_char(out, 'k');
    push_char(out, 'l');
    push_char(out, 'l');
    push_char(out, 'm');
    assert(final(out)@ =~= old(out)@ + dotted_model_extension());
}

/// The file name for a cleaned model name: the name itself when it already
/// ends with `.rkllm`, otherwise the name with `.rkllm` appended.
pub fn model_file_name_of(clean: &str) -> (r: String)
    ensures
        r@ == model_file_name(clean@),
{
    let cs = chars_of(clean);
    let mut out = String::from_str(clean);
    if !chars_end_with_model_extension(&cs) {
        push_model_extension(&mut out);
    }
    out
}

/// Joins a path and a component (see [`join_path`]).
pub fn join(base: &str, comp: &str) -> (r: String)
    ensures
        r@ == join_path(base@, comp@),
{
    let b = chars_of(base);
    let c = chars_of(comp);
    if c.len() > 0 && c[0] == '/' {
        return String::from_str(comp);
    }
    let mut out = String::from_str(base);
    if b.len() > 0 && b[b.len() - 1] != '/' {
        push_char(&mut out, '/');
    }
    out.append(comp);
    out
}

/// `<cwd>/models`, the second place where models are kept.
pub fn models_subdir(cwd: &str) -> (r: String)
    ensures
        r@ == join_path(cwd@, models_dir_name()),
{
    let models = String::from_str("models");
    proof {
        reveal_strlit("models");
    }
    assert(models@ =~= models_dir_name());
    join(cwd, models.as_str())
}

/// The characters of an optional string slice.
pub open spec fn opt_str_view(o: Option<&str>) -> Option<Seq<char>> {
    match o {
        Some(s) => Some(s@),
        None => None,
    }
}

/// The candidate paths for a cleaned model name (see [`search_paths`]).
pub fn model_search_paths(
    clean: &str,
    base: &str,
    kind: BasePathKind,
    parent: Option<&str>,
    cwd: Option<&str>,
) -> (r: Vec<String>)
    ensures
        r.deep_view() == search_paths(clean@, base@, kind, opt_str_view(parent), opt_str_view(cwd)),
{
    let file = model_file_name_of(clean);
    let mut out: Vec<String> = Vec::new();
    match kind {
        BasePathKind::Directory => {
            out.push(join(base, file.as_str()));
            let sub = join(base, clean);
            out.push(join(sub.as_str(), file.as_str()));
        },
        BasePathKind::File => {
            if let Some(p) = parent {
                out.push(join(p, file.as_str()));
            }
        },
        BasePathKind::Missing => {},
    }
    let ghost from_base = out.deep_view();
    if let Some(c) = cwd {
        out.push(join(c, file.as_str()));
        let sub = models_subdir(c);
        out.push(join(sub.as_str(), file.as_str()));
    }
    assert(out.deep_view() =~= search_paths(
        clean@,
        base@,
        kind,
        opt_str_view(parent),
        opt_str_view(cwd),
    ));
    out
}

/// `l` is the lookup for the requested name with the given surroundings.
pub open spec fn lookup_for(
    l: ModelLookup,
    name: Seq<char>,
    base: Seq<char>,
    kind: BasePathKind,
    parent: Option<Seq<char>>,
    cwd: Option<Seq<char>>,
) -> bool {
    &&& l.clean_name@ == clean_name(name)
    &&& l.file_name@ == model_file_name(clean_name(name))
    &&& l.candidates.deep_view() == search_paths(clean_name(name), base, kind, parent, cwd)
}

/// Prepares the lookup of a requested model: cleans the name and lists the
/// candidate paths. Fails when nothing is left of the name.
pub fn plan_model_lookup(
    model_name: &str,
    base: &str,
    kind: BasePathKind,
    parent: Option<&str>,
    cwd: Option<&str>,
) -> (r: Result<ModelLookup, LookupError>)
    ensures
        clean_name(model_name@).len() == 0 ==> r == Err::<ModelLookup, LookupError>(
            LookupError::EmptyName,
        ),
        clean_name(model_name@).len() > 0 ==> (r matches Ok(l) && lookup_for(
            l,
            model_name@,
            base@,
            kind,
            opt_str_view(parent),
            opt_str_view(cwd),
        )),
{
    let clean = clean_model_name(model_name);
    if clean.as_str().is_empty() {
        return Err(LookupError::EmptyName);
    }
    let file_name = model_file_name_of(clean.as_str());
    let candidates = model_search_paths(clean.as_str(), base, kind, parent, cwd);
    Ok(ModelLookup { clean_name: clean, file_name, candidates })
}

/// Index of the first `true` in `flags`, if any.
pub open spec fn first_true(flags: Seq<bool>) -> Option<int>
    decreases flags.len(),
{
    if flags.len() == 0 {
        None
    } else if flags[0] {
        Some(0)
    } else {
        match first_true(flags.drop_first()) {
            Some(i) => Some(i + 1),
            None => None,
        }
    }
}

pub proof fn lemma_first_true(flags: Seq<bool>)
    ensures
        match first_true(flags) {
            Some(i) => 0 <= i < flags.len() && flags[i] && forall|j: int|
                0 <= j < i ==> !#[trigger] flags[j],
            None => forall|j: int| 0 <= j < flags.len() ==> !#[trigger] flags[j],
        },
    decreases flags.len(),
{
    if flags.len() > 0 && !flags[0] {
        lemma_first_true(flags.drop_first());
        assert forall|j: int| 0 < j < flags.len() implies flags[j] == flags.drop_first()[j
            - 1] by {}
    }
}

/// Picks the model file: the first candidate that the caller found to be a
/// regular file. `is_model_file[i]` tells whether `candidates[i]` is one.
pub fn choose_model_file(lookup: &ModelLookup, is_model_file: &Vec<bool>) -> (r: Result<
    String,
    LookupError,
>)
    requires
        is_model_file.len() == lookup.candidates.len(),
    ensures
        match first_true(is_model_file@) {
            Some(i) => r matches Ok(p) && p@ == lookup.candidates.deep_view()[i],
            None => r matches Err(LookupError::NotFound { file_name, searched }) && file_name@
                == lookup.file_name@ && searched.deep_view() == lookup.candidates.deep_view(),
        },
{
    let n = is_model_file.len();
    proof {
        lemma_first_true(is_model_file@);
    }
    for i in 0..n
        invariant
            n == is_model_file.len() == lookup.candidates.len(),
            forall|j: int| 0 <= j < i ==> !#[trigger] is_model_file@[j],
            match first_true(is_model_file@) {
                Some(k) => 0 <= k < n && is_model_file@[k] && forall|j: int|
                    0 <= j < k ==> !#[trigger] is_model_file@[j],
                None => forall|j: int| 0 <= j < n ==> !#[trigger] is_model_file@[j],
            },
    {
        if is_model_file[i] {
            return Ok(lookup.candidates[i].clone());
        }
    }
    let searched = lookup.candidates.clone();
    proof {
        assert forall|i: int| 0 <= i < searched.len() implies searched@[i] == lookup.candidates@[i] by {
            assert(cloned::<String>(lookup.candidates[i], searched[i]));
        }
        assert(searched.deep_view() =~= lookup.candidates.deep_view());
    }
    Err(LookupError::NotFound { file_name: lookup.file_name.clone(), searched })
}

/// Index of the last `.` in `s`, or -1.
pub open spec fn last_dot(s: Seq<char>) -> int
    decreases s.len(),
{
    if s.len() == 0 {
        -1
    } else if s.last() == '.' {
        s.len() - 1
    } else {
        last_dot(s.drop_last())
    }
}

pub proof fn lemma_last_dot(s: Seq<char>)
    ensures
        -1 <= last_dot(s) < s.len(),
        last_dot(s) >= 0 ==> s[last_dot(s)] == '.',
        forall|i: int| last_dot(s) < i < s.len() ==> #[trigger] s[i] != '.',
    decreases s.len(),
{
    if s.len() > 0 && s.last() != '.' {
        lemma_last_dot(s.drop_last());
        assert forall|i: int| last_dot(s) < i < s.len() implies #[trigger] s[i] != '.' by {
            if i < s.len() - 1 {
                assert(s[i] == s.drop_last()[i]);
            }
        }
    }
}

pub open spec fn is_parent_dir_name(name: Seq<char>) -> bool {
    name == seq!['.', '.']
}

/// The stem of a file name, as `Path::file_stem` gives it: the part before
/// the last `.`, or the whole name when it has no `.` past its first character.
pub open spec fn file_stem(name: Seq<char>) -> Seq<char> {
    if is_parent_dir_name(name) || last_dot(name) <= 0 {
        name
    } else {
        name.take(last_dot(name))
    }
}

/// The extension of a file name, as `Path::extension` gives it.
pub open spec fn file_extension(name: Seq<char>) -> Option<Seq<char>> {
    if is_parent_dir_name(name) || last_dot(name) <= 0 {
        None
    } else {
        Some(name.skip(last_dot(name) + 1))
    }
}

/// One entry of a directory listing, as the caller read it.
#[derive(Clone, Debug, PartialEq, Eq)]
pub struct DirEntryInfo {
    pub file_name: String,
    pub is_file: bool,
}

pub open spec fn entry_view(e: DirEntryInfo) -> (Seq<char>, bool) {
    (e.file_name@, e.is_file)
}

pub open spec fn entries_view(entries: Seq<DirEntryInfo>) -> Seq<(Seq<char>, bool)> {
    entries.map_values(|e: DirEntryInfo| entry_view(e))
}

/// The model that a directory entry holds: the stem of a regular file whose
/// extension is `rkllm`.
pub open spec fn model_of_entry(entry: (Seq<char>, bool)) -> Option<Seq<char>> {
    if entry.1 && file_extension(entry.0) == Some(model_extension()) {
        Some(file_stem(entry.0))
    } else {
        None
    }
}

/// The model names found in a listing, each once, in order of first appearance.
pub open spec fn listed_models(entries: Seq<(Seq<char>, bool)>) -> Seq<Seq<char>>
    decreases entries.len(),
{
    if entries.len() == 0 {
        seq![]
    } else {
        let prev = listed_models(entries.drop_last());
        match model_of_entry(entries.last()) {
            Some(m) => if prev.contains(m) {
                prev
            } else {
                prev.push(m)
            },
            None => prev,
        }
    }
}

/// One past the position of the last `.` in the characters (0 when there is none).
fn after_last_dot(cs: &Vec<char>) -> (r: usize)
    ensures
        r == last_dot(cs@) + 1,
{
    let mut j: usize = cs.len();
    assert(cs@.take(cs.len() as int) =~= cs@);
    while j > 0 && cs[j - 1] != '.'
        invariant
            j <= cs.len(),
            last_dot(cs@) == last_dot(cs@.take(j as int)),
        decreases j,
    {
        assert(cs@.take(j as int).drop_last() =~= cs@.take(j - 1));
        j = j - 1;
    }
    if j == 0 {
        assert(cs@.take(0) =~= Seq::<char>::empty());
    }
    j
}

/// The model name that a directory entry holds, if it is a model file.
pub fn model_of_dir_entry(entry: &DirEntryInfo) -> (r: Option<String>)
    ensures
        match model_of_entry(entry_view(*entry)) {
            Some(m) => r matches Some(s) && s@ == m,
            None => r is None,
        },
{
    if !entry.is_file {
        return None;
    }
    let cs = chars_of(entry.file_name.as_str());
    if cs.len() == 2 && cs[0] == '.' && cs[1] == '.' {
        assert(cs@ =~= seq!['.', '.']);
        return None;
    }
    let after = after_last_dot(&cs);
    if after <= 1 {
        return None;
    }
    let d = after - 1;
    proof {
        lemma_last_dot(cs@);
    }
    let n = cs.len();
    let is_model = n - d == 6 && cs[d + 1] == 'r' && cs[d + 2] == 'k' && cs[d + 3] == 'l' && cs[d
        + 4] == 'l' && cs[d + 5] == 'm';
    let ghost tail = cs@.skip(d + 1);
    let ghost ext = model_extension();
    if is_model {
        assert(tail =~= ext);
    } else {
        assert(ext.len() == 5 && ext[0] == 'r' && ext[1] == 'k' && ext[2] == 'l' && ext[3] == 'l'
            && ext[4] == 'm');
        proof {
            if tail.len() == 5 {
                assert(tail[0] == cs@[d + 1] && tail[1] == cs@[d + 2] && tail[2] == cs@[d + 3]
                    && tail[3] == cs@[d + 4] && tail[4] == cs@[d + 5]);
            }
            assert(tail != ext);
        }
    }
    if !is_model {
        return None;
    }
    let mut stem = String::new();
    push_chars(&mut stem, &cs, 0, d);
    assert(cs@.subrange(0, d as int) =~= cs@.take(d as int));
    Some(stem)
}

/// Whether `v` holds a string equal to `s`.
pub fn contains_string(v: &Vec<String>, s: &String) -> (r: bool)
    ensures
        r == v.deep_view().contains(s@),
{
    let n = v.len();
    for i in 0..n
        invariant
            n == v.len(),
            forall|j: int| 0 <= j < i ==> v.deep_view()[j] != s@,
    {
        if v[i] == *s {
            assert(v.deep_view()[i as int] == s@);
            return true;
        }
    }
    false
}

/// The model names held by a directory listing, each once, in order of
/// first appearance (see [`listed_models`]).
pub fn collect_model_names(entries: &Vec<DirEntryInfo>) -> (r: Vec<String>)
    ensures
        r.deep_view() == listed_models(entries_view(entries@)),
{
    let mut out: Vec<String> = Vec::new();
    let n = entries.len();
    for i in 0..n
        invariant
            n == entries.len(),
            out.deep_view() == listed_models(entries_view(entries@.take(i as int))),
    {
        let ghost prefix = entries_view(entries@.take(i as int));
        let ghost next = entries_view(entries@.take(i + 1));
        assert(next.drop_last() =~= prefix);
        assert(next.last() == entry_view(entries@[i as int]));
        if let Some(m) = model_of_dir_entry(&entries[i]) {
            if !contains_string(&out, &m) {
                let ghost before = out.deep_view();
                out.push(m);
                assert(out.deep_view() =~= before.push(m@));
            }
        }
    }
    assert(entries@.take(n as int) =~= entries@);
    out
}

/// The directories whose listings are searched for models, in order: the
/// configured directory (or, when the configured path is not a directory,
/// its parent if that is one), the working directory, and its `models`
/// subdirectory when that exists.
pub open spec fn search_dirs(
    base: Seq<char>,
    base_is_dir: bool,
    parent: Option<Seq<char>>,
    parent_is_dir: bool,
    cwd: Option<Seq<char>>,
    models_dir_is_dir: bool,
) -> Seq<Seq<char>> {
    let first = if base_is_dir {
        seq![base]
    } else {
        match parent {
            Some(p) => if parent_is_dir {
                seq![p]
            } else {
                seq![]
            },
            None => seq![],
        }
    };
    let rest = match cwd {
        Some(c) => if models_dir_is_dir {
            seq![c, join_path(c, models_dir_name())]
        } else {
            seq![c]
        },
        None => seq![],
    };
    first + rest
}

/// The directories to list for models (see [`search_dirs`]).
pub fn model_search_dirs(
    base: &str,
    base_is_dir: bool,
    parent: Option<&str>,
    parent_is_dir: bool,
    cwd: Option<&str>,
    models_dir_is_dir: bool,
) -> (r: Vec<String>)
    ensures
        r.deep_view() == search_dirs(
            base@,
            base_is_dir,
            opt_str_view(parent),
            parent_is_dir,
            opt_str_view(cwd),
            models_dir_is_dir,
        ),
{
    let mut out: Vec<String> = Vec::new();
    if base_is_dir {
        out.push(String::from_str(base));
    } else if let Some(p) = parent {
        if parent_is_dir {
            out.push(String::from_str(p));
        }
    }
    if let Some(c) = cwd {
        out.push(String::from_str(c));
        if models_dir_is_dir {
            out.push(models_subdir(c));
        }
    }
    assert(out.deep_view() =~= search_dirs(
        base@,
        base_is_dir,
        opt_str_view(parent),
        parent_is_dir,
        opt_str_view(cwd),
        models_dir_is_dir,
    ));
    out
}

pub proof fn lemma_strip_forbidden(s: Seq<char>)
    ensures
        forall|i: int|
            0 <= i < strip_forbidden(s).len() ==> !is_forbidden_name_char(
                #[trigger] strip_forbidden(s)[i],
            ),
    decreases s.len(),
{
    if s.len() > 0 {
        lemma_strip_forbidden(s.drop_last());
        let p = strip_forbidden(s.drop_last());
        if !is_forbidden_name_char(s.last()) {
            assert forall|i: int| 0 <= i < p.len() + 1 implies !is_forbidden_name_char(
                #[trigger] p.push(s.last())[i],
            ) by {
                if i < p.len() {
                    assert(p.push(s.last())[i] == p[i]);
                }
            }
        }
    }
}

/// A cleaned model name holds no path separator or other forbidden
/// character, and neither starts nor ends with white space; cleaning it
/// again changes nothing.
pub proof fn lemma_clean_name(name: Seq<char>)
    ensures
        forall|i: int|
            0 <= i < clean_name(name).len() ==> !is_forbidden_name_char(
                #[trigger] clean_name(name)[i],
            ),
        clean_name(name).len() > 0 ==> !is_white_space(clean_name(name)[0]) && !is_white_space(
            clean_name(name).last(),
        ),
        clean_name(clean_name(name)) == clean_name(name),
{
    let s = strip_forbidden(name);
    let c = clean_name(name);
    lemma_strip_forbidden(name);
    lemma_trim_shape(s);
    let a = leading_ws(s) as int;
    assert forall|i: int| 0 <= i < c.len() implies !is_forbidden_name_char(#[trigger] c[i]) by {
        assert(c[i] == s[a + i]);
    }
    lemma_strip_forbidden_identity(c);
    lemma_trim_idempotent(s);
}

/// Removing forbidden characters from a text that has none changes nothing.
pub proof fn lemma_strip_forbidden_identity(s: Seq<char>)
    requires
        forall|i: int| 0 <= i < s.len() ==> !is_forbidden_name_char(#[trigger] s[i]),
    ensures
        strip_forbidden(s) == s,
    decreases s.len(),
{
    if s.len() > 0 {
        lemma_strip_forbidden_identity(s.drop_last());
        assert(s.drop_last().push(s.last()) =~= s);
    }
}

/// Every model file name ends with `.rkllm`.
pub proof fn lemma_model_file_name(clean: Seq<char>)
    ensures
        ends_with_model_extension(model_file_name(clean)),
        ends_with_model_extension(clean) ==> model_file_name(clean) == clean,
        model_file_name(model_file_name(clean)) == model_file_name(clean),
{
    if !ends_with_model_extension(clean) {
        let f = clean + dotted_model_extension();
        assert(f.subrange(f.len() - 6, f.len() as int) =~= dotted_model_extension());
    }
}

/// A model listed from a directory is found again under its name: for a
/// model file whose stem is already a clean name not ending in `.rkllm`,
/// the file name looked up for that stem is the entry's own file name.
pub proof fn lemma_listed_model_names_its_file(entry: (Seq<char>, bool))
    requires
        model_of_entry(entry) is Some,
        clean_name(model_of_entry(entry)->0) == model_of_entry(entry)->0,
        !ends_with_model_extension(model_of_entry(entry)->0),
    ensures
        model_file_name(clean_name(model_of_entry(entry)->0)) == entry.0,
{
    let name = entry.0;
    let d = last_dot(name);
    lemma_last_dot(name);
    let stem = name.take(d);
    assert(name.skip(d + 1) =~= model_extension());
    assert(stem + dotted_model_extension() =~= name);
}

/// The listing holds each model name once, exactly the names of the model
/// files among the entries.
pub proof fn lemma_listed_models(entries: Seq<(Seq<char>, bool)>)
    ensures
        forall|i: int, j: int|
            0 <= i < j < listed_models(entries).len() ==> #[trigger] listed_models(entries)[i]
                != #[trigger] listed_models(entries)[j],
        forall|m: Seq<char>|
            #[trigger] listed_models(entries).contains(m) <==> exists|k: int|
                0 <= k < entries.len() && #[trigger] model_of_entry(entries[k]) == Some(m),
    decreases entries.len(),
{
    if entries.len() > 0 {
        let prev_entries = entries.drop_last();
        lemma_listed_models(prev_entries);
        let prev = listed_models(prev_entries);
        let cur = listed_models(entries);
        let last = entries.last();
        assert forall|m: Seq<char>| #[trigger] cur.contains(m) implies exists|k: int|
            0 <= k < entries.len() && #[trigger] model_of_entry(entries[k]) == Some(m) by {
            if prev.contains(m) {
                let k = choose|k: int|
                    0 <= k < prev_entries.len() && #[trigger] model_of_entry(prev_entries[k])
                        == Some(m);
                assert(entries[k] == prev_entries[k]);
            } else {
                let q = choose|q: int| 0 <= q < cur.len() && cur[q] == m;
                if model_of_entry(last) is Some && !prev.contains(model_of_entry(last)->0) {
                    if q < prev.len() {
                        assert(cur[q] == prev[q]);
                    }
                    assert(m == model_of_entry(last)->0);
                } else {
                    assert(cur == prev);
                }
                assert(entries[entries.len() - 1] == last);
            }
        }
        assert forall|m: Seq<char>| (exists|k: int|
            0 <= k < entries.len() && #[trigger] model_of_entry(entries[k]) == Some(m)) implies #[trigger] cur.contains(m) by {
            let k = choose|k: int| 0 <= k < entries.len() && #[trigger] model_of_entry(entries[k]) == Some(m);
            if k < entries.len() - 1 {
                assert(prev_entries[k] == entries[k]);
                assert(prev.contains(m));
                let q = choose|q: int| 0 <= q < prev.len() && prev[q] == m;
                if model_of_entry(last) is Some && !prev.contains(model_of_entry(last)->0) {
                    assert(cur[q] == prev[q]);
                }
            } else {
                assert(last == entries[k]);
                if !prev.contains(m) {
                    assert(cur[prev.len() as int] == m);
                }
            }
        }
        assert forall|i: int, j: int| 0 <= i < j < cur.len() implies #[trigger] cur[i] != #[trigger] cur[j] by {
            if model_of_entry(last) is Some && !prev.contains(model_of_entry(last)->0) {
                if j == prev.len() {
                    assert(cur[i] == prev[i]);
                } else {
                    assert(cur[i] == prev[i] && cur[j] == prev[j]);
                }
            }
        }
    }
}


/// Inserting a forbidden character anywhere into a text leaves what remains
/// after removing the forbidden characters unchanged.
pub proof fn lemma_strip_forbidden_insert(s: Seq<char>, i: int, c: char)
    requires
        0 <= i <= s.len(),
        is_forbidden_name_char(c),
    ensures
        strip_forbidden(s.insert(i, c)) == strip_forbidden(s),
    decreases s.len(),
{
    let t = s.insert(i, c);
    if i == s.len() {
        assert(t.drop_last() =~= s);
    } else {
        lemma_strip_forbidden_insert(s.drop_last(), i, c);
        assert(t.drop_last() =~= s.drop_last().insert(i, c));
        assert(t.last() == s.last());
    }
}

/// Forbidden characters in a requested model name do not matter: two names
/// that agree once those characters are removed (such as a name and the same
/// name with `/`, `:` or `|` put in anywhere) are cleaned to the same name
/// and are looked up under the same file name at the same paths, so the
/// lookup of one succeeds or fails exactly as that of the other.
pub proof fn lemma_lookup_ignores_forbidden_chars(
    n1: Seq<char>,
    n2: Seq<char>,
    base: Seq<char>,
    kind: BasePathKind,
    parent: Option<Seq<char>>,
    cwd: Option<Seq<char>>,
)
    requires
        strip_forbidden(n1) == strip_forbidden(n2),
    ensures
        clean_name(n1) == clean_name(n2),
        clean_name(n1).len() == 0 <==> clean_name(n2).len() == 0,
        model_file_name(clean_name(n1)) == model_file_name(clean_name(n2)),
        search_paths(clean_name(n1), base, kind, parent, cwd) == search_paths(
            clean_name(n2),
            base,
            kind,
            parent,
            cwd,
        ),
        forall|l: ModelLookup|
            #[trigger] lookup_for(l, n1, base, kind, parent, cwd) <==> lookup_for(
                l,
                n2,
                base,
                kind,
                parent,
                cwd,
            ),
{
}

/// Removing the forbidden characters from a concatenation removes them from
/// each part.
proof fn lemma_strip_forbidden_concat(a: Seq<char>, b: Seq<char>)
    ensures
        strip_forbidden(a + b) == strip_forbidden(a) + strip_forbidden(b),
    decreases b.len(),
{
    if b.len() == 0 {
        assert(a + b =~= a);
        assert(strip_forbidden(a) + strip_forbidden(b) =~= strip_forbidden(a));
    } else {
        lemma_strip_forbidden_concat(a, b.drop_last());
        assert((a + b).drop_last() =~= a + b.drop_last());
        assert((a + b).last() == b.last());
        if !is_forbidden_name_char(b.last()) {
            assert(strip_forbidden(a) + strip_forbidden(b.drop_last()).push(b.last())
                =~= (strip_forbidden(a) + strip_forbidden(b.drop_last())).push(b.last()));
        }
    }
}

/// A text that neither starts nor ends with white space is its own trim.
proof fn lemma_trim_unpadded(s: Seq<char>)
    requires
        s.len() > 0,
        !is_white_space(s[0]),
        !is_white_space(s.last()),
    ensures
        trim(s) == s,
{
    assert(leading_ws(s) == 0);
    assert(s.skip(0) =~= s);
    assert(crate::text::trailing_ws(s) == 0);
    assert(s.take(s.len() as int) =~= s);
}

/// The `.rkllm` suffix of a model name is optional: for a plain name (not
/// empty, already trimmed, without forbidden characters, not ending in
/// `.rkllm`), the name with and without the suffix are both looked up, under
/// the same file name and, unless the configured path is a directory (where
/// the model's own subdirectory is named after the name as given), at the
/// same paths.
pub proof fn lemma_model_extension_is_optional(
    n: Seq<char>,
    base: Seq<char>,
    kind: BasePathKind,
    parent: Option<Seq<char>>,
    cwd: Option<Seq<char>>,
)
    requires
        n.len() > 0,
        trim(n) == n,
        forall|i: int| 0 <= i < n.len() ==> !is_forbidden_name_char(#[trigger] n[i]),
        !ends_with_model_extension(n),
    ensures
        clean_name(n) == n,
        clean_name(n + dotted_model_extension()) == n + dotted_model_extension(),
        model_file_name(clean_name(n + dotted_model_extension())) == model_file_name(
            clean_name(n),
        ),
        kind != BasePathKind::Directory ==> search_paths(
            clean_name(n + dotted_model_extension()),
            base,
            kind,
            parent,
            cwd,
        ) == search_paths(clean_name(n), base, kind, parent, cwd),
{
    let e = dotted_model_extension();
    let f = n + e;
    lemma_strip_forbidden_identity(n);
    lemma_strip_forbidden_concat(n, e);
    assert forall|i: int| 0 <= i < e.len() implies !is_forbidden_name_char(#[trigger] e[i]) by {}
    lemma_strip_forbidden_identity(e);
    lemma_trim_shape(n);
    assert(!is_white_space(f[0])) by {
        assert(f[0] == n[0]);
    }
    assert(f.last() == 'm');
    lemma_trim_unpadded(f);
    assert(f.subrange(f.len() - 6, f.len() as int) =~= e);
}

/// Whether the `k`-th entry is the first one in the listing that holds the
/// model `m`.
pub open spec fn is_first_entry_of(entries: Seq<(Seq<char>, bool)>, m: Seq<char>, k: int) -> bool {
    &&& 0 <= k < entries.len()
    &&& model_of_entry(entries[k]) == Some(m)
    &&& forall|j: int| 0 <= j < k ==> model_of_entry(entries[j]) != Some(m)
}

/// Whether some entry of the listing holds the model `m`, a first one among them.
pub open spec fn has_first_entry(entries: Seq<(Seq<char>, bool)>, m: Seq<char>) -> bool {
    exists|k: int| is_first_entry_of(entries, m, k)
}

proof fn lemma_first_entry_unique(entries: Seq<(Seq<char>, bool)>, m: Seq<char>, k1: int, k2: int)
    requires
        is_first_entry_of(entries, m, k1),
        0 <= k2 < entries.len(),
        model_of_entry(entries[k2]) == Some(m),
    ensures
        k1 <= k2,
{
}

/// The listed model names come in the order in which each first appears
/// among the entries: every listed name has a first entry, and a name listed
/// before another first appears before it.
pub proof fn lemma_listed_in_order_of_first_appearance(entries: Seq<(Seq<char>, bool)>)
    ensures
        forall|i: int|
            0 <= i < listed_models(entries).len() ==> has_first_entry(
                entries,
                #[trigger] listed_models(entries)[i],
            ),
        forall|i: int, j: int, ki: int, kj: int|
            0 <= i < j < listed_models(entries).len() && #[trigger] is_first_entry_of(
                entries,
                listed_models(entries)[i],
                ki,
            ) && #[trigger] is_first_entry_of(entries, listed_models(entries)[j], kj) ==> ki
                < kj,
    decreases entries.len(),
{
    if entries.len() > 0 {
        let pe = entries.drop_last();
        let prev = listed_models(pe);
        let cur = listed_models(entries);
        let n = entries.len() - 1;
        lemma_listed_in_order_of_first_appearance(pe);
        lemma_listed_models(pe);
        lemma_listed_models(entries);
        assert forall|m: Seq<char>, k: int| is_first_entry_of(pe, m, k) implies is_first_entry_of(
            entries,
            m,
            k,
        ) by {
            assert forall|j: int| 0 <= j < k implies model_of_entry(entries[j]) != Some(m) by {
                assert(entries[j] == pe[j]);
            }
            assert(entries[k] == pe[k]);
        }
        let grew = model_of_entry(entries.last()) is Some && !prev.contains(
            model_of_entry(entries.last())->0,
        );
        if grew {
            let m = model_of_entry(entries.last())->0;
            assert(cur == prev.push(m));
            assert(is_first_entry_of(entries, m, n)) by {
                assert forall|j: int| 0 <= j < n implies model_of_entry(entries[j]) != Some(m) by {
                    assert(entries[j] == pe[j]);
                    if model_of_entry(pe[j]) == Some(m) {
                        assert(prev.contains(m));
                    }
                }
            }
        } else {
            assert(cur == prev);
        }
        assert forall|i: int| 0 <= i < cur.len() implies has_first_entry(entries, #[trigger] cur[i]) by {
            if i < prev.len() {
                assert(cur[i] == prev[i]);
                assert(has_first_entry(pe, prev[i]));
                let k = choose|k: int| is_first_entry_of(pe, prev[i], k);
                assert(is_first_entry_of(entries, cur[i], k));
            } else {
                assert(is_first_entry_of(entries, cur[i], n));
            }
        }
        assert forall|i: int, j: int, ki: int, kj: int|
            0 <= i < j < cur.len() && #[trigger] is_first_entry_of(entries, cur[i], ki)
                && #[trigger] is_first_entry_of(entries, cur[j], kj) implies ki < kj by {
            assert(cur[i] == prev[i]);
            assert(has_first_entry(pe, prev[i]));
            let k0 = choose|k: int| is_first_entry_of(pe, prev[i], k);
            assert(is_first_entry_of(entries, cur[i], k0));
            lemma_first_entry_unique(entries, cur[i], ki, k0);
            lemma_first_entry_unique(entries, cur[i], k0, ki);
            if j < prev.len() {
                assert(cur[j] == prev[j]);
                assert(has_first_entry(pe, prev[j]));
                let k1 = choose|k: int| is_first_entry_of(pe, prev[j], k);
                assert(is_first_entry_of(entries, cur[j], k1));
                lemma_first_entry_unique(entries, cur[j], kj, k1);
                lemma_first_entry_unique(entries, cur[j], k1, kj);
                assert(is_first_entry_of(pe, prev[i], k0));
                assert(is_first_entry_of(pe, prev[j], k1));
            } else {
                assert(is_first_entry_of(entries, cur[j], n));
                lemma_first_entry_unique(entries, cur[j], kj, n);
                lemma_first_entry_unique(entries, cur[j], n, kj);
            }
        }
    }
}

/// The listings of the search directories are read one after the other, so
/// with `dir_of[k]` the position of the directory that holds entry `k`
/// (never decreasing along the entries), the listed names are grouped by the
/// first directory that holds them, in the order of the directories.
pub proof fn lemma_listed_grouped_by_directory(entries: Seq<(Seq<char>, bool)>, dir_of: Seq<int>)
    requires
        dir_of.len() == entries.len(),
        forall|a: int, b: int| 0 <= a <= b < dir_of.len() ==> #[trigger] dir_of[a] <= #[trigger] dir_of[b],
    ensures
        forall|i: int, j: int, ki: int, kj: int|
            0 <= i < j < listed_models(entries).len() && #[trigger] is_first_entry_of(
                entries,
                listed_models(entries)[i],
                ki,
            ) && #[trigger] is_first_entry_of(entries, listed_models(entries)[j], kj)
                ==> dir_of[ki] <= dir_of[kj],
{
    lemma_listed_in_order_of_first_appearance(entries);
    assert forall|i: int, j: int, ki: int, kj: int|
        0 <= i < j < listed_models(entries).len() && #[trigger] is_first_entry_of(
            entries,
            listed_models(entries)[i],
            ki,
        ) && #[trigger] is_first_entry_of(entries, listed_models(entries)[j], kj) implies dir_of[ki]
        <= dir_of[kj] by {
        assert(ki < kj);
        assert(dir_of[ki] <= dir_of[kj]);
    }
}


/// The model file of a clean name (one not already ending in `.rkllm`) is
/// listed under that very name.
pub proof fn lemma_model_file_listed_as(clean: Seq<char>)
    requires
        clean.len() > 0,
        !ends_with_model_extension(clean),
    ensures
        model_of_entry((model_file_name(clean), true)) == Some(clean),
{
    let f = model_file_name(clean);
    let e = dotted_model_extension();
    assert(f == clean + e);
    let g5 = clean.push('.');
    let g4 = g5.push('r');
    let g3 = g4.push('k');
    let g2 = g3.push('l');
    let g1 = g2.push('l');
    assert(f =~= g1.push('m'));
    assert(last_dot(g5) == clean.len());
    assert(g4.drop_last() =~= g5);
    assert(last_dot(g4) == clean.len());
    assert(g3.drop_last() =~= g4);
    assert(last_dot(g3) == clean.len());
    assert(g2.drop_last() =~= g3);
    assert(last_dot(g2) == clean.len());
    assert(g1.drop_last() =~= g2);
    assert(last_dot(g1) == clean.len());
    assert(g1.push('m').drop_last() =~= g1);
    assert(last_dot(f) == clean.len());
    assert(f.take(clean.len() as int) =~= clean);
    assert(f.skip(clean.len() + 1int) =~= model_extension());
}

/// A model file in a listing puts its model among the listed names.
pub proof fn lemma_model_file_is_listed(entries: Seq<(Seq<char>, bool)>, k: int, clean: Seq<char>)
    requires
        0 <= k < entries.len(),
        entries[k] == (model_file_name(clean), true),
        clean.len() > 0,
        !ends_with_model_extension(clean),
    ensures
        listed_models(entries).contains(clean),
{
    lemma_model_file_listed_as(clean);
    lemma_listed_models(entries);
    assert(model_of_entry(entries[k]) == Some(clean));
}

/// Every listed model can be looked up by its listed name: a model file
/// listed from one of the search directories is, under its stem, among the
/// candidate paths of the lookup (so the lookup finds it while it is there).
/// This holds for clean stems not ending in `.rkllm`, unless the configured
/// path is missing while its parent is a directory: that parent is listed
/// but not searched.
pub proof fn lemma_listed_model_is_searched(
    entry: (Seq<char>, bool),
    d: Seq<char>,
    base: Seq<char>,
    kind: BasePathKind,
    parent: Option<Seq<char>>,
    parent_is_dir: bool,
    cwd: Option<Seq<char>>,
    models_dir_is_dir: bool,
)
    requires
        model_of_entry(entry) is Some,
        clean_name(model_of_entry(entry)->0) == model_of_entry(entry)->0,
        !ends_with_model_extension(model_of_entry(entry)->0),
        search_dirs(
            base,
            kind == BasePathKind::Directory,
            parent,
            parent_is_dir,
            cwd,
            models_dir_is_dir,
        ).contains(d),
        kind == BasePathKind::Missing ==> !parent_is_dir,
    ensures
        clean_name(model_of_entry(entry)->0).len() > 0,
        search_paths(clean_name(model_of_entry(entry)->0), base, kind, parent, cwd).contains(
            join_path(d, entry.0),
        ),
{
    let m = model_of_entry(entry)->0;
    lemma_last_dot(entry.0);
    lemma_listed_model_names_its_file(entry);
    let file = model_file_name(m);
    assert(file == entry.0);
    let dirs = search_dirs(
        base,
        kind == BasePathKind::Directory,
        parent,
        parent_is_dir,
        cwd,
        models_dir_is_dir,
    );
    let paths = search_paths(m, base, kind, parent, cwd);
    let i = choose|i: int| 0 <= i < dirs.len() && dirs[i] == d;
    let first: Seq<Seq<char>> = if kind == BasePathKind::Directory {
        seq![base]
    } else {
        match parent {
            Some(p) => if parent_is_dir {
                seq![p]
            } else {
                seq![]
            },
            None => seq![],
        }
    };
    let from_base_len: int = match kind {
        BasePathKind::Directory => 2,
        BasePathKind::File => if parent is Some {
            1
        } else {
            0
        },
        BasePathKind::Missing => 0,
    };
    if i < first.len() {
        assert(paths[0] == join_path(d, file));
    } else {
        let c = cwd->0;
        if i == first.len() {
            assert(d == c);
            assert(paths[from_base_len] == join_path(d, file));
        } else {
            assert(d == join_path(c, models_dir_name()));
            assert(paths[from_base_len + 1] == join_path(d, file));
        }
    }
}

/// A model found by a lookup is listed, unless it was found in the model's
/// own subdirectory of the configured directory (which is searched but not
/// listed): every other candidate path is the model file inside one of the
/// search directories. This needs the directories that hold a found file to
/// be seen as directories: the parent of a configured file, and the
/// `models` subdirectory when the file was found there.
pub proof fn lemma_found_model_is_in_a_listed_dir(
    clean: Seq<char>,
    path: Seq<char>,
    base: Seq<char>,
    kind: BasePathKind,
    parent: Option<Seq<char>>,
    parent_is_dir: bool,
    cwd: Option<Seq<char>>,
    models_dir_is_dir: bool,
)
    requires
        search_paths(clean, base, kind, parent, cwd).contains(path),
        kind == BasePathKind::Directory ==> path != join_path(
            join_path(base, clean),
            model_file_name(clean),
        ),
        kind == BasePathKind::File ==> parent_is_dir,
        cwd matches Some(c) && path == join_path(join_path(c, models_dir_name()), model_file_name(clean))
            ==> models_dir_is_dir,
    ensures
        exists|d: Seq<char>|
            search_dirs(
                base,
                kind == BasePathKind::Directory,
                parent,
                parent_is_dir,
                cwd,
                models_dir_is_dir,
            ).contains(d) && path == join_path(d, model_file_name(clean)),
{
    let file = model_file_name(clean);
    let dirs = search_dirs(
        base,
        kind == BasePathKind::Directory,
        parent,
        parent_is_dir,
        cwd,
        models_dir_is_dir,
    );
    let paths = search_paths(clean, base, kind, parent, cwd);
    let i = choose|i: int| 0 <= i < paths.len() && paths[i] == path;
    let from_base_len: int = match kind {
        BasePathKind::Directory => 2,
        BasePathKind::File => if parent is Some {
            1
        } else {
            0
        },
        BasePathKind::Missing => 0,
    };
    let first_len: int = if kind == BasePathKind::Directory {
        1
    } else {
        match parent {
            Some(p) => if parent_is_dir {
                1
            } else {
                0
            },
            None => 0,
        }
    };
    if i < from_base_len {
        assert(i == 0);
        assert(dirs[0] == (if kind == BasePathKind::Directory { base } else { parent->0 }));
        assert(dirs.contains(dirs[0]) && path == join_path(dirs[0], file));
    } else {
        let c = cwd->0;
        if i == from_base_len {
            assert(dirs[first_len] == c);
            assert(dirs.contains(dirs[first_len]) && path == join_path(dirs[first_len], file));
        } else {
            assert(path == join_path(join_path(c, models_dir_name()), file));
            assert(dirs[first_len + 1] == join_path(c, models_dir_name()));
            assert(dirs.contains(dirs[first_len + 1]) && path == join_path(
                dirs[first_len + 1],
                file,
            ));
        }
    }
}


/// The places a model file is looked for: the configured directory and the
/// model's subdirectory of it (when the configured path is a directory), the
/// parent of a configured file, the working directory and its `models`
/// subdirectory.
pub open spec fn is_search_place(
    d: Seq<char>,
    clean: Seq<char>,
    base: Seq<char>,
    kind: BasePathKind,
    parent: Option<Seq<char>>,
    cwd: Option<Seq<char>>,
) -> bool {
    ||| kind == BasePathKind::Directory && (d == base || d == join_path(base, clean))
    ||| kind == BasePathKind::File && parent == Some(d)
    ||| cwd == Some(d)
    ||| (cwd matches Some(c) && d == join_path(c, models_dir_name()))
}

/// A lookup never leaves its search places: every candidate path is the
/// model's file name (which holds no path separator or other forbidden
/// character) directly inside one of them.
pub proof fn lemma_lookup_stays_in_search_places(
    name: Seq<char>,
    base: Seq<char>,
    kind: BasePathKind,
    parent: Option<Seq<char>>,
    cwd: Option<Seq<char>>,
)
    ensures
        forall|i: int|
            0 <= i < model_file_name(clean_name(name)).len() ==> !is_forbidden_name_char(
                #[trigger] model_file_name(clean_name(name))[i],
            ),
        forall|i: int|
            0 <= i < search_paths(clean_name(name), base, kind, parent, cwd).len() ==> exists|
                d: Seq<char>,
            |
                is_search_place(d, clean_name(name), base, kind, parent, cwd) && #[trigger] search_paths(
                    clean_name(name),
                    base,
                    kind,
                    parent,
                    cwd,
                )[i] == join_path(d, model_file_name(clean_name(name))),
{
    let clean = clean_name(name);
    let file = model_file_name(clean);
    let paths = search_paths(clean, base, kind, parent, cwd);
    lemma_clean_name(name);
    assert forall|i: int| 0 <= i < file.len() implies !is_forbidden_name_char(#[trigger] file[i]) by {
        if i >= clean.len() && !ends_with_model_extension(clean) {
            assert(file[i] == dotted_model_extension()[i - clean.len()]);
        }
    }
    let from_base_len: int = match kind {
        BasePathKind::Directory => 2,
        BasePathKind::File => if parent is Some {
            1
        } else {
            0
        },
        BasePathKind::Missing => 0,
    };
    assert forall|i: int| 0 <= i < paths.len() implies exists|d: Seq<char>|
        is_search_place(d, clean, base, kind, parent, cwd) && #[trigger] paths[i] == join_path(
            d,
            file,
        ) by {
        if i < from_base_len {
            if kind == BasePathKind::Directory {
                if i == 0 {
                    assert(is_search_place(base, clean, base, kind, parent, cwd));
                } else {
                    assert(is_search_place(join_path(base, clean), clean, base, kind, parent, cwd));
                }
            } else {
                assert(is_search_place(parent->0, clean, base, kind, parent, cwd));
            }
        } else {
            let c = cwd->0;
            if i == from_base_len {
                assert(paths[i] == join_path(c, file));
                assert(is_search_place(c, clean, base, kind, parent, cwd));
            } else {
                assert(paths[i] == join_path(join_path(c, models_dir_name()), file));
                assert(is_search_place(join_path(c, models_dir_name()), clean, base, kind, parent, cwd));
            }
        }
    }
}


/// How many candidates the configured path contributes: the file in the
/// directory and in the model's subdirectory of it, or the file next to a
/// configured file, or none.
pub open spec fn configured_candidate_count(kind: BasePathKind, parent: Option<Seq<char>>) -> int {
    match kind {
        BasePathKind::Directory => 2,
        BasePathKind::File => if parent is Some {
            1
        } else {
            0
        },
        BasePathKind::Missing => 0,
    }
}

/// The search follows the documented priority: first the candidates from
/// the configured path (in the directory, then in the model's subdirectory;
/// or next to a configured file), then, after all of them, the working
/// directory and its `models` subdirectory, in that order.
pub proof fn lemma_search_priority(
    clean: Seq<char>,
    base: Seq<char>,
    kind: BasePathKind,
    parent: Option<Seq<char>>,
    cwd: Option<Seq<char>>,
)
    ensures
        ({
            let paths = search_paths(clean, base, kind, parent, cwd);
            let file = model_file_name(clean);
            let n = configured_candidate_count(kind, parent);
            &&& paths.len() == n + (if cwd is Some { 2int } else { 0int })
            &&& kind == BasePathKind::Directory ==> paths[0] == join_path(base, file)
                && paths[1] == join_path(join_path(base, clean), file)
            &&& (kind == BasePathKind::File && parent is Some) ==> paths[0] == join_path(
                parent->0,
                file,
            )
            &&& cwd matches Some(c) ==> paths[n] == join_path(c, file) && paths[n + 1]
                == join_path(join_path(c, models_dir_name()), file)
        }),
{
}

} // verus!
