//! Paths as strings: the filename filter and the mirror that sends every
//! file under the input root to its place under the output root.
//!
//! A path is an absolute string whose components are parted by `/`. The
//! functions here read it character by character and never ask the file
//! system anything.

use vstd::prelude::*;
use vstd::string::*;
use crate::text::{chars_of, ends_with, find_last, has_prefix, last_index_of, lemma_last_index_of, starts_with};

verus! {

/// What parts the components of a path.
pub const SEPARATOR: char = '/';

/// The four characters a candidate's name ends in.
pub open spec fn wav_suffix() -> Seq<char> {
    seq!['.', 'w', 'a', 'v']
}

/// The name ends in `.wav`, in exactly that case.
pub open spec fn is_wav_name(name: Seq<char>) -> bool {
    ends_with(name, wav_suffix())
}

/// A regular file whose name ends in `.wav`.
pub open spec fn is_candidate(path: Seq<char>, is_file: bool) -> bool {
    is_file && is_wav_name(path)
}

pub open spec fn is_absolute(path: Seq<char>) -> bool {
    path.len() > 0 && path[0] == SEPARATOR
}

pub open spec fn ends_in_separator(path: Seq<char>) -> bool {
    path.len() > 0 && path.last() == SEPARATOR
}

/// Nothing has to part `root` from what is joined onto it: it is empty or
/// brings its own separator.
pub open spec fn closes_component(root: Seq<char>) -> bool {
    root.len() == 0 || ends_in_separator(root)
}

/// `path` is `root` itself or lies below it: `root` is its beginning and
/// ends where a component of `path` ends.
pub open spec fn under_root(root: Seq<char>, path: Seq<char>) -> bool {
    &&& starts_with(path, root)
    &&& (path.len() == root.len() || closes_component(root) || path[root.len() as int]
        == SEPARATOR)
}

/// What is left of `path` once `root` and the separator after it are taken
/// away. Empty for `root` itself.
pub open spec fn suffix_of(root: Seq<char>, path: Seq<char>) -> Seq<char> {
    if path.len() == root.len() || closes_component(root) {
        path.skip(root.len() as int)
    } else {
        path.skip(root.len() as int + 1)
    }
}

/// `suffix` below `root`, with one separator between the two unless `root`
/// brings its own. An empty suffix gives `root` back.
pub open spec fn join(root: Seq<char>, suffix: Seq<char>) -> Seq<char> {
    if suffix.len() == 0 {
        root
    } else if closes_component(root) {
        root + suffix
    } else {
        root + seq![SEPARATOR] + suffix
    }
}

/// The output path of `path`: its suffix below `input_root`, joined onto
/// `output_root`.
pub open spec fn mirrored(input_root: Seq<char>, output_root: Seq<char>, path: Seq<char>) -> Seq<
    char,
> {
    join(output_root, suffix_of(input_root, path))
}

/// The directory a path lies in: everything before its last separator, the
/// root directory for a path directly below it, nothing for the root
/// directory itself and for a bare name.
pub open spec fn parent_of(path: Seq<char>) -> Option<Seq<char>> {
    let i = last_index_of(path, SEPARATOR);
    if i < 0 || path.len() == 1 {
        None
    } else if i == 0 {
        Some(seq![SEPARATOR])
    } else {
        Some(path.take(i))
    }
}

/// Whether a name ends in `.wav`. The match is case-sensitive.
pub fn has_wav_suffix(name: &str) -> (b: bool)
    ensures
        b == is_wav_name(name@),
{
    let chars = chars_of(name);
    let n = chars.len();
    if n < 4 {
        return false;
    }
    let b = chars[n - 4] == '.' && chars[n - 3] == 'w' && chars[n - 2] == 'a' && chars[n - 1]
        == 'v';
    proof {
        if b {
            assert(name@.skip(n - 4) =~= wav_suffix());
        }
    }
    b
}

/// Why a path has no place in the output tree.
#[derive(Clone, Copy, Debug, PartialEq, Eq, Structural)]
pub enum MapError {
    /// The path does not lie under the input root.
    NotUnderRoot,
}

/// A file found under the input root, with its place in the output tree.
#[derive(Clone, Debug, PartialEq, Eq)]
pub struct Candidate {
    /// The path of the file.
    pub input: String,
    /// What is left of that path below the input root.
    pub suffix: String,
    /// The suffix again, below the output root.
    pub output: String,
}

/// Why two strings do not make a pair of roots.
#[derive(Clone, Copy, Debug, PartialEq, Eq, Structural)]
pub enum RootsError {
    InputNotAbsolute,
    OutputNotAbsolute,
}

/// The two directories that bound a run: where files are read and where
/// their denoised copies go. Both are absolute.
#[derive(Debug)]
pub struct Roots {
    input: String,
    output: String,
}

fn begins_with_separator(path: &str) -> (b: bool)
    ensures
        b == is_absolute(path@),
{
    let chars = chars_of(path);
    chars.len() > 0 && chars[0] == SEPARATOR
}

impl Roots {
    pub closed spec fn input_root(&self) -> Seq<char> {
        self.input@
    }

    pub closed spec fn output_root(&self) -> Seq<char> {
        self.output@
    }

    /// Both roots are absolute.
    pub open spec fn wf(&self) -> bool {
        is_absolute(self.input_root()) && is_absolute(self.output_root())
    }

    /// Pairs an input root with an output root. Each has to be absolute.
    pub fn new(input: String, output: String) -> (res: Result<Roots, RootsError>)
        ensures
            match res {
                Ok(roots) => roots.wf() && roots.input_root() == input@ && roots.output_root()
                    == output@,
                Err(RootsError::InputNotAbsolute) => !is_absolute(input@),
                Err(RootsError::OutputNotAbsolute) => is_absolute(input@) && !is_absolute(
                    output@,
                ),
            },
    {
        if !begins_with_separator(input.as_str()) {
            Err(RootsError::InputNotAbsolute)
        } else if !begins_with_separator(output.as_str()) {
            Err(RootsError::OutputNotAbsolute)
        } else {
            Ok(Roots { input, output })
        }
    }

    pub fn input(&self) -> (s: &str)
        ensures
            s@ == self.input_root(),
    {
        self.input.as_str()
    }

    pub fn output(&self) -> (s: &str)
        ensures
            s@ == self.output_root(),
    {
        self.output.as_str()
    }

    /// The candidate at `path`, or an error where `path` does not lie under
    /// the input root.
    pub fn candidate(&self, path: &str) -> (res: Result<Candidate, MapError>)
        ensures
            match res {
                Ok(found) => {
                    &&& under_root(self.input_root(), path@)
                    &&& found.input@ == path@
                    &&& found.suffix@ == suffix_of(self.input_root(), path@)
                    &&& found.output@ == join(self.output_root(), found.suffix@)
                },
                Err(e) => !under_root(self.input_root(), path@),
            },
    {
        match strip_root(self.input.as_str(), path) {
            Some(suffix) => {
                let output = join_path(self.output.as_str(), suffix.as_str());
                Ok(Candidate { input: String::from_str(path), suffix, output })
            },
            None => Err(MapError::NotUnderRoot),
        }
    }

    /// The mirrored output path of `path`, or an error where `path` does not
    /// lie under the input root.
    pub fn mirror(&self, path: &str) -> (res: Result<String, MapError>)
        ensures
            match res {
                Ok(out) => under_root(self.input_root(), path@) && out@ == mirrored(
                    self.input_root(),
                    self.output_root(),
                    path@,
                ),
                Err(e) => !under_root(self.input_root(), path@),
            },
    {
        match self.candidate(path) {
            Ok(found) => Ok(found.output),
            Err(e) => Err(e),
        }
    }
}

/// The suffix of `path` below `root`, or `None` where `path` does not lie
/// under `root`.
pub fn strip_root(root: &str, path: &str) -> (res: Option<String>)
    ensures
        match res {
            Some(suffix) => under_root(root@, path@) && suffix@ == suffix_of(root@, path@),
            None => !under_root(root@, path@),
        },
{
    let r = chars_of(root);
    let p = chars_of(path);
    if !has_prefix(&p, &r) {
        return None;
    }
    let rl = r.len();
    let pl = p.len();
    let start: usize = if pl == rl || rl == 0 || r[rl - 1] == SEPARATOR {
        rl
    } else if p[rl] == SEPARATOR {
        rl + 1
    } else {
        return None;
    };
    Some(String::from_str(path.substring_char(start, pl)))
}

/// `suffix` placed below `root`.
pub fn join_path(root: &str, suffix: &str) -> (res: String)
    ensures
        res@ == join(root@, suffix@),
{
    let mut out = String::from_str(root);
    let s = chars_of(suffix);
    if s.len() == 0 {
        return out;
    }
    let r = chars_of(root);
    if r.len() > 0 && r[r.len() - 1] != SEPARATOR {
        proof {
            reveal_strlit("/");
        }
        out.append("/");
    }
    out.append(suffix);
    out
}

/// The directory `path` lies in, if it has one.
pub fn parent_dir(path: &str) -> (res: Option<String>)
    ensures
        match res {
            Some(dir) => parent_of(path@) == Some(dir@),
            None => parent_of(path@) is None,
        },
{
    let p = chars_of(path);
    if p.len() == 1 {
        return None;
    }
    match find_last(&p, SEPARATOR) {
        None => None,
        Some(i) => {
            if i == 0 {
                proof {
                    reveal_strlit("/");
                }
                Some(String::from_str("/"))
            } else {
                proof {
                    lemma_last_index_of(path@, SEPARATOR);
                }
                Some(String::from_str(path.substring_char(0, i)))
            }
        },
    }
}

/// The mirror keeps the suffix: what lies below the input root lies, letter
/// for letter, below the output root.
pub proof fn lemma_mirror_keeps_suffix(
    input_root: Seq<char>,
    output_root: Seq<char>,
    path: Seq<char>,
)
    requires
        under_root(input_root, path),
    ensures
        under_root(output_root, mirrored(input_root, output_root, path)),
        suffix_of(output_root, mirrored(input_root, output_root, path)) == suffix_of(
            input_root,
            path,
        ),
{
    let out = mirrored(input_root, output_root, path);
    assert(out.take(output_root.len() as int) =~= output_root);
}

/// A path under the input root that names the root itself goes to the
/// output root.
pub proof fn lemma_root_goes_to_root(input_root: Seq<char>, output_root: Seq<char>)
    ensures
        under_root(input_root, input_root),
        mirrored(input_root, output_root, input_root) == output_root,
{
    assert(input_root.take(input_root.len() as int) =~= input_root);
}

/// A path under a root is put together again from the root and its suffix.
proof fn lemma_path_from_suffix(root: Seq<char>, path: Seq<char>)
    requires
        under_root(root, path),
        !ends_in_separator(path),
    ensures
        path == join(root, suffix_of(root, path)),
{
}

/// Joining onto one root is one-to-one in the suffix.
proof fn lemma_join_one_to_one(root: Seq<char>, a: Seq<char>, b: Seq<char>)
    requires
        join(root, a) == join(root, b),
    ensures
        a == b,
{
    let n = root.len() as int;
    if a.len() > 0 && b.len() > 0 {
        if closes_component(root) {
            assert((root + b).skip(n) =~= b);
        } else {
            assert((root + seq![SEPARATOR] + b).skip(n + 1) =~= b);
        }
    }
}

/// Two files under the input root never share an output path. (A path that
/// ends in a separator names a directory, not a file.)
pub proof fn lemma_mirror_one_to_one(
    input_root: Seq<char>,
    output_root: Seq<char>,
    a: Seq<char>,
    b: Seq<char>,
)
    requires
        under_root(input_root, a),
        under_root(input_root, b),
        !ends_in_separator(a),
        !ends_in_separator(b),
        mirrored(input_root, output_root, a) == mirrored(input_root, output_root, b),
    ensures
        a == b,
{
    lemma_join_one_to_one(output_root, suffix_of(input_root, a), suffix_of(input_root, b));
    lemma_path_from_suffix(input_root, a);
    lemma_path_from_suffix(input_root, b);
}

} // verus!
