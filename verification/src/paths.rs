//! Where a chunk is written, and the paths of a source map relative to that
//! place.
//!
//! Paths are host-native text. What the host's path rules make of them is
//! not spelled out here: it is named, and computed by `std::path` and by
//! `sugar_path`. Those rules are the ones of the platform the library is
//! compiled for; on that platform a path's parts, its parent and the way
//! from one path to another depend on the text of the paths alone. Nothing
//! in this module reads the file system or the process's working directory.

use crate::sourcemap::{SourceMap, SourceMapView};
use std::path::Path;
use sugar_path::SugarPath;
use vstd::prelude::*;

verus! {

/// Whether the host's path rules take `path` for absolute.
pub uninterp spec fn is_absolute_path(path: Seq<char>) -> bool;

/// `path` adjoined to `base` by the host's path rules.
pub uninterp spec fn joined_path(base: Seq<char>, path: Seq<char>) -> Seq<char>;

/// `path` without its final component, by the host's path rules; `None`
/// where it has none to drop.
pub uninterp spec fn parent_path(path: Seq<char>) -> Option<Seq<char>>;

/// The lexical path that leads from `base` to `target`, both resolved
/// against `cwd` where they are relative, by the host's path rules.
pub uninterp spec fn relative_path(target: Seq<char>, base: Seq<char>, cwd: Seq<char>) -> Seq<
    char,
>;

/// `std::path::Path::is_absolute` on a path given as text. The contract
/// names the answer; it claims nothing about which paths are absolute.
#[verifier::external_body]
fn path_is_absolute(path: &str) -> (r: bool)
    ensures
        r == is_absolute_path(path@),
{
    Path::new(path).is_absolute()
}

/// `std::path::Path::join` on paths given as text. The contract names the
/// adjoined path; text in, text out, so nothing is lost on the way back.
#[verifier::external_body]
fn path_join(base: &str, path: &str) -> (r: String)
    ensures
        r@ == joined_path(base@, path@),
{
    Path::new(base).join(path).to_string_lossy().into_owned()
}

/// `std::path::Path::parent` on a path given as text. The contract names
/// the parent, and with it the cases in which there is none.
#[verifier::external_body]
fn path_parent(path: &str) -> (r: Option<String>)
    ensures
        r is Some <==> parent_path(path@) is Some,
        r matches Some(p) ==> p@ == parent_path(path@)->0,
{
    match Path::new(path).parent() {
        Some(p) => Some(p.to_string_lossy().into_owned()),
        None => None,
    }
}

/// `sugar_path::SugarPath::relative_with` on paths given as text. That
/// function compares components only and never reads the process's working
/// directory; it panics where it needs `cwd` and `cwd` is not absolute, which
/// the precondition rules out. The contract names its result.
#[verifier::external_body]
fn path_relative_with(target: &str, base: &str, cwd: &str) -> (r: String)
    requires
        is_absolute_path(cwd@),
    ensures
        r@ == relative_path(target@, base@, cwd@),
{
    target.as_path().relative_with(base, cwd).to_string_lossy().into_owned()
}

/// The path of the file a chunk is written to: its file name under the
/// output directory under the working directory.
pub open spec fn emission_file(cwd: Seq<char>, dir: Seq<char>, file_name: Seq<char>) -> Seq<char> {
    joined_path(joined_path(cwd, dir), file_name)
}

/// The directory that will hold the chunk's file. A file name may bring
/// directories of its own, so this is the parent of the whole path, not the
/// output directory.
pub open spec fn emission_dir(cwd: Seq<char>, dir: Seq<char>, file_name: Seq<char>) -> Option<
    Seq<char>,
> {
    parent_path(emission_file(cwd, dir, file_name))
}

/// Every path of `sources`, in place, as it reads from `reference_dir`.
pub open spec fn relativized(
    sources: Seq<Seq<char>>,
    reference_dir: Seq<char>,
    cwd: Seq<char>,
) -> Seq<Seq<char>> {
    Seq::new(sources.len(), |i: int| relative_path(sources[i], reference_dir, cwd))
}

impl SourceMapView {
    /// This map with `sources` in place of its own.
    pub open spec fn with_sources(self, sources: Seq<Seq<char>>) -> SourceMapView {
        SourceMapView { sources, ..self }
    }
}

/// Computes [`emission_dir`].
pub fn locate_emission_dir(cwd: &str, dir: &str, file_name: &str) -> (r: Option<String>)
    ensures
        r is Some <==> emission_dir(cwd@, dir@, file_name@) is Some,
        r matches Some(d) ==> d@ == emission_dir(cwd@, dir@, file_name@)->0,
{
    let under_cwd = path_join(cwd, dir);
    let file = path_join(under_cwd.as_str(), file_name);
    path_parent(file.as_str())
}

/// Rewrites every source path of `map` to the path that leads to it from
/// `reference_dir`. Entries keep their number and their order, and nothing
/// else in the map changes. Separators are left as the host writes them.
pub fn relativize_sources(map: &mut SourceMap, reference_dir: &str, cwd: &str)
    requires
        is_absolute_path(cwd@),
    ensures
        final(map)@ == old(map)@.with_sources(
            relativized(old(map)@.sources, reference_dir@, cwd@),
        ),
{
    let ghost target = relativized(map@.sources, reference_dir@, cwd@);
    let mut rewritten: Vec<String> = Vec::new();
    let n = map.sources.len();
    let mut i: usize = 0;
    while i < n
        invariant
            *map == *old(map),
            n == map.sources@.len(),
            i <= n,
            is_absolute_path(cwd@),
            target == relativized(map@.sources, reference_dir@, cwd@),
            rewritten@.len() == i,
            forall|j: int| 0 <= j < i ==> (#[trigger] rewritten@[j])@ == target[j],
        decreases n - i,
    {
        let path = path_relative_with(map.sources[i].as_str(), reference_dir, cwd);
        rewritten.push(path);
        i = i + 1;
    }
    map.sources = rewritten;
    assert(map@.sources =~= target);
}

/// Why the source paths of a map could not be rewritten.
#[derive(Clone, Copy, Debug, PartialEq, Eq)]
pub enum PathError {
    /// The working directory is not an absolute path.
    RelativeWorkingDirectory,
}

/// [`relativize_sources`] for any working directory: rewrites the map where
/// `cwd` is absolute, and otherwise leaves it as it is and says so.
pub fn try_relativize_sources(map: &mut SourceMap, reference_dir: &str, cwd: &str) -> (r: Result<
    (),
    PathError,
>)
    ensures
        r is Ok <==> is_absolute_path(cwd@),
        r is Ok ==> final(map)@ == old(map)@.with_sources(
            relativized(old(map)@.sources, reference_dir@, cwd@),
        ),
        r is Err ==> *final(map) == *old(map),
{
    if path_is_absolute(cwd) {
        relativize_sources(map, reference_dir, cwd);
        Ok(())
    } else {
        Err(PathError::RelativeWorkingDirectory)
    }
}

/// Rewriting keeps the number and the order of the entries: entry `i` of
/// the result is what leads from the reference directory to entry `i` of the
/// input, whatever the other entries are.
pub proof fn lemma_relativized_in_place(
    sources: Seq<Seq<char>>,
    reference_dir: Seq<char>,
    cwd: Seq<char>,
)
    ensures
        relativized(sources, reference_dir, cwd).len() == sources.len(),
        forall|i: int|
            0 <= i < sources.len() ==> #[trigger] relativized(sources, reference_dir, cwd)[i]
                == relative_path(sources[i], reference_dir, cwd),
{
}

} // verus!
