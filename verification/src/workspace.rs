//! Where a package lies among its neighbours.

use vstd::prelude::*;
use std::path::Path;

verus! {

/// Calls `std::path::Path::parent` on `dir` and hands back its answer as a
/// text: the path without its final component, or nothing where the path
/// ends in a root or is empty. Which paths those are depends on the
/// platform, so nothing is promised of the answer here, neither that there
/// is one nor what it is. What is made of the answer is decided by
/// `directory_above`, which takes it as it comes.
#[verifier::external_body]
fn parent(dir: &str) -> (above: Option<String>)
{
    Path::new(dir).parent().and_then(Path::to_str).map(String::from)
}

/// The directory that holds the package directory `manifest_dir`, if there
/// is one: `manifest_dir` without its final component.
pub fn project_root(manifest_dir: &str) -> (root: Option<String>)
    ensures
        root matches Some(p) ==> p@.len() < manifest_dir@.len() && p@ == manifest_dir@.subrange(
            0,
            p@.len() as int,
        ),
        manifest_dir@.len() == 0 ==> root is None,
{
    directory_above(manifest_dir, parent(manifest_dir))
}

/// Whether `beginning` is what `whole` starts with, and shorter than `whole`.
pub open spec fn proper_beginning(beginning: Seq<char>, whole: Seq<char>) -> bool {
    beginning.len() < whole.len() && beginning == whole.subrange(0, beginning.len() as int)
}

/// Whether `beginning` is what `whole` starts with, and shorter than `whole`.
pub fn begins_properly(beginning: &str, whole: &str) -> (b: bool)
    ensures
        b == proper_beginning(beginning@, whole@),
{
    let short = crate::lexer::characters(beginning);
    let long = crate::lexer::characters(whole);
    if short.len() >= long.len() {
        return false;
    }
    let mut i: usize = 0;
    while i < short.len()
        invariant
            i <= short.len() < long.len(),
            short@ == beginning@,
            long@ == whole@,
            forall|j: int| 0 <= j < i ==> short@[j] == long@[j],
        decreases short.len() - i,
    {
        if short[i] != long[i] {
            assert(whole@.subrange(0, short.len() as int)[i as int] != beginning@[i as int]);
            return false;
        }
        i += 1;
    }
    assert(beginning@ =~= whole@.subrange(0, beginning@.len() as int));
    true
}

/// What is made of the answer `above` to the question which directory holds
/// `manifest_dir`. A directory that holds another has a path with which the
/// path of the other begins. So an answer that is a proper beginning of
/// `manifest_dir` stands as it is; any other answer counts as none.
pub fn directory_above(manifest_dir: &str, above: Option<String>) -> (root: Option<String>)
    ensures
        root == match above {
            Some(p) => if proper_beginning(p@, manifest_dir@) {
                above
            } else {
                None
            },
            None => None,
        },
{
    match above {
        Some(p) => {
            if begins_properly(p.as_str(), manifest_dir) {
                Some(p)
            } else {
                None
            }
        },
        None => None,
    }
}

} // verus!
