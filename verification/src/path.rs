//! Paths as text. The library keeps every path as a `String` and leaves
//! what a path means to `std::path`: how two paths are joined, when two
//! spellings name the same path, and what a file's extension is.

use vstd::prelude::*;

use crate::text::texts;

verus! {

/// What `std::path::Path::join` gives for `base` and `rel`, on the platform
/// that the library is built for.
pub uninterp spec fn joined(base: Seq<char>, rel: Seq<char>) -> Seq<char>;

/// Whether `std::path::Path` holds `a` and `b` to be equal, on the platform
/// that the library is built for.
pub uninterp spec fn same_path(a: Seq<char>, b: Seq<char>) -> bool;

/// What `std::path::Path::extension` gives for `path`, on the platform that
/// the library is built for.
pub uninterp spec fn extension_of(path: Seq<char>) -> Option<Seq<char>>;

/// Calls `std::path::Path::join`: `rel` adjoined to `base`. Nothing is
/// claimed of the result but that it is the one `joined` names.
#[verifier::external_body]
pub(crate) fn join(base: &str, rel: &str) -> (path: String)
    ensures
        path@ == joined(base@, rel@),
{
    std::path::Path::new(base).join(rel).to_string_lossy().into_owned()
}

/// Compares two paths with the `==` of `std::path::Path`, which goes by
/// components. Nothing is claimed of the result but that it is the one
/// `same_path` names.
#[verifier::external_body]
pub(crate) fn equal(a: &str, b: &str) -> (same: bool)
    ensures
        same == same_path(a@, b@),
{
    std::path::Path::new(a) == std::path::Path::new(b)
}

/// Calls `std::path::Path::extension`. Nothing is claimed of the result
/// but that it is the one `extension_of` names.
#[verifier::external_body]
pub(crate) fn extension(path: &str) -> (ext: Option<String>)
    ensures
        match ext {
            Some(text) => extension_of(path@) == Some(text@),
            None => extension_of(path@) is None,
        },
{
    match std::path::Path::new(path).extension() {
        Some(ext) => Some(ext.to_string_lossy().into_owned()),
        None => None,
    }
}

/// Whether `path` is one of `paths`, by the equality of `std::path::Path`.
pub open spec fn listed(paths: Seq<Seq<char>>, path: Seq<char>) -> bool {
    exists|i: int| 0 <= i < paths.len() && same_path(#[trigger] paths[i], path)
}

/// Whether `path` is one of `paths`.
pub fn contains(paths: &Vec<String>, path: &str) -> (found: bool)
    ensures
        found == listed(texts(paths@), path@),
{
    let mut i: usize = 0;
    while i < paths.len()
        invariant
            i <= paths@.len(),
            forall|j: int| 0 <= j < i ==> !same_path(#[trigger] texts(paths@)[j], path@),
        decreases paths@.len() - i,
    {
        if equal(paths[i].as_str(), path) {
            assert(same_path(texts(paths@)[i as int], path@));
            return true;
        }
        i += 1;
    }
    false
}

/// The paths among `found` that `hidden` does not list, in their order.
pub fn without_listed(found: &Vec<String>, hidden: &Vec<String>) -> (kept: Vec<String>)
    ensures
        texts(kept@) == texts(found@).filter(|path: Seq<char>| !listed(texts(hidden@), path)),
{
    let ghost keep = |path: Seq<char>| !listed(texts(hidden@), path);
    let mut kept: Vec<String> = Vec::new();
    let mut i: usize = 0;
    proof {
        assert(texts(found@.take(0)) =~= Seq::<Seq<char>>::empty());
        assert(texts(kept@) =~= Seq::<Seq<char>>::empty());
        reveal(Seq::filter);
    }
    while i < found.len()
        invariant
            i <= found@.len(),
            keep == |path: Seq<char>| !listed(texts(hidden@), path),
            texts(kept@) == texts(found@.take(i as int)).filter(keep),
        decreases found@.len() - i,
    {
        proof {
            assert(texts(found@.take(i + 1)) =~= texts(found@.take(i as int)).push(
                found@[i as int]@,
            ));
            texts(found@.take(i as int)).lemma_filter_push(found@[i as int]@, keep);
        }
        if !contains(hidden, found[i].as_str()) {
            let ghost before = kept@;
            kept.push(found[i].clone());
            assert(texts(kept@) =~= texts(before).push(found@[i as int]@));
        }
        i += 1;
    }
    assert(found@.take(found@.len() as int) == found@);
    kept
}

/// The paths among `found` that are not the path `hidden`, in their order.
pub fn without(found: &Vec<String>, hidden: &str) -> (kept: Vec<String>)
    ensures
        texts(kept@) == texts(found@).filter(|path: Seq<char>| !same_path(path, hidden@)),
{
    let ghost keep = |path: Seq<char>| !same_path(path, hidden@);
    let mut kept: Vec<String> = Vec::new();
    let mut i: usize = 0;
    proof {
        assert(texts(found@.take(0)) =~= Seq::<Seq<char>>::empty());
        assert(texts(kept@) =~= Seq::<Seq<char>>::empty());
        reveal(Seq::filter);
    }
    while i < found.len()
        invariant
            i <= found@.len(),
            keep == |path: Seq<char>| !same_path(path, hidden@),
            texts(kept@) == texts(found@.take(i as int)).filter(keep),
        decreases found@.len() - i,
    {
        proof {
            assert(texts(found@.take(i + 1)) =~= texts(found@.take(i as int)).push(
                found@[i as int]@,
            ));
            texts(found@.take(i as int)).lemma_filter_push(found@[i as int]@, keep);
        }
        if !equal(found[i].as_str(), hidden) {
            let ghost before = kept@;
            kept.push(found[i].clone());
            assert(texts(kept@) =~= texts(before).push(found@[i as int]@));
        }
        i += 1;
    }
    assert(found@.take(found@.len() as int) == found@);
    kept
}

} // verus!
