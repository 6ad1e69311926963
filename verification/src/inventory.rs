//! The local inventory: which entries of the working directory are installs.

use crate::candidate::{DapBinarySource, DapBinarySourceView, UnityDapBinary, UnityDapBinaryView};
use crate::names::UNITY_DAP_DIR_NAME;
use crate::text::has_prefix;
use vstd::prelude::*;

verus! {

/// An entry counts as an install when its name begins with the install
/// directories' common prefix.
pub open spec fn is_install_name(name: Seq<char>) -> bool {
    UNITY_DAP_DIR_NAME@.is_prefix_of(name)
}

/// The test that [`local_candidates_of`] filters by.
pub open spec fn install_names() -> spec_fn(Seq<char>) -> bool {
    |name: Seq<char>| is_install_name(name)
}

/// The local candidate that an entry called `name` stands for.
pub open spec fn local_candidate_of(name: Seq<char>) -> UnityDapBinaryView {
    UnityDapBinaryView { dir_name: name, source: DapBinarySourceView::Local }
}

/// The step from names to candidates that [`local_candidates_of`] takes.
pub open spec fn as_local_candidate() -> spec_fn(Seq<char>) -> UnityDapBinaryView {
    |name: Seq<char>| local_candidate_of(name)
}

/// The local candidates among the entries of a directory: one for each entry
/// whose name is that of an install, in the order of the entries.
pub open spec fn local_candidates_of(entries: Seq<Seq<char>>) -> Seq<UnityDapBinaryView> {
    entries.filter(install_names()).map_values(as_local_candidate())
}

/// Every local candidate is an entry of the directory, has the name of an
/// install, and is local.
pub proof fn lemma_local_candidates_are_installs(entries: Seq<Seq<char>>, i: int)
    requires
        0 <= i < local_candidates_of(entries).len(),
    ensures
        local_candidates_of(entries)[i].source is Local,
        is_install_name(local_candidates_of(entries)[i].dir_name),
        entries.contains(local_candidates_of(entries)[i].dir_name),
{
    let names = entries.filter(install_names());
    assert(local_candidates_of(entries)[i] == local_candidate_of(names[i]));
    assert(names.contains(names[i]));
    entries.lemma_filter_pred(install_names(), i);
    entries.lemma_filter_contains_rev(install_names(), names[i]);
}

/// Picks the installs among the names of a directory's entries.
pub fn local_candidates(entries: &Vec<String>) -> (r: Vec<UnityDapBinary>)
    ensures
        r.deep_view() == local_candidates_of(entries.deep_view()),
{
    let mut found: Vec<UnityDapBinary> = Vec::new();
    let mut i: usize = 0;
    proof {
        assert(entries.deep_view().take(0) =~= Seq::empty());
        reveal(Seq::filter);
        assert(found.deep_view() =~= local_candidates_of(Seq::empty()));
    }
    while i < entries.len()
        invariant
            i <= entries.len(),
            found.deep_view() == local_candidates_of(entries.deep_view().take(i as int)),
        decreases entries.len() - i,
    {
        let ghost seen = entries.deep_view().take(i as int);
        let ghost before = found.deep_view();
        proof {
            assert(entries.deep_view().take(i + 1) =~= seen.push(entries[i as int]@));
            seen.lemma_filter_push(entries[i as int]@, install_names());
        }
        if has_prefix(entries[i].as_str(), UNITY_DAP_DIR_NAME) {
            let dir_name = entries[i].clone();
            found.push(UnityDapBinary { dir_name, source: DapBinarySource::Local });
            proof {
                assert(found.deep_view() =~= before.push(local_candidate_of(entries[i as int]@)));
                assert(seen.filter(install_names()).push(entries[i as int]@).map_values(
                    as_local_candidate(),
                ) =~= before.push(local_candidate_of(entries[i as int]@)));
            }
        }
        i = i + 1;
    }
    proof {
        assert(entries.deep_view().take(entries.len() as int) =~= entries.deep_view());
    }
    found
}

} // verus!
