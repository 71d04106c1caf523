//! Properties that relate the index operations and the resolver, proved over their models.

use vstd::prelude::*;
use crate::index::{added, built, removed, IndexModel};
use crate::resolver::{candidate_score, eligible, has_candidate, is_best, reaches_threshold, resolves_exactly};
use crate::similarity::fraction_cmp;

verus! {

/// Building from any list of names counts every name in `total_docs`, and each of the names,
/// typed verbatim, resolves to an exact match.
pub proof fn law_build_resolves_every_name(names: Seq<Seq<char>>)
    requires
        names.len() <= usize::MAX,
    ensures
        built(names).total_docs == names.len(),
        forall|i: int| 0 <= i < names.len() ==> resolves_exactly(built(names), #[trigger] names[i]),
{
    assert forall|i: int| 0 <= i < names.len() implies resolves_exactly(built(names), #[trigger] names[i]) by {
        assert(built(names).names[i] == names[i]);
    }
}

/// Right after a name is added, resolving it gives an exact match, with no rebuild.
pub proof fn law_added_name_resolves_exactly(m: IndexModel, name: Seq<char>)
    ensures
        resolves_exactly(added(m, name), name),
{
    if !m.names.contains(name) {
        assert(added(m, name).names[m.names.len() as int] == name);
    }
}

/// Removal reports success exactly when the name is indexed; on an index of unique names
/// the name is then gone, so a second removal reports failure and the name no longer
/// resolves exactly. Removing an absent name changes nothing.
pub proof fn law_remove_once(m: IndexModel, name: Seq<char>)
    requires
        m.wf(),
        m.names_unique(),
    ensures
        !removed(m, name).names.contains(name),
        !resolves_exactly(removed(m, name), name),
        !m.names.contains(name) ==> removed(m, name) == m,
{
    crate::index::lemma_index_of_contains(m.names, name);
    if m.names.contains(name) {
        let p = crate::index::index_of(m.names, name);
        let r = removed(m, name);
        if r.names.contains(name) {
            let j = choose|j: int| 0 <= j < r.names.len() && r.names[j] == name;
            let j2 = if j < p { j } else { j + 1 };
            assert(m.names[j2] == name);
        }
    }
}

/// Adding the same name twice in a row leaves the index as adding it once.
pub proof fn law_add_idempotent(m: IndexModel, name: Seq<char>)
    ensures
        added(added(m, name), name) == added(m, name),
{
    law_added_name_resolves_exactly(m, name);
}

/// A lone candidate whose combined score is exactly 3/10 is suggested; one whose score is
/// below 3/10 is not, so resolution finds nothing.
pub proof fn law_threshold_boundary(names: Seq<Seq<char>>, input: Seq<char>, cos: Seq<i64>)
    requires
        names.len() == 1,
        cos.len() == 1,
        candidate_score(names, input, cos, 0).1 > 0,
    ensures
        10 * candidate_score(names, input, cos, 0).0 == 3 * candidate_score(names, input, cos, 0).1 ==> has_candidate(
            names,
            input,
            cos,
        ) && is_best(names, input, cos, 0),
        10 * candidate_score(names, input, cos, 0).0 < 3 * candidate_score(names, input, cos, 0).1
            ==> !has_candidate(names, input, cos),
{
    let sc = candidate_score(names, input, cos, 0);
    if 10 * sc.0 == 3 * sc.1 {
        assert(eligible(names, input, cos, 0));
        assert(fraction_cmp(sc.0, sc.1, sc.0, sc.1) == 0);
    }
}

/// Whatever sequence of additions and removals produced an index, an index rebuilt from its
/// current names holds the same names and document count, and exact-match resolution agrees
/// on every input.
pub proof fn law_rebuild_agrees_on_exact_matches(m: IndexModel, input: Seq<char>)
    requires
        m.wf(),
    ensures
        built(m.names).names == m.names,
        built(m.names).total_docs == m.total_docs,
        resolves_exactly(m, input) == resolves_exactly(built(m.names), input),
{
}

} // verus!
