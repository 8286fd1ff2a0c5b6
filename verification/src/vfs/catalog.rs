//! The facets the backend advertises, and the check that every mount's
//! policy only uses facets that can structure results.
use vstd::prelude::*;

use crate::repository::{defined_facet, RepositoryFacet, RepositoryFacetDefinition};
use crate::text::str_eq;
use crate::vfs::config::{LevelView, Mount};
use crate::vfs::error::VfsError;

verus! {

/// Where the definition of a facet stands in a catalog: the last definition
/// of that facet, as a catalog keyed by facet keeps the last one it is given.
pub open spec fn catalog_index(cat: Seq<RepositoryFacetDefinition>, facet: Seq<char>) -> Option<int>
    decreases cat.len(),
{
    if cat.len() == 0 {
        None
    } else if defined_facet(cat.last().key@) == facet {
        Some(cat.len() - 1)
    } else {
        catalog_index(cat.drop_last(), facet)
    }
}

proof fn lemma_catalog_index_bounds(cat: Seq<RepositoryFacetDefinition>, facet: Seq<char>)
    ensures
        catalog_index(cat, facet) matches Some(i) ==> 0 <= i < cat.len() && defined_facet(
            cat[i].key@,
        ) == facet,
    decreases cat.len(),
{
    if cat.len() > 0 && defined_facet(cat.last().key@) != facet {
        lemma_catalog_index_bounds(cat.drop_last(), facet);
    }
}

/// Looks up the definition of a facet in a catalog of advertised facets.
pub fn catalog_lookup(catalog: &[RepositoryFacetDefinition], facet: &RepositoryFacet) -> (r: Option<usize>)
    ensures
        match catalog_index(catalog@, facet@) {
            Some(i) => 0 <= i < catalog@.len() && r == Some(i as usize),
            None => r is None,
        },
{
    proof {
        lemma_catalog_index_bounds(catalog@, facet@);
    }
    let mut n = catalog.len();
    proof {
        assert(catalog@.take(n as int) =~= catalog@);
    }
    while n > 0
        invariant
            n <= catalog@.len(),
            catalog_index(catalog@, facet@) == catalog_index(catalog@.take(n as int), facet@),
        decreases n,
    {
        let defined = catalog[n - 1].facet();
        let ghost t = catalog@.take(n as int);
        assert(t.last() == catalog@[n - 1]);
        if str_eq(defined.as_str(), facet.as_str()) {
            return Some(n - 1);
        }
        assert(t.drop_last() =~= catalog@.take(n - 1));
        n -= 1;
    }
    None
}

/// The facets of the mounts' policies, mount by mount and level by level.
pub open spec fn mount_facets(ms: Seq<Mount>) -> Seq<Seq<char>>
    decreases ms.len(),
{
    if ms.len() == 0 {
        Seq::empty()
    } else {
        mount_facets(ms.drop_last()) + level_facets(ms.last().facet_policy@)
    }
}

/// The facets of a policy's levels, in order.
pub open spec fn level_facets(levels: Seq<LevelView>) -> Seq<Seq<char>> {
    levels.map_values(|l: LevelView| l.facet)
}

/// The first facet of a list that the catalog does not define, or defines
/// as unable to structure results; `true` marks an undefined one.
pub open spec fn policy_problem(fs: Seq<Seq<char>>, cat: Seq<RepositoryFacetDefinition>) -> Option<(Seq<char>, bool)>
    decreases fs.len(),
{
    if fs.len() == 0 {
        None
    } else {
        match catalog_index(cat, fs[0]) {
            None => Some((fs[0], true)),
            Some(i) => if !cat[i].is_for_structuring {
                Some((fs[0], false))
            } else {
                policy_problem(fs.drop_first(), cat)
            },
        }
    }
}

proof fn lemma_policy_problem_concat(a: Seq<Seq<char>>, b: Seq<Seq<char>>, cat: Seq<RepositoryFacetDefinition>)
    ensures
        policy_problem(a + b, cat) == (if policy_problem(a, cat) is Some {
            policy_problem(a, cat)
        } else {
            policy_problem(b, cat)
        }),
    decreases a.len(),
{
    if a.len() == 0 {
        assert(a + b =~= b);
    } else {
        assert((a + b)[0] == a[0]);
        assert((a + b).drop_first() =~= a.drop_first() + b);
        lemma_policy_problem_concat(a.drop_first(), b, cat);
    }
}

proof fn lemma_mount_facets_take(ms: Seq<Mount>, i: int)
    requires
        0 <= i < ms.len(),
    ensures
        mount_facets(ms.take(i + 1)) == mount_facets(ms.take(i)) + level_facets(ms[i].facet_policy@),
{
    assert(ms.take(i + 1).drop_last() =~= ms.take(i));
}

/// Checks, mount by mount and level by level, that every facet of the
/// policies is advertised and can structure results; the first that is not
/// is reported.
pub fn validate_policies(mounts: &[Mount], catalog: &[RepositoryFacetDefinition]) -> (r: Result<(), VfsError>)
    ensures
        match policy_problem(mount_facets(mounts@), catalog@) {
            None => r is Ok,
            Some((f, true)) => r matches Err(VfsError::UnsupportedFacet(x)) && x@ == f,
            Some((f, false)) => r matches Err(VfsError::UnstructuredFacet(x)) && x@ == f,
        },
{
    let ghost ms = mounts@;
    let mut i: usize = 0;
    assert(ms.take(0) =~= Seq::<Mount>::empty());
    while i < mounts.len()
        invariant
            i <= ms.len(),
            ms == mounts@,
            policy_problem(mount_facets(ms.take(i as int)), catalog@) is None,
        decreases mounts.len() - i,
    {
        let levels = mounts[i].facet_policy.levels();
        let ghost lf = level_facets(mounts@[i as int].facet_policy@);
        let mut j: usize = 0;
        assert(lf.take(0) =~= Seq::<Seq<char>>::empty());
        assert(mount_facets(ms.take(i as int)) + lf.take(0) =~= mount_facets(ms.take(i as int)));
        while j < levels.len()
            invariant
                i < ms.len(),
                ms == mounts@,
                j <= levels@.len(),
                crate::vfs::config::levels_view(levels@) == mounts[i as int].facet_policy@,
                lf == level_facets(mounts[i as int].facet_policy@),
                policy_problem(mount_facets(ms.take(i as int)) + lf.take(j as int), catalog@) is None,
            decreases levels.len() - j,
        {
            let facet = levels[j].facet();
            let ghost prefix = mount_facets(ms.take(i as int)) + lf.take(j as int);
            proof {
                assert(lf[j as int] == facet@);
                assert(lf.take(j as int + 1) =~= lf.take(j as int) + seq![facet@]);
                assert(prefix + seq![facet@] =~= mount_facets(ms.take(i as int)) + lf.take(j as int + 1));
                lemma_policy_problem_concat(prefix, seq![facet@], catalog@);
                assert(seq![facet@].drop_first() =~= Seq::<Seq<char>>::empty());
            }
            let found = catalog_lookup(catalog, facet);
            proof {
                lemma_catalog_index_bounds(catalog@, facet@);
            }
            match found {
                None => {
                    proof {
                        lemma_whole_problem(ms, catalog@, i as int, j as int + 1);
                    }
                    return Err(VfsError::UnsupportedFacet(facet.clone()));
                },
                Some(k) => {
                    if !catalog[k].is_for_structuring {
                        proof {
                            lemma_whole_problem(ms, catalog@, i as int, j as int + 1);
                        }
                        return Err(VfsError::UnstructuredFacet(facet.clone()));
                    }
                    proof {
                        let one = seq![facet@];
                        assert(one[0] == facet@);
                        assert(catalog_index(catalog@, facet@) == Some(k as int));
                        assert(policy_problem(one.drop_first(), catalog@) is None);
                        assert(policy_problem(one, catalog@) is None);
                    }
                },
            }
            j += 1;
        }
        proof {
            assert(lf.take(levels@.len() as int) =~= lf);
            lemma_mount_facets_take(ms, i as int);
        }
        i += 1;
    }
    assert(ms.take(ms.len() as int) =~= ms);
    Ok(())
}

proof fn lemma_mount_facets_concat(a: Seq<Mount>, b: Seq<Mount>)
    ensures
        mount_facets(a + b) == mount_facets(a) + mount_facets(b),
    decreases b.len(),
{
    if b.len() == 0 {
        assert(a + b =~= a);
        assert(mount_facets(a) + mount_facets(b) =~= mount_facets(a));
    } else {
        assert((a + b).drop_last() =~= a + b.drop_last());
        assert((a + b).last() == b.last());
        lemma_mount_facets_concat(a, b.drop_last());
        assert(mount_facets(a) + mount_facets(b) =~= mount_facets(a) + mount_facets(b.drop_last())
            + level_facets(b.last().facet_policy@));
    }
}

/// Once the facets up to level `j` of mount `i` contain a problem, the
/// first problem of all the facets is that one.
proof fn lemma_whole_problem(ms: Seq<Mount>, cat: Seq<RepositoryFacetDefinition>, i: int, j: int)
    requires
        0 <= i < ms.len(),
        0 <= j <= level_facets(ms[i].facet_policy@).len(),
    ensures
        policy_problem(mount_facets(ms.take(i)) + level_facets(ms[i].facet_policy@).take(j), cat) is Some
            ==> policy_problem(mount_facets(ms), cat) == policy_problem(
            mount_facets(ms.take(i)) + level_facets(ms[i].facet_policy@).take(j),
            cat,
        ),
{
    let lf = level_facets(ms[i].facet_policy@);
    let head = mount_facets(ms.take(i)) + lf.take(j);
    lemma_mount_facets_take(ms, i);
    assert(ms =~= ms.take(i + 1) + ms.skip(i + 1));
    lemma_mount_facets_concat(ms.take(i + 1), ms.skip(i + 1));
    assert(lf =~= lf.take(j) + lf.skip(j));
    assert(mount_facets(ms) =~= head + (lf.skip(j) + mount_facets(ms.skip(i + 1))));
    lemma_policy_problem_concat(head, lf.skip(j) + mount_facets(ms.skip(i + 1)), cat);
}

} // verus!
