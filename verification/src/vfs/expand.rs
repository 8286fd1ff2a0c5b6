//! How each directory of the virtual tree obtains its immediate children.
use std::sync::Arc;
use vstd::prelude::*;

use crate::repository::RepositoryPreselection;
use crate::text::str_eq;
use crate::vfs::config::{FacetPolicy, LevelView};

verus! {

/// The plain-value picture of an [`ExpansionContext`]: the policy's levels and
/// the complete filter path.
pub type ContextView = (Seq<LevelView>, Seq<(Seq<char>, Seq<Seq<char>>)>);

/// The views of a list of preselections.
pub open spec fn preselections_view(ps: Seq<RepositoryPreselection>) -> Seq<(Seq<char>, Seq<Seq<char>>)> {
    ps.map_values(|p: RepositoryPreselection| p@)
}

/// Immutable mount configuration and the complete RIS filter path to one node.
///
/// The policy is shared between all nodes of a mount; the preselections are
/// owned per node.
#[derive(Debug)]
pub struct ExpansionContext {
    /// The mount's facet policy, shared by every node beneath it.
    pub facet_policy: Arc<FacetPolicy>,
    /// The complete filter path to the node.
    pub preselections: Vec<RepositoryPreselection>,
}

impl View for ExpansionContext {
    type V = ContextView;

    open spec fn view(&self) -> ContextView {
        ((*self.facet_policy)@, preselections_view(self.preselections@))
    }
}

/// Copies a list of preselections.
pub fn clone_preselections(ps: &[RepositoryPreselection]) -> (r: Vec<RepositoryPreselection>)
    ensures
        preselections_view(r@) == preselections_view(ps@),
{
    let mut out: Vec<RepositoryPreselection> = Vec::new();
    let mut i: usize = 0;
    while i < ps.len()
        invariant
            i <= ps.len(),
            preselections_view(out@) == preselections_view(ps@).take(i as int),
        decreases ps.len() - i,
    {
        let ghost before = out@;
        out.push(ps[i].clone());
        assert(preselections_view(out@) =~= preselections_view(before).push(ps@[i as int]@));
        i += 1;
        assert(preselections_view(out@) =~= preselections_view(ps@).take(i as int));
    }
    assert(preselections_view(ps@).take(ps.len() as int) =~= preselections_view(ps@));
    out
}

impl ExpansionContext {
    /// A context for a mount's root, owning its policy.
    pub fn new(facet_policy: FacetPolicy, preselections: Vec<RepositoryPreselection>) -> (r: Self)
        ensures
            r@ == (facet_policy@, preselections_view(preselections@)),
    {
        ExpansionContext { facet_policy: Arc::new(facet_policy), preselections }
    }

    /// Returns the shared facet policy.
    pub fn facet_policy(&self) -> (r: &FacetPolicy)
        ensures
            r@ == self@.0,
    {
        &*self.facet_policy
    }

    /// Returns the complete filter path.
    pub fn preselections(&self) -> (r: &[RepositoryPreselection])
        ensures
            preselections_view(r@) == self@.1,
    {
        self.preselections.as_slice()
    }

    /// The same context with one more preselection at the end of the path;
    /// the policy stays shared.
    pub fn with(&self, preselection: RepositoryPreselection) -> (r: Self)
        ensures
            r@ == (self@.0, self@.1.push(preselection@)),
    {
        let mut context = self.clone();
        let ghost before = context.preselections@;
        context.preselections.push(preselection);
        assert(preselections_view(context.preselections@) =~= preselections_view(before).push(
            preselection@,
        ));
        context
    }

    /// The expansion of a child package, sharing this context; whether the
    /// package has child packages decides if they are probed.
    pub fn child_package(&self, package: String, has_child_packages: bool) -> (r: ExpansionStrategy)
        ensures
            r matches ExpansionStrategy::Package { package: p, context: c, has_child_packages: h }
                && p == package && c@ == self@ && h == has_child_packages,
    {
        ExpansionStrategy::Package { package, context: self.clone(), has_child_packages }
    }

    /// The expansion of a facet folder: this context with the folder's
    /// selection appended, the index of the policy level that produced it, its
    /// object count and whether it has children of the same facet.
    pub fn child_facet(
        &self,
        preselection: RepositoryPreselection,
        facet_index: usize,
        object_count: u32,
        has_children_of_same_facet: bool,
    ) -> (r: ExpansionStrategy)
        ensures
            r matches ExpansionStrategy::Facet {
                context: c,
                facet_index: i,
                object_count: n,
                has_children_of_same_facet: h,
            } && c@ == (self@.0, self@.1.push(preselection@)) && i == facet_index && n
                == object_count && h == has_children_of_same_facet,
    {
        ExpansionStrategy::Facet {
            context: self.with(preselection),
            facet_index,
            object_count,
            has_children_of_same_facet,
        }
    }
}

impl Clone for ExpansionContext {
    fn clone(&self) -> (r: Self)
        ensures
            r@ == self@,
    {
        ExpansionContext {
            facet_policy: self.facet_policy.clone(),
            preselections: clone_preselections(self.preselections.as_slice()),
        }
    }
}

impl PartialEq for ExpansionContext {
    fn eq(&self, other: &Self) -> (r: bool) {
        let same_policy = *self.facet_policy == *other.facet_policy;
        if !same_policy {
            assert(self@.0 != other@.0);
            return false;
        }
        if self.preselections.len() != other.preselections.len() {
            assert(self@.1.len() != other@.1.len());
            return false;
        }
        let mut i: usize = 0;
        while i < self.preselections.len()
            invariant
                i <= self.preselections.len(),
                self.preselections.len() == other.preselections.len(),
                forall|k: int| 0 <= k < i ==> self.preselections@[k]@ == other.preselections@[k]@,
            decreases self.preselections.len() - i,
        {
            if !(self.preselections[i] == other.preselections[i]) {
                assert(self@.1[i as int] != other@.1[i as int]);
                return false;
            }
            i += 1;
        }
        assert(self@.1 =~= other@.1);
        true
    }
}

impl vstd::std_specs::cmp::PartialEqSpecImpl for ExpansionContext {
    open spec fn obeys_eq_spec() -> bool {
        true
    }

    open spec fn eq_spec(&self, other: &Self) -> bool {
        self@ == other@
    }
}

/// Describes how one directory obtains its immediate children.
#[derive(Debug)]
pub enum ExpansionStrategy {
    /// A directory whose children were installed while constructing the tree.
    Static,
    /// The top-level package hierarchy used by a system-library mount.
    PackageIndex { context: ExpansionContext },
    /// One package, expanded into child packages and directly assigned content.
    Package { package: String, context: ExpansionContext, has_child_packages: bool },
    /// An arbitrary caller-provided RIS selection.
    Selection { context: ExpansionContext },
    /// A virtual folder within the configured facet chain.
    Facet {
        context: ExpansionContext,
        facet_index: usize,
        object_count: u32,
        has_children_of_same_facet: bool,
    },
    /// A repository object, which cannot be expanded by this tree.
    Leaf,
}

/// The plain-value picture of an [`ExpansionStrategy`].
pub enum ExpansionView {
    Static,
    PackageIndex(ContextView),
    Package { package: Seq<char>, context: ContextView, has_child_packages: bool },
    Selection(ContextView),
    Facet {
        context: ContextView,
        facet_index: usize,
        object_count: u32,
        has_children_of_same_facet: bool,
    },
    Leaf,
}

impl View for ExpansionStrategy {
    type V = ExpansionView;

    open spec fn view(&self) -> ExpansionView {
        match self {
            ExpansionStrategy::Static => ExpansionView::Static,
            ExpansionStrategy::PackageIndex { context } => ExpansionView::PackageIndex(context@),
            ExpansionStrategy::Package { package, context, has_child_packages } =>
                ExpansionView::Package {
                package: package@,
                context: context@,
                has_child_packages: *has_child_packages,
            },
            ExpansionStrategy::Selection { context } => ExpansionView::Selection(context@),
            ExpansionStrategy::Facet {
                context,
                facet_index,
                object_count,
                has_children_of_same_facet,
            } => ExpansionView::Facet {
                context: context@,
                facet_index: *facet_index,
                object_count: *object_count,
                has_children_of_same_facet: *has_children_of_same_facet,
            },
            ExpansionStrategy::Leaf => ExpansionView::Leaf,
        }
    }
}

impl Clone for ExpansionStrategy {
    fn clone(&self) -> (r: Self)
        ensures
            r@ == self@,
    {
        match self {
            ExpansionStrategy::Static => ExpansionStrategy::Static,
            ExpansionStrategy::PackageIndex { context } => ExpansionStrategy::PackageIndex {
                context: context.clone(),
            },
            ExpansionStrategy::Package { package, context, has_child_packages } =>
                ExpansionStrategy::Package {
                package: package.clone(),
                context: context.clone(),
                has_child_packages: *has_child_packages,
            },
            ExpansionStrategy::Selection { context } => ExpansionStrategy::Selection {
                context: context.clone(),
            },
            ExpansionStrategy::Facet {
                context,
                facet_index,
                object_count,
                has_children_of_same_facet,
            } => ExpansionStrategy::Facet {
                context: context.clone(),
                facet_index: *facet_index,
                object_count: *object_count,
                has_children_of_same_facet: *has_children_of_same_facet,
            },
            ExpansionStrategy::Leaf => ExpansionStrategy::Leaf,
        }
    }
}

/// Whether descendants loaded with one expansion remain valid for another:
/// both expansions are of the same kind with equal contexts and equal
/// parameters.
pub open spec fn cache_compatible_spec(a: ExpansionStrategy, b: ExpansionStrategy) -> bool {
    a@ == b@
}

/// The same relation, spelled out variant by variant.
spec fn compatible_by_variant(a: ExpansionStrategy, b: ExpansionStrategy) -> bool {
    match (a, b) {
        (ExpansionStrategy::Static, ExpansionStrategy::Static) => true,
        (ExpansionStrategy::Leaf, ExpansionStrategy::Leaf) => true,
        (
            ExpansionStrategy::PackageIndex { context: l },
            ExpansionStrategy::PackageIndex { context: r },
        ) => l@ == r@,
        (
            ExpansionStrategy::Selection { context: l },
            ExpansionStrategy::Selection { context: r },
        ) => l@ == r@,
        (
            ExpansionStrategy::Package { package: lp, context: lc, has_child_packages: lh },
            ExpansionStrategy::Package { package: rp, context: rc, has_child_packages: rh },
        ) => lp@ == rp@ && lc@ == rc@ && lh == rh,
        (
            ExpansionStrategy::Facet {
                context: lc,
                facet_index: li,
                object_count: ln,
                has_children_of_same_facet: lh,
            },
            ExpansionStrategy::Facet {
                context: rc,
                facet_index: ri,
                object_count: rn,
                has_children_of_same_facet: rh,
            },
        ) => lc@ == rc@ && li == ri && ln == rn && lh == rh,
        _ => false,
    }
}

impl ExpansionStrategy {
    /// Returns whether descendants loaded with `self` remain valid for `other`.
    ///
    /// A node may keep its identity while its expansion shape changes, for
    /// example when an adaptive threshold adds or removes a facet level; its
    /// cached descendants must then be discarded.
    pub fn cache_compatible(&self, other: &Self) -> (r: bool)
        ensures
            r == cache_compatible_spec(*self, *other),
    {
        assert(cache_compatible_spec(*self, *other) == compatible_by_variant(*self, *other));
        match (self, other) {
            (ExpansionStrategy::Static, ExpansionStrategy::Static) => true,
            (ExpansionStrategy::Leaf, ExpansionStrategy::Leaf) => true,
            (
                ExpansionStrategy::PackageIndex { context: left },
                ExpansionStrategy::PackageIndex { context: right },
            ) => left == right,
            (
                ExpansionStrategy::Selection { context: left },
                ExpansionStrategy::Selection { context: right },
            ) => left == right,
            (
                ExpansionStrategy::Package {
                    package: left_package,
                    context: left_context,
                    has_child_packages: left_has_children,
                },
                ExpansionStrategy::Package {
                    package: right_package,
                    context: right_context,
                    has_child_packages: right_has_children,
                },
            ) => str_eq(left_package.as_str(), right_package.as_str()) && left_context
                == right_context && *left_has_children == *right_has_children,
            (
                ExpansionStrategy::Facet {
                    context: left_context,
                    facet_index: left_index,
                    object_count: left_count,
                    has_children_of_same_facet: left_has_children,
                },
                ExpansionStrategy::Facet {
                    context: right_context,
                    facet_index: right_index,
                    object_count: right_count,
                    has_children_of_same_facet: right_has_children,
                },
            ) => left_context == right_context && *left_index == *right_index && *left_count
                == *right_count && *left_has_children == *right_has_children,
            _ => false,
        }
    }
}

/// Every expansion is cache-compatible with itself.
pub proof fn cache_compatibility_is_reflexive(a: ExpansionStrategy)
    ensures
        cache_compatible_spec(a, a),
{
}

/// Cache compatibility does not depend on the order of the two expansions.
pub proof fn cache_compatibility_is_symmetric(a: ExpansionStrategy, b: ExpansionStrategy)
    ensures
        cache_compatible_spec(a, b) == cache_compatible_spec(b, a),
{
}

/// Expansions of different kinds never share cached descendants.
pub proof fn different_kinds_are_incompatible(a: ExpansionStrategy, b: ExpansionStrategy)
    requires
        cache_compatible_spec(a, b),
    ensures
        (a is Static) == (b is Static),
        (a is Leaf) == (b is Leaf),
        (a is PackageIndex) == (b is PackageIndex),
        (a is Selection) == (b is Selection),
        (a is Package) == (b is Package),
        (a is Facet) == (b is Facet),
{
}

} // verus!
