//! Mounts and the facet policies that shape their folders.
use vstd::prelude::*;

use crate::repository::{RepositoryFacet, RepositoryPreselection};

verus! {

/// One grouping level of a facet policy, as plain values: the facet and,
/// for an adaptive level, its minimum object count.
pub struct LevelView {
    pub facet: Seq<char>,
    pub minimum: Option<u32>,
}

/// One repository-object grouping level in a mount's ordered [`FacetPolicy`].
#[derive(Debug)]
pub enum FacetLevel {
    /// Retain this facet as a virtual-folder level regardless of object count.
    Always { facet: RepositoryFacet },
    /// Retain this facet only when the current selection contains at least the
    /// configured number of objects.
    Adaptive { facet: RepositoryFacet, minimum_objects: u32 },
}

impl View for FacetLevel {
    type V = LevelView;

    open spec fn view(&self) -> LevelView {
        match self {
            FacetLevel::Always { facet } => LevelView { facet: facet@, minimum: None },
            FacetLevel::Adaptive { facet, minimum_objects } => LevelView {
                facet: facet@,
                minimum: Some(*minimum_objects),
            },
        }
    }
}

/// Whether a level is retained for an object count: always for an `Always`
/// level, from its minimum on for an adaptive one.
pub open spec fn level_retains(level: LevelView, object_count: u32) -> bool {
    match level.minimum {
        None => true,
        Some(m) => object_count >= m,
    }
}

impl FacetLevel {
    /// Creates a grouping level that is retained regardless of object count.
    pub fn always(facet: RepositoryFacet) -> (r: Self)
        ensures
            r@ == (LevelView { facet: facet@, minimum: None }),
    {
        FacetLevel::Always { facet }
    }

    /// Creates a grouping level retained when the current object count is
    /// greater than or equal to `minimum_objects`.
    pub fn adaptive(facet: RepositoryFacet, minimum_objects: u32) -> (r: Self)
        ensures
            r@ == (LevelView { facet: facet@, minimum: Some(minimum_objects) }),
    {
        FacetLevel::Adaptive { facet, minimum_objects }
    }

    /// Returns the RIS facet represented by this level.
    pub fn facet(&self) -> (r: &RepositoryFacet)
        ensures
            r@ == self@.facet,
    {
        match self {
            FacetLevel::Always { facet } => facet,
            FacetLevel::Adaptive { facet, .. } => facet,
        }
    }

    /// Returns whether this level should be retained for an object count.
    pub fn retains(&self, object_count: u32) -> (r: bool)
        ensures
            r == level_retains(self@, object_count),
    {
        match self {
            FacetLevel::Always { .. } => true,
            FacetLevel::Adaptive { minimum_objects, .. } => object_count >= *minimum_objects,
        }
    }
}

impl Clone for FacetLevel {
    fn clone(&self) -> (r: Self)
        ensures
            r@ == self@,
    {
        match self {
            FacetLevel::Always { facet } => FacetLevel::Always { facet: facet.clone() },
            FacetLevel::Adaptive { facet, minimum_objects } => FacetLevel::Adaptive {
                facet: facet.clone(),
                minimum_objects: *minimum_objects,
            },
        }
    }
}

impl PartialEq for FacetLevel {
    fn eq(&self, other: &Self) -> (r: bool) {
        let same_facet = self.facet() == other.facet();
        match (self, other) {
            (FacetLevel::Always { .. }, FacetLevel::Always { .. }) => same_facet,
            (
                FacetLevel::Adaptive { minimum_objects: a, .. },
                FacetLevel::Adaptive { minimum_objects: b, .. },
            ) => same_facet && *a == *b,
            _ => false,
        }
    }
}

impl vstd::std_specs::cmp::PartialEqSpecImpl for FacetLevel {
    open spec fn obeys_eq_spec() -> bool {
        true
    }

    open spec fn eq_spec(&self, other: &Self) -> bool {
        self@ == other@
    }
}

impl Eq for FacetLevel {}

/// Controls how matching repository objects are grouped into virtual folders.
///
/// Expanding a facet folder adds its value to the current preselections before
/// the next policy level is evaluated. An `Always` level is retained
/// regardless of object count; an `Adaptive` level only from its minimum on,
/// otherwise only that level is skipped. The default policy groups by
/// `GROUP` and then `TYPE`.
#[derive(Debug)]
pub struct FacetPolicy {
    levels: Vec<FacetLevel>,
}

/// The views of a list of levels.
pub open spec fn levels_view(levels: Seq<FacetLevel>) -> Seq<LevelView> {
    levels.map_values(|l: FacetLevel| l@)
}

/// The default policy: `GROUP`, then `TYPE`, both always retained.
pub open spec fn default_policy() -> Seq<LevelView> {
    seq![
        LevelView { facet: "GROUP"@, minimum: None },
        LevelView { facet: "TYPE"@, minimum: None },
    ]
}

impl View for FacetPolicy {
    type V = Seq<LevelView>;

    closed spec fn view(&self) -> Seq<LevelView> {
        levels_view(self.levels@)
    }
}

impl FacetPolicy {
    /// Creates a policy whose levels are evaluated in order.
    pub fn new(levels: Vec<FacetLevel>) -> (r: Self)
        ensures
            r@ == levels_view(levels@),
    {
        FacetPolicy { levels }
    }

    /// Returns objects without configurable facet-folder levels.
    pub fn flat() -> (r: Self)
        ensures
            r@ == Seq::<LevelView>::empty(),
    {
        let r = FacetPolicy { levels: Vec::new() };
        assert(r@ =~= Seq::<LevelView>::empty());
        r
    }

    /// Creates an ordered policy in which every facet is always retained.
    pub fn grouped(facets: Vec<RepositoryFacet>) -> (r: Self)
        ensures
            r@.len() == facets@.len(),
            forall|i: int|
                0 <= i < facets@.len() ==> #[trigger] r@[i] == (LevelView {
                    facet: facets@[i]@,
                    minimum: None,
                }),
    {
        let mut levels: Vec<FacetLevel> = Vec::new();
        let mut rest = facets;
        let ghost all = rest@;
        while rest.len() > 0
            invariant
                levels@.len() + rest@.len() == all.len(),
                rest@ == all.skip(levels@.len() as int),
                forall|k: int|
                    0 <= k < levels@.len() ==> #[trigger] levels@[k]@ == (LevelView {
                        facet: all[k]@,
                        minimum: None,
                    }),
            decreases rest.len(),
        {
            let ghost done = levels@.len() as int;
            let f = rest.remove(0);
            assert(f == all[done]);
            levels.push(FacetLevel::always(f));
            assert(rest@ =~= all.skip(levels@.len() as int));
        }
        FacetPolicy { levels }
    }

    /// Returns the facet levels in traversal order.
    pub fn levels(&self) -> (r: &[FacetLevel])
        ensures
            levels_view(r@) == self@,
    {
        self.levels.as_slice()
    }
}

impl Default for FacetPolicy {
    /// Groups repository objects by broad group and then concrete object type.
    fn default() -> (r: Self)
        ensures
            r@ == default_policy(),
    {
        let levels = vec![
            FacetLevel::always(RepositoryFacet::GROUP),
            FacetLevel::always(RepositoryFacet::TYPE),
        ];
        let r = FacetPolicy { levels };
        assert(r@ =~= default_policy());
        r
    }
}

impl Clone for FacetPolicy {
    fn clone(&self) -> (r: Self)
        ensures
            r@ == self@,
    {
        let mut levels: Vec<FacetLevel> = Vec::new();
        let mut i: usize = 0;
        while i < self.levels.len()
            invariant
                i <= self.levels.len(),
                levels_view(levels@) == levels_view(self.levels@).take(i as int),
            decreases self.levels.len() - i,
        {
            let ghost before = levels@;
            levels.push(self.levels[i].clone());
            assert(levels_view(levels@) =~= levels_view(before).push(self.levels@[i as int]@));
            i += 1;
            assert(levels_view(levels@) =~= levels_view(self.levels@).take(i as int));
        }
        assert(levels_view(self.levels@).take(self.levels.len() as int) =~= levels_view(
            self.levels@,
        ));
        FacetPolicy { levels }
    }
}

impl PartialEq for FacetPolicy {
    fn eq(&self, other: &Self) -> (r: bool) {
        if self.levels.len() != other.levels.len() {
            assert(self@.len() != other@.len());
            return false;
        }
        let mut i: usize = 0;
        while i < self.levels.len()
            invariant
                i <= self.levels.len(),
                self.levels.len() == other.levels.len(),
                forall|k: int| 0 <= k < i ==> self.levels@[k]@ == other.levels@[k]@,
            decreases self.levels.len() - i,
        {
            if !(self.levels[i] == other.levels[i]) {
                assert(self@[i as int] != other@[i as int]);
                return false;
            }
            i += 1;
        }
        assert(self@ =~= other@);
        true
    }
}

impl vstd::std_specs::cmp::PartialEqSpecImpl for FacetPolicy {
    open spec fn obeys_eq_spec() -> bool {
        true
    }

    open spec fn eq_spec(&self, other: &Self) -> bool {
        self@ == other@
    }
}

impl Eq for FacetPolicy {}

/// What a mount shows: the package hierarchy, one package, or a selection.
#[derive(Debug)]
pub enum MountTarget {
    SystemLibrary,
    Package(String),
    Selection(Vec<RepositoryPreselection>),
}

/// A caller-defined root entry in a virtual repository tree, with its own
/// facet policy and content selection.
#[derive(Debug)]
pub struct Mount {
    /// The display label.
    pub label: String,
    /// What the mount shows.
    pub target: MountTarget,
    /// How the mount's objects are grouped.
    pub facet_policy: FacetPolicy,
}

impl Mount {
    /// Mounts the top-level package hierarchy.
    pub fn system_library(label: &str) -> (r: Self)
        ensures
            r.label@ == label@,
            r.target is SystemLibrary,
            r.facet_policy@ == default_policy(),
    {
        Mount {
            label: label.to_owned(),
            target: MountTarget::SystemLibrary,
            facet_policy: FacetPolicy::default(),
        }
    }

    /// Mounts one package using its technical package name as the label.
    pub fn package(package: &str) -> (r: Self)
        ensures
            r.label@ == package@,
            r.target matches MountTarget::Package(p) && p@ == package@,
            r.facet_policy@ == default_policy(),
    {
        Mount::named_package(package, package)
    }

    /// Mounts one package with a caller-defined label.
    pub fn named_package(label: &str, package: &str) -> (r: Self)
        ensures
            r.label@ == label@,
            r.target matches MountTarget::Package(p) && p@ == package@,
            r.facet_policy@ == default_policy(),
    {
        Mount {
            label: label.to_owned(),
            target: MountTarget::Package(package.to_owned()),
            facet_policy: FacetPolicy::default(),
        }
    }

    /// Mounts an arbitrary RIS selection, such as favorites or local objects.
    pub fn selection(label: &str, preselections: Vec<RepositoryPreselection>) -> (r: Self)
        ensures
            r.label@ == label@,
            r.target == MountTarget::Selection(preselections),
            r.facet_policy@ == default_policy(),
    {
        Mount {
            label: label.to_owned(),
            target: MountTarget::Selection(preselections),
            facet_policy: FacetPolicy::default(),
        }
    }

    /// Overrides this mount's repository-object grouping policy.
    pub fn facet_policy(self, facet_policy: FacetPolicy) -> (r: Self)
        ensures
            r.label == self.label,
            r.target == self.target,
            r.facet_policy == facet_policy,
    {
        Mount { label: self.label, target: self.target, facet_policy }
    }

    /// Returns the display label used for this mount.
    pub fn label(&self) -> (r: &str)
        ensures
            r@ == self.label@,
    {
        self.label.as_str()
    }
}

/// A package mount is a named package mount labelled with the package's name.
pub proof fn package_mounts_are_labelled_by_their_package(package: Seq<char>, m: Mount, n: Mount)
    requires
        m.label@ == package,
        m.target matches MountTarget::Package(p) && p@ == package,
        m.facet_policy@ == default_policy(),
        n.label@ == package,
        n.target matches MountTarget::Package(p) && p@ == package,
        n.facet_policy@ == default_policy(),
    ensures
        m.label@ == n.label@,
        m.facet_policy@ == n.facet_policy@,
{
}

/// An adaptive level retained for some object count is retained for every
/// larger count; an `Always` level is retained for every count.
pub proof fn retention_is_monotone(level: LevelView, fewer: u32, more: u32)
    requires
        fewer <= more,
        level_retains(level, fewer),
    ensures
        level_retains(level, more),
{
}

} // verus!
