use zadt::vfs::config::{FacetLevel, FacetPolicy, Mount, MountTarget};
use zadt::{RepositoryFacet, RepositoryPreselection};

#[test]
fn default_policy_always_groups_by_group_then_type() {
    let policy = FacetPolicy::default();

    assert_eq!(
        policy.levels(),
        [
            FacetLevel::always(RepositoryFacet::GROUP),
            FacetLevel::always(RepositoryFacet::TYPE),
        ]
    );
}

#[test]
fn adaptive_thresholds_apply_only_to_their_level() {
    let policy = FacetPolicy::new(vec![
        FacetLevel::always(RepositoryFacet::GROUP),
        FacetLevel::adaptive(RepositoryFacet::TYPE, 10),
    ]);

    assert!(policy.levels()[0].retains(0));
    assert!(!policy.levels()[1].retains(9));
    assert!(policy.levels()[1].retains(10));
}

#[test]
fn mount_policy_overrides_do_not_change_other_mounts() {
    let flat = Mount::system_library("Flat").facet_policy(FacetPolicy::flat());
    let default = Mount::system_library("Default");

    assert!(flat.facet_policy.levels().is_empty());
    assert_eq!(default.facet_policy, FacetPolicy::default());
}

#[test]
fn package_mounts_use_the_package_name_as_label() {
    let mount = Mount::package("/DMO/FLIGHT");
    assert_eq!(mount.label(), "/DMO/FLIGHT");
    assert!(matches!(&mount.target, MountTarget::Package(p) if p == "/DMO/FLIGHT"));

    let named = Mount::named_package("Flights", "/DMO/FLIGHT");
    assert_eq!(named.label(), "Flights");
    assert!(matches!(&named.target, MountTarget::Package(p) if p == "/DMO/FLIGHT"));
}

#[test]
fn selection_mounts_keep_their_preselections() {
    let mount = Mount::selection(
        "Local Objects ($TMP)",
        vec![RepositoryPreselection::directly_assigned("$TMP")],
    )
    .facet_policy(FacetPolicy::grouped(vec![
        RepositoryFacet::OWNER,
        RepositoryFacet::GROUP,
        RepositoryFacet::TYPE,
    ]));

    assert_eq!(mount.label(), "Local Objects ($TMP)");
    assert_eq!(mount.facet_policy.levels().len(), 3);
    assert_eq!(mount.facet_policy.levels()[0], FacetLevel::always(RepositoryFacet::OWNER));
    let MountTarget::Selection(preselections) = &mount.target else {
        panic!("expected a selection mount");
    };
    assert_eq!(preselections[0].facet().as_str(), "PACKAGE");
    assert_eq!(preselections[0].values()[0], "..$TMP");
}

#[test]
fn adaptive_levels_keep_more_objects_once_they_keep_some() {
    let level = FacetLevel::adaptive(RepositoryFacet::TYPE, 5);
    assert!(!level.retains(4));
    for count in [5, 6, 100, u32::MAX] {
        assert!(level.retains(count));
    }
    assert_eq!(level.facet().as_str(), "TYPE");
}
