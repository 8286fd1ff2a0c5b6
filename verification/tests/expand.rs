use std::sync::Arc;

use zadt::vfs::config::{FacetLevel, FacetPolicy};
use zadt::vfs::expand::{ExpansionContext, ExpansionStrategy};
use zadt::{RepositoryFacet, RepositoryPreselection};

fn facet_context(expansion: ExpansionStrategy) -> ExpansionContext {
    match expansion {
        ExpansionStrategy::Facet { context, .. } => context,
        _ => panic!("expected a facet expansion"),
    }
}

fn facet_children_share_the_policy_and_append_their_selection() {
    let context = ExpansionContext::new(
        FacetPolicy::new(vec![
            FacetLevel::always(RepositoryFacet::OWNER),
            FacetLevel::adaptive(RepositoryFacet::TYPE, 10),
        ]),
        vec![RepositoryPreselection::directly_assigned("$TMP")],
    );

    let expansion = context.child_facet(
        RepositoryPreselection::new(RepositoryFacet::OWNER, "DEVELOPER"),
        0,
        12,
        false,
    );
    let ExpansionStrategy::Facet {
        context: child,
        facet_index,
        object_count,
        has_children_of_same_facet,
    } = expansion
    else {
        panic!("expected a facet expansion");
    };

    assert!(Arc::ptr_eq(&context.facet_policy, &child.facet_policy));
    assert_eq!(context.preselections().len(), 1);
    assert_eq!(child.preselections().len(), 2);
    assert_eq!(facet_index, 0);
    assert_eq!(object_count, 12);
    assert!(!has_children_of_same_facet);
}

fn chained_facet_children_retain_the_complete_filter_path() {
    let context = ExpansionContext::new(
        FacetPolicy::grouped(vec![
            RepositoryFacet::OWNER,
            RepositoryFacet::GROUP,
            RepositoryFacet::TYPE,
        ]),
        vec![
            RepositoryPreselection::directly_assigned("$TMP"),
            RepositoryPreselection::new(RepositoryFacet::FAVORITES, "$DEVELOPER"),
        ],
    );
    let owner = facet_context(context.child_facet(
        RepositoryPreselection::new(RepositoryFacet::OWNER, "DEVELOPER"),
        0,
        20,
        false,
    ));
    let group = facet_context(owner.child_facet(
        RepositoryPreselection::new(RepositoryFacet::GROUP, "SOURCE_LIBRARY"),
        1,
        20,
        false,
    ));
    let object_type = facet_context(group.child_facet(
        RepositoryPreselection::new(RepositoryFacet::TYPE, "CLAS"),
        2,
        10,
        false,
    ));

    let path = object_type
        .preselections()
        .iter()
        .map(|preselection| {
            (
                preselection.facet().as_str(),
                preselection.values()[0].as_str(),
            )
        })
        .collect::<Vec<_>>();
    assert_eq!(
        path,
        [
            ("PACKAGE", "..$TMP"),
            ("FAV", "$DEVELOPER"),
            ("OWNER", "DEVELOPER"),
            ("GROUP", "SOURCE_LIBRARY"),
            ("TYPE", "CLAS"),
        ]
    );
}

fn package_children_share_the_context_without_adding_parent_packages() {
    let context = ExpansionContext::new(
        FacetPolicy::grouped(vec![RepositoryFacet::OWNER]),
        vec![RepositoryPreselection::new(RepositoryFacet::API_STATE, "RELEASED")],
    );

    let ExpansionStrategy::Package {
        package,
        context: child,
        has_child_packages,
    } = context.child_package("/ROOT/CHILD".to_owned(), true)
    else {
        panic!("expected a package expansion");
    };

    assert_eq!(package, "/ROOT/CHILD");
    assert!(has_child_packages);
    assert!(Arc::ptr_eq(&context.facet_policy, &child.facet_policy));
    assert_eq!(child.preselections(), context.preselections());
}

#[test]
fn expand_facet_children_share_the_policy_and_append_their_selection() {
    facet_children_share_the_policy_and_append_their_selection();
}

#[test]
fn tree_facet_children_share_the_policy_and_append_their_selection() {
    facet_children_share_the_policy_and_append_their_selection();
}

#[test]
fn expand_chained_facet_children_retain_the_complete_filter_path() {
    chained_facet_children_retain_the_complete_filter_path();
}

#[test]
fn tree_chained_facet_children_retain_the_complete_filter_path() {
    chained_facet_children_retain_the_complete_filter_path();
}

#[test]
fn expand_package_children_share_the_context_without_adding_parent_packages() {
    package_children_share_the_context_without_adding_parent_packages();
}

#[test]
fn tree_package_children_share_the_context_without_adding_parent_packages() {
    package_children_share_the_context_without_adding_parent_packages();
}

#[test]
fn cache_compatibility_compares_kind_context_and_parameters() {
    let context = ExpansionContext::new(FacetPolicy::flat(), Vec::new());
    let a = context.child_facet(RepositoryPreselection::new(RepositoryFacet::TYPE, "CLAS"), 1, 5, false);
    let b = context.child_facet(RepositoryPreselection::new(RepositoryFacet::TYPE, "CLAS"), 1, 5, false);
    let c = context.child_facet(RepositoryPreselection::new(RepositoryFacet::TYPE, "PROG"), 1, 5, false);
    let d = context.child_facet(RepositoryPreselection::new(RepositoryFacet::TYPE, "CLAS"), 1, 6, false);
    assert!(a.cache_compatible(&a));
    assert!(a.cache_compatible(&b) && b.cache_compatible(&a));
    assert!(!a.cache_compatible(&c));
    assert!(!a.cache_compatible(&d));
    let package = context.child_package("ZPKG".to_owned(), true);
    assert!(!a.cache_compatible(&package));
    assert!(ExpansionStrategy::Static.cache_compatible(&ExpansionStrategy::Static));
    assert!(!ExpansionStrategy::Static.cache_compatible(&ExpansionStrategy::Leaf));
    let other_policy = ExpansionContext::new(FacetPolicy::default(), Vec::new());
    assert!(!ExpansionStrategy::Selection { context: context.clone() }
        .cache_compatible(&ExpansionStrategy::Selection { context: other_policy }));
}
