use zadt::vfs::catalog::{catalog_lookup, validate_policies};
use zadt::vfs::config::{FacetLevel, FacetPolicy, Mount};
use zadt::vfs::error::VfsError;
use zadt::vfs::graph::{ChildrenLookup, Graph};
use zadt::vfs::load::{can_start_load, ContentQuery, LoadStep, Loaded, Loader};
use zadt::vfs::node::{Node, NodeId, NodeKind};
use zadt::vfs::prepared::PreparedNode;
use zadt::{
    AdtUri, GlobalWorkbenchType, ObjectRef, RepositoryContent, RepositoryFacet,
    RepositoryFacetDefinition, RepositoryObjectEntry, RepositoryPreselection,
    RepositoryVirtualFolder,
};

fn folder(facet: RepositoryFacet, name: &str, display: &str, count: u32, same: bool) -> RepositoryVirtualFolder {
    RepositoryVirtualFolder {
        facet,
        name: name.to_owned(),
        display_name: Some(display.to_owned()),
        object_count: count,
        has_children_of_same_facet: same,
        uri: None,
    }
}

fn package_folder(name: &str, count: u32) -> RepositoryVirtualFolder {
    let mut f = folder(RepositoryFacet::PACKAGE, name, name, count, false);
    f.uri = Some(AdtUri::parse(&format!("/sap/bc/adt/packages/{}", name.replace('/', "%2f"))).unwrap());
    f
}

fn entry(name: &str, uri: &str) -> RepositoryObjectEntry {
    RepositoryObjectEntry {
        name: name.to_owned(),
        package: "/ROOT".to_owned(),
        object_type: GlobalWorkbenchType::parse("CLAS/OC").unwrap(),
        reference: ObjectRef::parse(uri).unwrap(),
        virtual_workbench_uri: None,
        version: None,
        expandable: true,
        description: Some("Demo class".to_owned()),
    }
}

fn folders(count: u32, folders: Vec<RepositoryVirtualFolder>) -> RepositoryContent {
    RepositoryContent { object_count: count, folders, objects: Vec::new() }
}

fn objects(count: u32, objects: Vec<RepositoryObjectEntry>) -> RepositoryContent {
    RepositoryContent { object_count: count, folders: Vec::new(), objects }
}

fn definition(key: &str, hierarchical: bool, structuring: bool) -> RepositoryFacetDefinition {
    RepositoryFacetDefinition {
        key: key.to_owned(),
        display_name: key.to_owned(),
        is_hierarchical: hierarchical,
        is_for_filtering: true,
        is_for_structuring: structuring,
    }
}

fn catalog() -> Vec<RepositoryFacetDefinition> {
    vec![
        definition("package", true, true),
        definition("appl", true, true),
        definition("owner", false, true),
        definition("group", false, true),
        definition("type", false, true),
        definition("filter_only", false, false),
    ]
}

fn packages() -> AdtUri {
    AdtUri::parse("/sap/bc/adt/packages").unwrap()
}

/// Runs a load to completion, answering each query from `answer` and
/// recording the queries.
fn run(
    expansion: zadt::vfs::expand::ExpansionStrategy,
    refresh: bool,
    queries: &mut Vec<ContentQuery>,
    answer: &mut dyn FnMut(&ContentQuery) -> RepositoryContent,
) -> Result<Loaded, VfsError> {
    let cat = catalog();
    assert!(can_start_load(&expansion, refresh, &cat));
    let mut loader = Loader::start(expansion, refresh, &cat);
    loop {
        let query = loader.query();
        let content = answer(&query);
        queries.push(query);
        match loader.advance(content)? {
            LoadStep::Query(next) => loader = next,
            LoadStep::Done(loaded) => return Ok(loaded),
        }
    }
}

fn expand(graph: &mut Graph, id: NodeId, refresh: bool, queries: &mut Vec<ContentQuery>, answer: &mut dyn FnMut(&ContentQuery) -> RepositoryContent) -> Vec<Node> {
    let expansion = match graph.expansion_to_load(id, refresh).unwrap() {
        ChildrenLookup::Cached(nodes) => return nodes,
        ChildrenLookup::Expand(expansion) => expansion,
    };
    let loaded = run(expansion, refresh, queries, answer).unwrap();
    graph.commit_children(id, loaded).unwrap()
}

fn facet_of(query: &ContentQuery) -> Option<&str> {
    query.facet.as_ref().map(|f| f.as_str())
}

fn has_value(query: &ContentQuery, facet: &str, value: &str) -> bool {
    query
        .preselections
        .iter()
        .any(|p| p.facet().as_str() == facet && p.values().iter().any(|v| v == value))
}

fn labels(nodes: &[Node]) -> Vec<&str> {
    nodes.iter().map(|n| n.label.as_str()).collect()
}

#[test]
fn traverses_packages_groups_types_and_objects_with_the_load_machine() {
    let mount = PreparedNode::from_mount(Mount::package("/ROOT"), &packages()).unwrap();
    let mut graph = Graph::build(vec![mount]);
    let root = graph.root();
    let mounts = graph.cached_children(root).unwrap().unwrap();
    assert_eq!(mounts.len(), 1);
    assert!(matches!(mounts[0].kind, NodeKind::Package { .. }));

    let mut queries = Vec::new();
    let mut answer = |q: &ContentQuery| {
        if has_value(q, "PACKAGE", "/ROOT") && facet_of(q) == Some("PACKAGE") {
            folders(9, vec![package_folder("../ROOT", 2), package_folder("/ROOT/CHILD", 7)])
        } else if has_value(q, "PACKAGE", "../ROOT") && facet_of(q) == Some("GROUP") {
            folders(12, vec![folder(RepositoryFacet::GROUP, "SOURCE_LIBRARY", "Source Code Library", 12, false)])
        } else if has_value(q, "GROUP", "SOURCE_LIBRARY") && facet_of(q) == Some("TYPE") {
            folders(12, vec![folder(RepositoryFacet::TYPE, "CLAS", "Classes", 12, false)])
        } else if has_value(q, "TYPE", "CLAS") && facet_of(q).is_none() {
            objects(1, vec![entry("ZCL_DEMO", "/sap/bc/adt/oo/classes/zcl_demo")])
        } else {
            panic!("unexpected query {q:?}")
        }
    };
    let package_children = expand(&mut graph, mounts[0].id, false, &mut queries, &mut answer);
    assert_eq!(labels(&package_children), ["/ROOT/CHILD", "Source Code Library"]);

    let group = package_children.iter().find(|n| n.label == "Source Code Library").unwrap();
    let types = expand(&mut graph, group.id, false, &mut queries, &mut answer);
    assert_eq!(types[0].label, "Classes");

    let objects = expand(&mut graph, types[0].id, false, &mut queries, &mut answer);
    assert_eq!(objects[0].label, "ZCL_DEMO");
    assert!(!objects[0].is_directory());
    assert_eq!(
        graph.object_entry(objects[0].id).unwrap().reference.uri().as_str(),
        "/sap/bc/adt/oo/classes/zcl_demo"
    );

    let path = graph.path(objects[0].id).unwrap();
    assert_eq!(labels(&path), ["/", "/ROOT", "Source Code Library", "Classes", "ZCL_DEMO"]);
    assert_eq!(
        graph.render_tree(),
        "/\n└── /ROOT\n    ├── /ROOT/CHILD\n    └── Source Code Library\n        └── Classes\n            └── ZCL_DEMO"
    );
    assert!(queries.iter().any(|q| has_value(q, "PACKAGE", "../ROOT")));
}

#[test]
fn adaptive_type_facets_skip_small_layers_and_keep_large_layers_with_the_load_machine() {
    for (count, expected_label, expected_queries) in [(3, "ZCL_DEMO", 3), (10, "Classes", 2)] {
        let mount = Mount::selection("Objects", vec![RepositoryPreselection::new(RepositoryFacet::OWNER, "DEVELOPER")])
            .facet_policy(FacetPolicy::new(vec![
                FacetLevel::always(RepositoryFacet::GROUP),
                FacetLevel::adaptive(RepositoryFacet::TYPE, 10),
            ]));
        let mut graph = Graph::build(vec![PreparedNode::from_mount(mount, &packages()).unwrap()]);
        let root = graph.root();
        let mount = graph.cached_children(root).unwrap().unwrap().remove(0);
        let mut queries = Vec::new();
        let mut answer = |q: &ContentQuery| match facet_of(q) {
            Some("GROUP") => folders(count, vec![folder(RepositoryFacet::GROUP, "SOURCE_LIBRARY", "Source Code Library", count, false)]),
            Some("TYPE") => folders(count, vec![folder(RepositoryFacet::TYPE, "CLAS", "Classes", count, false)]),
            _ => objects(count, vec![entry("ZCL_DEMO", "/sap/bc/adt/oo/classes/zcl_demo")]),
        };
        let group = expand(&mut graph, mount.id, false, &mut queries, &mut answer).remove(0);
        let children = expand(&mut graph, group.id, false, &mut queries, &mut answer);
        assert_eq!(children[0].label, expected_label);
        assert_eq!(queries.len(), expected_queries);
    }
}

#[test]
fn repeats_hierarchical_facets_before_advancing_and_refreshes_them() {
    let mount = Mount::selection("Objects", vec![RepositoryPreselection::new(RepositoryFacet::OWNER, "DEVELOPER")])
        .facet_policy(FacetPolicy::grouped(vec![RepositoryFacet::APPLICATION_COMPONENT, RepositoryFacet::TYPE]));
    let mut graph = Graph::build(vec![PreparedNode::from_mount(mount, &packages()).unwrap()]);
    let root = graph.root();
    let mount = graph.cached_children(root).unwrap().unwrap().remove(0);
    let mut queries = Vec::new();
    let mut answer = |q: &ContentQuery| {
        if facet_of(q) == Some("TYPE") {
            folders(12, vec![folder(RepositoryFacet::TYPE, "CLAS", "Classes", 12, false)])
        } else if has_value(q, "APPL", "LEAF_APPL") {
            folders(2, vec![folder(RepositoryFacet::APPLICATION_COMPONENT, "NEW_SUB_APPL", "New Subcomponent", 2, false)])
        } else if has_value(q, "APPL", "ROOT_APPL") {
            folders(4, vec![folder(RepositoryFacet::APPLICATION_COMPONENT, "LEAF_APPL", "Leaf Component", 4, false)])
        } else {
            folders(8, vec![folder(RepositoryFacet::APPLICATION_COMPONENT, "ROOT_APPL", "Root Component", 8, true)])
        }
    };
    let root_component = expand(&mut graph, mount.id, false, &mut queries, &mut answer).remove(0);
    let leaf_component = expand(&mut graph, root_component.id, false, &mut queries, &mut answer).remove(0);
    let object_types = expand(&mut graph, leaf_component.id, false, &mut queries, &mut answer);
    assert_eq!(root_component.label, "Root Component");
    assert_eq!(leaf_component.label, "Leaf Component");
    assert_eq!(object_types[0].label, "Classes");
    assert_eq!(facet_of(&queries[1]), Some("APPL"));
    assert_eq!(facet_of(&queries[2]), Some("TYPE"));

    let old_type = object_types[0].id;
    graph.refresh_before_load(leaf_component.id).unwrap();
    let refreshed = expand(&mut graph, leaf_component.id, true, &mut queries, &mut answer);
    assert_eq!(refreshed[0].label, "New Subcomponent");
    assert!(matches!(
        graph.node(leaf_component.id).unwrap().kind,
        NodeKind::Facet { has_children_of_same_facet: true, .. }
    ));
    assert!(graph.node(old_type).is_none());
    assert_eq!(facet_of(&queries[3]), Some("APPL"));
    for q in &queries {
        assert!(has_value(q, "OWNER", "DEVELOPER"));
    }
}

#[test]
fn refresh_replaces_descendants_and_invalidates_old_ids_in_the_graph() {
    let mount = Mount::selection("Objects", Vec::new()).facet_policy(FacetPolicy::flat());
    let mut graph = Graph::build(vec![PreparedNode::from_mount(mount, &packages()).unwrap()]);
    let root = graph.root();
    let mount = graph.cached_children(root).unwrap().unwrap().remove(0);
    let mut queries = Vec::new();
    let mut round = 0;
    let mut answer = |_: &ContentQuery| {
        round += 1;
        let name = if round == 1 { "Z_FIRST" } else { "Z_SECOND" };
        objects(1, vec![entry(name, &format!("/sap/bc/adt/programs/programs/{name}"))])
    };
    let first = expand(&mut graph, mount.id, false, &mut queries, &mut answer).remove(0);
    let cached = expand(&mut graph, mount.id, false, &mut queries, &mut answer);
    assert_eq!(cached[0].id, first.id);
    assert_eq!(queries.len(), 1);
    let second = expand(&mut graph, mount.id, true, &mut queries, &mut answer).remove(0);
    assert_eq!(first.label, "Z_FIRST");
    assert_eq!(second.label, "Z_SECOND");
    assert!(graph.node(first.id).is_none());
    assert!(matches!(graph.object_entry(first.id), Err(VfsError::UnknownNode(id)) if id == first.id));
    assert!(matches!(graph.expansion_to_load(second.id, false), Err(VfsError::NotDirectory(_))));
    assert!(matches!(graph.children_before_load(second.id), Err(VfsError::NotDirectory(_))));
    assert!(matches!(graph.refresh_before_load(root), Err(VfsError::NotRefreshable(_))));
}

#[test]
fn stale_commits_change_nothing_and_foreign_ids_are_unknown() {
    let mount = Mount::selection("Objects", Vec::new()).facet_policy(FacetPolicy::flat());
    let mut graph = Graph::build(vec![PreparedNode::from_mount(mount, &packages()).unwrap()]);
    let other = Graph::build(Vec::new());
    let root = graph.root();
    assert!(graph.node(other.root()).is_none() || other.root() == root);
    let stale = NodeId::new(root.scope, 99);
    let before = graph.render_tree();
    let loaded = Loaded { prepared: Vec::new(), object_count: None, has_children_of_same_facet: None };
    assert!(matches!(graph.commit_children(stale, loaded), Err(VfsError::StaleNode(id)) if id == stale));
    assert_eq!(graph.render_tree(), before);
    assert!(matches!(graph.path(stale), Err(VfsError::UnknownNode(_))));
    assert!(matches!(graph.cached_children(stale), Err(VfsError::UnknownNode(_))));
}

#[test]
fn validates_facet_policies_against_the_catalog() {
    let cat = catalog();
    let missing = Mount::selection("Missing", Vec::new())
        .facet_policy(FacetPolicy::grouped(vec![RepositoryFacet::from_name("MISSING")]));
    assert!(matches!(
        validate_policies(&[missing], &cat),
        Err(VfsError::UnsupportedFacet(f)) if f.as_str() == "MISSING"
    ));
    let unstructured = Mount::selection("Unstructured", Vec::new())
        .facet_policy(FacetPolicy::grouped(vec![RepositoryFacet::from_name("FILTER_ONLY")]));
    assert!(matches!(
        validate_policies(&[unstructured], &cat),
        Err(VfsError::UnstructuredFacet(f)) if f.as_str() == "FILTER_ONLY"
    ));
    assert!(validate_policies(&[Mount::system_library("System")], &cat).is_ok());
    assert_eq!(catalog_lookup(&cat, &RepositoryFacet::OWNER), Some(2));
    let mut twice = cat;
    twice.push(definition("owner", true, true));
    assert_eq!(catalog_lookup(&twice, &RepositoryFacet::OWNER), Some(6));
}

#[test]
fn package_folders_without_uri_are_refused_and_direct_entries_skipped() {
    let mount = PreparedNode::from_mount(Mount::named_package("Root", "/ROOT"), &packages()).unwrap();
    assert_eq!(mount.label, "Root");
    let mut graph = Graph::build(vec![mount]);
    let root = graph.root();
    let package = graph.cached_children(root).unwrap().unwrap().remove(0);
    let lookup = graph.expansion_to_load(package.id, false).unwrap();
    let ChildrenLookup::Expand(expansion) = lookup else { panic!("expected an expansion") };
    let mut no_uri = Vec::new();
    let result = run(expansion, false, &mut no_uri, &mut |q: &ContentQuery| {
        if facet_of(q) == Some("PACKAGE") {
            folders(1, vec![folder(RepositoryFacet::PACKAGE, "/ROOT/CHILD", "/ROOT/CHILD", 1, false)])
        } else {
            objects(0, Vec::new())
        }
    });
    assert!(matches!(result, Err(VfsError::MissingPackageUri(name)) if name == "/ROOT/CHILD"));
    assert!(PreparedNode::from_mount(Mount::package(""), &packages()).is_err());
}

fn listed(label: &str, kind: NodeKind) -> PreparedNode {
    PreparedNode {
        label: label.to_owned(),
        kind,
        expansion: zadt::vfs::expand::ExpansionStrategy::Leaf,
        object: None,
    }
}

fn package_kind(name: &str) -> NodeKind {
    NodeKind::Package {
        package: name.to_owned(),
        uri: AdtUri::parse("/sap/bc/adt/packages/x").unwrap(),
        object_count: None,
    }
}

fn facet_kind(value: &str) -> NodeKind {
    NodeKind::Facet {
        facet: "TYPE".to_owned(),
        value: value.to_owned(),
        object_count: 1,
        has_children_of_same_facet: false,
    }
}

#[test]
fn siblings_are_listed_by_kind_then_folded_label_then_label() {
    let nodes = vec![
        listed("zeta", facet_kind("ZETA")),
        listed("Zeta", package_kind("Zeta")),
        listed("alpha", package_kind("alpha")),
        listed("beta", facet_kind("BETA")),
        listed("Alpha", package_kind("Alpha")),
        listed("Beta", facet_kind("BETA2")),
    ];
    let sorted = zadt::vfs::prepared::sort_listed(nodes);
    let labels: Vec<&str> = sorted.iter().map(|n| n.label.as_str()).collect();
    assert_eq!(labels, ["Alpha", "alpha", "Zeta", "Beta", "beta", "zeta"]);
    assert!(matches!(sorted[0].kind, NodeKind::Package { .. }));
    assert!(matches!(sorted[3].kind, NodeKind::Facet { .. }));
}

#[test]
fn siblings_listed_alike_keep_their_order() {
    let nodes = vec![
        listed("same", facet_kind("FIRST")),
        listed("same", facet_kind("SECOND")),
        listed("same", facet_kind("THIRD")),
    ];
    let sorted = zadt::vfs::prepared::sort_listed(nodes);
    let values: Vec<&str> = sorted
        .iter()
        .map(|n| match &n.kind {
            NodeKind::Facet { value, .. } => value.as_str(),
            _ => "",
        })
        .collect();
    assert_eq!(values, ["FIRST", "SECOND", "THIRD"]);
}

#[test]
fn a_package_folder_without_uri_fails_the_load_after_the_direct_content() {
    let mount = PreparedNode::from_mount(Mount::package("/ROOT"), &packages()).unwrap();
    let mut graph = Graph::build(vec![mount]);
    let root = graph.root();
    let mounts = graph.cached_children(root).unwrap().unwrap();
    let expansion = match graph.expansion_to_load(mounts[0].id, false).unwrap() {
        ChildrenLookup::Expand(expansion) => expansion,
        ChildrenLookup::Cached(_) => panic!("the mount was not expanded yet"),
    };
    let mut queries = Vec::new();
    let mut answer = |q: &ContentQuery| {
        if facet_of(q) == Some("PACKAGE") {
            folders(3, vec![folder(RepositoryFacet::PACKAGE, "/ROOT/CHILD", "/ROOT/CHILD", 3, false)])
        } else {
            objects(0, Vec::new())
        }
    };
    let result = run(expansion, false, &mut queries, &mut answer);
    assert!(matches!(result, Err(VfsError::MissingPackageUri(ref name)) if name == "/ROOT/CHILD"));
    assert!(queries.len() >= 2);
    assert!(has_value(&queries[1], "PACKAGE", "../ROOT"));
    assert!(graph.cached_children(mounts[0].id).unwrap().is_none());
}

#[test]
fn committed_children_are_cached_as_returned() {
    let mount = Mount::selection("Objects", Vec::new()).facet_policy(FacetPolicy::flat());
    let mut graph = Graph::build(vec![PreparedNode::from_mount(mount, &packages()).unwrap()]);
    let root = graph.root();
    let mount = graph.cached_children(root).unwrap().unwrap().remove(0);
    let mut queries = Vec::new();
    let mut answer = |_: &ContentQuery| {
        objects(
            2,
            vec![
                entry("Z_ONE", "/sap/bc/adt/programs/programs/Z_ONE"),
                entry("Z_TWO", "/sap/bc/adt/programs/programs/Z_TWO"),
            ],
        )
    };
    let returned = expand(&mut graph, mount.id, false, &mut queries, &mut answer);
    let listed = graph.cached_children(mount.id).unwrap().unwrap();
    assert_eq!(returned.len(), 2);
    assert_eq!(
        listed.iter().map(|n| (n.id, n.parent, n.label.clone())).collect::<Vec<_>>(),
        returned.iter().map(|n| (n.id, n.parent, n.label.clone())).collect::<Vec<_>>()
    );
    assert!(returned.iter().all(|n| n.parent == Some(mount.id)));
    match graph.children_before_load(mount.id).unwrap() {
        Some(again) => assert_eq!(again.len(), 2),
        None => panic!("children should be cached"),
    }
    assert_eq!(queries.len(), 1);
}
