//! How a directory's children are loaded: a machine that asks for one RIS
//! query at a time and decides, from each result, the next query or the
//! children.
//!
//! The caller sends each [`ContentQuery`] and hands the result back; the
//! machine itself performs no I/O.
use vstd::prelude::*;

use crate::repository::{
    EntryView, FolderView, RepositoryContent, RepositoryFacet, RepositoryFacetDefinition,
    RepositoryPreselection,
};
use crate::vfs::catalog::{catalog_index, catalog_lookup};
use crate::vfs::config::level_retains;
use crate::vfs::error::VfsError;
use crate::vfs::expand::{clone_preselections, preselections_view, ContextView, ExpansionContext, ExpansionStrategy, ExpansionView};
use crate::vfs::prepared::{
    entry_views, facet_folder_views, folder_views, listing_order, object_entry_views,
    package_folder_views, prepared_views, sort_listed, LoadedLayer, PreparedNode, PreparedView,
};

verus! {

/// The children a load produced, not yet part of the graph, with the facet
/// metadata learned on the way; `None` leaves the parent's value as it was.
#[derive(Debug)]
pub struct Loaded {
    /// The children, in listing order.
    pub prepared: Vec<PreparedNode>,
    /// The parent's current object count, where it was learned.
    pub object_count: Option<u32>,
    /// Whether the parent has children of its own facet, where it was learned.
    pub has_children_of_same_facet: Option<bool>,
}

/// The plain-value picture of [`Loaded`].
pub struct LoadedView {
    pub prepared: Seq<PreparedView>,
    pub object_count: Option<u32>,
    pub has_children_of_same_facet: Option<bool>,
}

impl View for Loaded {
    type V = LoadedView;

    open spec fn view(&self) -> LoadedView {
        LoadedView {
            prepared: prepared_views(self.prepared@),
            object_count: self.object_count,
            has_children_of_same_facet: self.has_children_of_same_facet,
        }
    }
}

/// One RIS query: the preselections and the facet whose folders are wanted,
/// or no facet for the objects themselves.
#[derive(Debug)]
pub struct ContentQuery {
    /// The complete filter path.
    pub preselections: Vec<RepositoryPreselection>,
    /// The facet to group by, or `None` for objects.
    pub facet: Option<RepositoryFacet>,
}

/// The plain-value picture of a [`ContentQuery`].
pub type QueryView = (Seq<(Seq<char>, Seq<Seq<char>>)>, Option<Seq<char>>);

impl View for ContentQuery {
    type V = QueryView;

    open spec fn view(&self) -> QueryView {
        (
            preselections_view(self.preselections@),
            match self.facet {
                Some(f) => Some(f@),
                None => None,
            },
        )
    }
}

/// What a finished layer of facet levels becomes.
#[derive(Debug)]
pub enum LayerUse {
    /// The layer's nodes alone.
    Plain,
    /// The layer's nodes, and its object count for the parent.
    Counted,
    /// A refreshed facet without children of its own facet: the layer's
    /// nodes and object count.
    RefreshFlat,
    /// A refreshed facet whose children of its own facet were skipped by an
    /// adaptive level: the layer's nodes and the count of that facet query.
    RefreshSkipped { object_count: u32 },
    /// The directly assigned content of a package, merged with its child
    /// packages where they were probed.
    Package { packages: Option<Vec<PreparedNode>> },
    /// The directly assigned content of a package whose child-package probe
    /// named a package folder without a URI: once the content has loaded,
    /// the load fails with that folder's name.
    PackageRejected { name: String },
}

/// The plain-value picture of a [`LayerUse`].
pub enum UseView {
    Plain,
    Counted,
    RefreshFlat,
    RefreshSkipped(u32),
    Package(Option<Seq<PreparedView>>),
    PackageRejected(Seq<char>),
}

impl View for LayerUse {
    type V = UseView;

    open spec fn view(&self) -> UseView {
        match self {
            LayerUse::Plain => UseView::Plain,
            LayerUse::Counted => UseView::Counted,
            LayerUse::RefreshFlat => UseView::RefreshFlat,
            LayerUse::RefreshSkipped { object_count } => UseView::RefreshSkipped(*object_count),
            LayerUse::Package { packages } => UseView::Package(
                match packages {
                    Some(p) => Some(prepared_views(p@)),
                    None => None,
                },
            ),
            LayerUse::PackageRejected { name } => UseView::PackageRejected(name@),
        }
    }
}

/// A load waiting for the result of one query.
#[derive(Debug)]
pub enum Loader {
    /// Walking the policy from level `next_facet`: adaptive levels below
    /// their threshold are skipped, and past the last level the objects
    /// themselves are listed.
    Layer { context: ExpansionContext, next_facet: usize, then: LayerUse },
    /// Listing the package hierarchy.
    PackageIndex { context: ExpansionContext },
    /// Probing the child packages of a package before its direct content.
    ChildPackages { package: String, context: ExpansionContext, direct: ExpansionContext },
    /// Re-probing a hierarchical facet for children of its own facet.
    SameFacet { context: ExpansionContext, facet_index: usize },
}

/// The plain-value picture of a [`Loader`].
pub enum LoaderView {
    Layer { context: ContextView, next_facet: usize, then: UseView },
    PackageIndex(ContextView),
    ChildPackages { package: Seq<char>, context: ContextView, direct: ContextView },
    SameFacet { context: ContextView, facet_index: usize },
}

impl View for Loader {
    type V = LoaderView;

    open spec fn view(&self) -> LoaderView {
        match self {
            Loader::Layer { context, next_facet, then } => LoaderView::Layer {
                context: context@,
                next_facet: *next_facet,
                then: then@,
            },
            Loader::PackageIndex { context } => LoaderView::PackageIndex(context@),
            Loader::ChildPackages { package, context, direct } => LoaderView::ChildPackages {
                package: package@,
                context: context@,
                direct: direct@,
            },
            Loader::SameFacet { context, facet_index } => LoaderView::SameFacet {
                context: context@,
                facet_index: *facet_index,
            },
        }
    }
}

/// The outcome of handing a result to a load: another query, or the
/// children.
#[derive(Debug)]
pub enum LoadStep {
    /// The load needs the result of the loader's next query.
    Query(Loader),
    /// The load is complete.
    Done(Loaded),
}

/// The plain-value picture of a [`LoadStep`].
pub enum StepView {
    Query(LoaderView),
    Done(LoadedView),
}

impl View for LoadStep {
    type V = StepView;

    open spec fn view(&self) -> StepView {
        match self {
            LoadStep::Query(l) => StepView::Query(l@),
            LoadStep::Done(d) => StepView::Done(d@),
        }
    }
}

/// The preselection that selects one package with its subpackages.
pub open spec fn package_selection(package: Seq<char>) -> (Seq<char>, Seq<Seq<char>>) {
    ("PACKAGE"@, seq![package])
}

/// The preselection that selects the objects assigned directly to a package.
pub open spec fn direct_selection(package: Seq<char>) -> (Seq<char>, Seq<Seq<char>>) {
    ("PACKAGE"@, seq![".."@ + package])
}

/// Where a load of an expansion starts. A refresh always probes a package's
/// child packages and re-probes a hierarchical facet for children of its own
/// facet; otherwise a facet folder repeats its level while it has children of
/// the same facet and advances to the next level after that.
pub open spec fn load_start(e: ExpansionView, refresh: bool, cat: Seq<RepositoryFacetDefinition>) -> LoaderView {
    match e {
        ExpansionView::PackageIndex(c) => LoaderView::PackageIndex(c),
        ExpansionView::Package { package, context, has_child_packages } => {
            let direct = (context.0, context.1.push(direct_selection(package)));
            if has_child_packages || refresh {
                LoaderView::ChildPackages { package, context, direct }
            } else {
                LoaderView::Layer { context: direct, next_facet: 0, then: UseView::Package(None) }
            }
        },
        ExpansionView::Selection(c) => LoaderView::Layer { context: c, next_facet: 0, then: UseView::Plain },
        ExpansionView::Facet { context, facet_index, object_count: _, has_children_of_same_facet } => {
            if refresh {
                let i = catalog_index(cat, context.0[facet_index as int].facet).unwrap();
                if !cat[i].is_hierarchical {
                    LoaderView::Layer {
                        context,
                        next_facet: (facet_index + 1) as usize,
                        then: UseView::RefreshFlat,
                    }
                } else {
                    LoaderView::SameFacet { context, facet_index }
                }
            } else {
                LoaderView::Layer {
                    context,
                    next_facet: if has_children_of_same_facet {
                        facet_index
                    } else {
                        (facet_index + 1) as usize
                    },
                    then: UseView::Counted,
                }
            }
        },
        _ => LoaderView::Layer { context: (Seq::empty(), Seq::empty()), next_facet: 0, then: UseView::Plain },
    }
}

/// The query a waiting load needs answered.
pub open spec fn load_query(l: LoaderView) -> QueryView {
    match l {
        LoaderView::Layer { context, next_facet, then: _ } => (
            context.1,
            if next_facet < context.0.len() {
                Some(context.0[next_facet as int].facet)
            } else {
                None
            },
        ),
        LoaderView::PackageIndex(c) => (c.1, Some("PACKAGE"@)),
        LoaderView::ChildPackages { package, context, direct: _ } => (
            context.1.push(package_selection(package)),
            Some("PACKAGE"@),
        ),
        LoaderView::SameFacet { context, facet_index } => (
            context.1,
            Some(context.0[facet_index as int].facet),
        ),
    }
}

/// What a finished layer becomes for the parent.
pub open spec fn layer_outcome(then: UseView, nodes: Seq<PreparedView>, object_count: u32) -> LoadedView {
    match then {
        UseView::Plain => LoadedView { prepared: nodes, object_count: None, has_children_of_same_facet: None },
        UseView::Counted => LoadedView {
            prepared: nodes,
            object_count: Some(object_count),
            has_children_of_same_facet: None,
        },
        UseView::RefreshFlat => LoadedView {
            prepared: nodes,
            object_count: Some(object_count),
            has_children_of_same_facet: Some(false),
        },
        UseView::RefreshSkipped(n) => LoadedView {
            prepared: nodes,
            object_count: Some(n),
            has_children_of_same_facet: Some(true),
        },
        UseView::Package(None) => LoadedView {
            prepared: nodes,
            object_count: None,
            has_children_of_same_facet: None,
        },
        UseView::Package(Some(p)) => LoadedView {
            prepared: listing_order(p + nodes),
            object_count: None,
            has_children_of_same_facet: None,
        },
        UseView::PackageRejected(_) => LoadedView {
            prepared: nodes,
            object_count: None,
            has_children_of_same_facet: None,
        },
    }
}

/// How a load ends once its last layer has loaded: the children, or the
/// name of a package folder without a URI that an earlier probe found.
pub open spec fn layer_done(then: UseView, nodes: Seq<PreparedView>, object_count: u32) -> Result<StepView, Seq<char>> {
    match then {
        UseView::PackageRejected(name) => Err(name),
        _ => Ok(StepView::Done(layer_outcome(then, nodes, object_count))),
    }
}

/// What a waiting load does with the result of its query: the next query,
/// the children, or the name of a package folder that carries no URI.
pub open spec fn load_advance(
    l: LoaderView,
    object_count: u32,
    folders: Seq<FolderView>,
    entries: Seq<EntryView>,
) -> Result<StepView, Seq<char>> {
    match l {
        LoaderView::Layer { context, next_facet, then } => {
            if next_facet < context.0.len() {
                if level_retains(context.0[next_facet as int], object_count) {
                    layer_done(
                        then,
                        listing_order(facet_folder_views(folders, context, next_facet)),
                        object_count,
                    )
                } else {
                    Ok(
                        StepView::Query(
                            LoaderView::Layer {
                                context,
                                next_facet: (next_facet + 1) as usize,
                                then,
                            },
                        ),
                    )
                }
            } else {
                layer_done(then, listing_order(object_entry_views(entries)), object_count)
            }
        },
        LoaderView::PackageIndex(c) => match package_folder_views(folders, c) {
            Ok(vs) => Ok(
                StepView::Done(
                    LoadedView {
                        prepared: listing_order(vs),
                        object_count: None,
                        has_children_of_same_facet: None,
                    },
                ),
            ),
            Err(name) => Err(name),
        },
        LoaderView::ChildPackages { package: _, context, direct } => match package_folder_views(
            folders,
            context,
        ) {
            Ok(vs) => Ok(
                StepView::Query(
                    LoaderView::Layer {
                        context: direct,
                        next_facet: 0,
                        then: UseView::Package(Some(listing_order(vs))),
                    },
                ),
            ),
            Err(name) => Ok(
                StepView::Query(
                    LoaderView::Layer {
                        context: direct,
                        next_facet: 0,
                        then: UseView::PackageRejected(name),
                    },
                ),
            ),
        },
        LoaderView::SameFacet { context, facet_index } => {
            if folders.len() > 0 {
                if level_retains(context.0[facet_index as int], object_count) {
                    Ok(
                        StepView::Done(
                            LoadedView {
                                prepared: listing_order(
                                    facet_folder_views(folders, context, facet_index),
                                ),
                                object_count: Some(object_count),
                                has_children_of_same_facet: Some(true),
                            },
                        ),
                    )
                } else {
                    Ok(
                        StepView::Query(
                            LoaderView::Layer {
                                context,
                                next_facet: (facet_index + 1) as usize,
                                then: UseView::RefreshSkipped(object_count),
                            },
                        ),
                    )
                }
            } else {
                Ok(
                    StepView::Query(
                        LoaderView::Layer {
                            context,
                            next_facet: (facet_index + 1) as usize,
                            then: UseView::RefreshFlat,
                        },
                    ),
                )
            }
        },
    }
}

/// Whether a waiting load is in a state it can be in: the policy levels it
/// refers to exist.
pub open spec fn loader_valid(l: LoaderView) -> bool {
    match l {
        LoaderView::Layer { context, next_facet, then: _ } => next_facet <= context.0.len(),
        LoaderView::SameFacet { context, facet_index } => facet_index < context.0.len(),
        _ => true,
    }
}

/// Whether a load of an expansion can start: it is neither static nor a
/// leaf, a facet folder's level exists, and a refreshed facet is in the
/// catalog.
pub open spec fn can_start(e: ExpansionView, refresh: bool, cat: Seq<RepositoryFacetDefinition>) -> bool {
    match e {
        ExpansionView::Static => false,
        ExpansionView::Leaf => false,
        ExpansionView::Facet { context, facet_index, .. } => {
            &&& facet_index < context.0.len()
            &&& refresh ==> catalog_index(cat, context.0[facet_index as int].facet) is Some
        },
        _ => true,
    }
}

impl Loader {
    /// Starts loading the children of an expansion.
    pub fn start(expansion: ExpansionStrategy, refresh: bool, catalog: &[RepositoryFacetDefinition]) -> (r: Self)
        requires
            can_start(expansion@, refresh, catalog@),
        ensures
            r@ == load_start(expansion@, refresh, catalog@),
            loader_valid(r@),
    {
        match expansion {
            ExpansionStrategy::PackageIndex { context } => Loader::PackageIndex { context },
            ExpansionStrategy::Package { package, context, has_child_packages } => {
                let direct = context.with(RepositoryPreselection::directly_assigned(package.as_str()));
                assert(direct@ == (context@.0, context@.1.push(direct_selection(package@))));
                if has_child_packages || refresh {
                    Loader::ChildPackages { package, context, direct }
                } else {
                    Loader::Layer { context: direct, next_facet: 0, then: LayerUse::Package { packages: None } }
                }
            },
            ExpansionStrategy::Selection { context } => Loader::Layer {
                context,
                next_facet: 0,
                then: LayerUse::Plain,
            },
            ExpansionStrategy::Facet { context, facet_index, object_count: _, has_children_of_same_facet } => {
                let levels = context.facet_policy().levels();
                let n = levels.len();
                proof {
                    assert(crate::vfs::config::levels_view(levels@)[facet_index as int] == levels@[facet_index as int]@);
                    assert(crate::vfs::config::levels_view(levels@).len() == n);
                    assert(facet_index < n);
                    assert(levels@[facet_index as int]@.facet == context@.0[facet_index as int].facet);
                }
                if refresh {
                    let catalog_len = catalog.len();
                    let f = levels[facet_index].facet();
                    assert(f@ == context@.0[facet_index as int].facet);
                    let found = catalog_lookup(catalog, f);
                    assert(catalog_index(catalog@, f@) is Some);
                    assert(found is Some);
                    let k = found.unwrap();
                    proof {
                        let i = catalog_index(catalog@, f@).unwrap();
                        assert(0 <= i < catalog@.len());
                        assert(k == i as usize);
                        assert(k as int == i);
                    }
                    if !catalog[k].is_hierarchical {
                        Loader::Layer { context, next_facet: facet_index + 1, then: LayerUse::RefreshFlat }
                    } else {
                        Loader::SameFacet { context, facet_index }
                    }
                } else {
                    let next_facet = if has_children_of_same_facet {
                        facet_index
                    } else {
                        facet_index + 1
                    };
                    Loader::Layer { context, next_facet, then: LayerUse::Counted }
                }
            },
            ExpansionStrategy::Static => Loader::Layer {
                context: ExpansionContext::new(crate::vfs::config::FacetPolicy::flat(), Vec::new()),
                next_facet: 0,
                then: LayerUse::Plain,
            },
            ExpansionStrategy::Leaf => Loader::Layer {
                context: ExpansionContext::new(crate::vfs::config::FacetPolicy::flat(), Vec::new()),
                next_facet: 0,
                then: LayerUse::Plain,
            },
        }
    }
}


/// Makes a finished layer into the children of the parent.
fn finish(then: LayerUse, layer: LoadedLayer) -> (r: Loaded)
    requires
        !(then is PackageRejected),
    ensures
        r@ == layer_outcome(then@, prepared_views(layer.nodes@), layer.object_count),
{
    let LoadedLayer { nodes, object_count } = layer;
    match then {
        LayerUse::Plain => Loaded { prepared: nodes, object_count: None, has_children_of_same_facet: None },
        LayerUse::Counted => Loaded {
            prepared: nodes,
            object_count: Some(object_count),
            has_children_of_same_facet: None,
        },
        LayerUse::RefreshFlat => Loaded {
            prepared: nodes,
            object_count: Some(object_count),
            has_children_of_same_facet: Some(false),
        },
        LayerUse::RefreshSkipped { object_count: n } => Loaded {
            prepared: nodes,
            object_count: Some(n),
            has_children_of_same_facet: Some(true),
        },
        LayerUse::Package { packages: None } => Loaded {
            prepared: nodes,
            object_count: None,
            has_children_of_same_facet: None,
        },
        LayerUse::Package { packages: Some(packages) } => {
            let mut all = packages;
            let mut rest = nodes;
            let ghost p = all@;
            let ghost o = rest@;
            all.append(&mut rest);
            assert(prepared_views(all@) =~= prepared_views(p) + prepared_views(o));
            Loaded { prepared: sort_listed(all), object_count: None, has_children_of_same_facet: None }
        },
        LayerUse::PackageRejected { .. } => Loaded {
            prepared: nodes,
            object_count: None,
            has_children_of_same_facet: None,
        },
    }
}

/// Ends a load whose last layer has loaded: the children, or the error a
/// child-package probe found.
fn complete(then: LayerUse, layer: LoadedLayer) -> (r: Result<LoadStep, VfsError>)
    ensures
        match layer_done(then@, prepared_views(layer.nodes@), layer.object_count) {
            Ok(step) => r matches Ok(s) && s@ == step && !(s is Query),
            Err(name) => r matches Err(VfsError::MissingPackageUri(n)) && n@ == name,
        },
{
    match then {
        LayerUse::PackageRejected { name } => Err(VfsError::MissingPackageUri(name)),
        other => Ok(LoadStep::Done(finish(other, layer))),
    }
}

impl Loader {
    /// The query this load needs answered next.
    pub fn query(&self) -> (r: ContentQuery)
        requires
            loader_valid(self@),
        ensures
            r@ == load_query(self@),
    {
        match self {
            Loader::Layer { context, next_facet, then: _ } => {
                let levels = context.facet_policy().levels();
                let facet = if *next_facet < levels.len() {
                    proof {
                        assert(crate::vfs::config::levels_view(levels@)[*next_facet as int] == levels@[*next_facet as int]@);
                    }
                    Some(levels[*next_facet].facet().clone())
                } else {
                    None
                };
                ContentQuery { preselections: clone_preselections(context.preselections()), facet }
            },
            Loader::PackageIndex { context } => {
                proof {
                    reveal_strlit("PACKAGE");
                }
                ContentQuery {
                    preselections: clone_preselections(context.preselections()),
                    facet: Some(RepositoryFacet::PACKAGE),
                }
            },
            Loader::ChildPackages { package, context, direct: _ } => {
                proof {
                    reveal_strlit("PACKAGE");
                }
                let mut preselections = clone_preselections(context.preselections());
                let ghost before = preselections@;
                preselections.push(RepositoryPreselection::new(RepositoryFacet::PACKAGE, package.as_str()));
                assert(preselections_view(preselections@) =~= preselections_view(before).push(
                    package_selection(package@),
                ));
                ContentQuery { preselections, facet: Some(RepositoryFacet::PACKAGE) }
            },
            Loader::SameFacet { context, facet_index } => {
                let levels = context.facet_policy().levels();
                proof {
                    assert(crate::vfs::config::levels_view(levels@)[*facet_index as int] == levels@[*facet_index as int]@);
                }
                ContentQuery {
                    preselections: clone_preselections(context.preselections()),
                    facet: Some(levels[*facet_index].facet().clone()),
                }
            },
        }
    }

    /// Hands the result of this load's query to it: the next query, the
    /// children, or an error where a package folder carries no URI.
    pub fn advance(self, content: RepositoryContent) -> (r: Result<LoadStep, VfsError>)
        requires
            loader_valid(self@),
        ensures
            match load_advance(
                self@,
                content.object_count,
                folder_views(content.folders@),
                entry_views(content.objects@),
            ) {
                Ok(step) => r matches Ok(s) && s@ == step && (s matches LoadStep::Query(l)
                    ==> loader_valid(l@)),
                Err(name) => r matches Err(VfsError::MissingPackageUri(n)) && n@ == name,
            },
    {
        match self {
            Loader::Layer { context, next_facet, then } => {
                let levels = context.facet_policy().levels();
                if next_facet < levels.len() {
                    proof {
                        assert(crate::vfs::config::levels_view(levels@)[next_facet as int] == levels@[next_facet as int]@);
                    }
                    if levels[next_facet].retains(content.object_count) {
                        let layer = LoadedLayer::from_folders(content, &context, next_facet);
                        complete(then, layer)
                    } else {
                        Ok(LoadStep::Query(Loader::Layer { context, next_facet: next_facet + 1, then }))
                    }
                } else {
                    let layer = LoadedLayer::from_objects(content);
                    complete(then, layer)
                }
            },
            Loader::PackageIndex { context } => match LoadedLayer::from_packages(content, &context) {
                Ok(layer) => Ok(
                    LoadStep::Done(
                        Loaded { prepared: layer.nodes, object_count: None, has_children_of_same_facet: None },
                    ),
                ),
                Err(e) => Err(e),
            },
            Loader::ChildPackages { package: _, context, direct } => match LoadedLayer::from_packages(
                content,
                &context,
            ) {
                Ok(layer) => Ok(
                    LoadStep::Query(
                        Loader::Layer {
                            context: direct,
                            next_facet: 0,
                            then: LayerUse::Package { packages: Some(layer.nodes) },
                        },
                    ),
                ),
                Err(VfsError::MissingPackageUri(name)) => Ok(
                    LoadStep::Query(
                        Loader::Layer {
                            context: direct,
                            next_facet: 0,
                            then: LayerUse::PackageRejected { name },
                        },
                    ),
                ),
                Err(e) => Err(e),
            },
            Loader::SameFacet { context, facet_index } => {
                let levels = context.facet_policy().levels();
                let n = levels.len();
                proof {
                    assert(crate::vfs::config::levels_view(levels@)[facet_index as int] == levels@[facet_index as int]@);
                    assert(crate::vfs::config::levels_view(levels@).len() == n);
                    assert(facet_index < n);
                }
                if content.folders.len() > 0 {
                    if levels[facet_index].retains(content.object_count) {
                        let object_count = content.object_count;
                        let layer = LoadedLayer::from_folders(content, &context, facet_index);
                        Ok(
                            LoadStep::Done(
                                Loaded {
                                    prepared: layer.nodes,
                                    object_count: Some(object_count),
                                    has_children_of_same_facet: Some(true),
                                },
                            ),
                        )
                    } else {
                        Ok(
                            LoadStep::Query(
                                Loader::Layer {
                                    context,
                                    next_facet: facet_index + 1,
                                    then: LayerUse::RefreshSkipped { object_count: content.object_count },
                                },
                            ),
                        )
                    }
                } else {
                    Ok(
                        LoadStep::Query(
                            Loader::Layer { context, next_facet: facet_index + 1, then: LayerUse::RefreshFlat },
                        ),
                    )
                }
            },
        }
    }
}


/// How many more queries a waiting load can need at most.
pub open spec fn queries_left(l: LoaderView) -> nat {
    match l {
        LoaderView::Layer { context, next_facet, then: _ } => (context.0.len() - next_facet + 1) as nat,
        LoaderView::PackageIndex(_) => 1,
        LoaderView::ChildPackages { package: _, context: _, direct } => direct.0.len() + 2,
        LoaderView::SameFacet { context, facet_index } => (context.0.len() - facet_index + 1) as nat,
    }
}

/// Whether the policies of a waiting load fit in memory.
pub open spec fn policies_fit(l: LoaderView) -> bool {
    &&& load_context(l).0.len() < usize::MAX
    &&& l matches LoaderView::ChildPackages { direct, .. } ==> direct.0.len() < usize::MAX
}

/// Every load finishes: each result either completes it or leads to a
/// valid load with fewer queries left.
pub proof fn loads_finish(
    l: LoaderView,
    object_count: u32,
    folders: Seq<FolderView>,
    entries: Seq<EntryView>,
)
    requires
        loader_valid(l),
        policies_fit(l),
    ensures
        load_advance(l, object_count, folders, entries) matches Ok(StepView::Query(n)) ==> loader_valid(
            n,
        ) && queries_left(n) < queries_left(l),
{
    match l {
        LoaderView::Layer { context, next_facet, then } => {
            if next_facet < context.0.len() && !level_retains(context.0[next_facet as int], object_count) {
                let n = LoaderView::Layer { context, next_facet: (next_facet + 1) as usize, then };
                assert(queries_left(n) < queries_left(l));
            }
        },
        LoaderView::ChildPackages { package: _, context, direct } => {
            match package_folder_views(folders, context) {
                Ok(vs) => {
                    let n = LoaderView::Layer {
                        context: direct,
                        next_facet: 0,
                        then: UseView::Package(Some(listing_order(vs))),
                    };
                    assert(queries_left(n) < queries_left(l));
                },
                Err(name) => {
                    let n = LoaderView::Layer {
                        context: direct,
                        next_facet: 0,
                        then: UseView::PackageRejected(name),
                    };
                    assert(queries_left(n) < queries_left(l));
                },
            }
        },
        LoaderView::SameFacet { context, facet_index } => {
            assert(facet_index < context.0.len());
        },
        _ => {},
    }
}

/// The preselections a waiting load works under.
pub open spec fn load_context(l: LoaderView) -> ContextView {
    match l {
        LoaderView::Layer { context, .. } => context,
        LoaderView::PackageIndex(c) => c,
        LoaderView::ChildPackages { context, .. } => context,
        LoaderView::SameFacet { context, .. } => context,
    }
}

/// Every query carries the complete filter path of the node being loaded:
/// the mount's preselections and every selected folder above it come first.
pub proof fn queries_keep_the_filter_path(l: LoaderView)
    ensures
        load_context(l).1.is_prefix_of(load_query(l).0),
{
    let q = load_query(l).0;
    let c = load_context(l).1;
    assert(c =~= q.take(c.len() as int)) by {
        match l {
            LoaderView::ChildPackages { package, .. } => {
                assert(q =~= c.push(package_selection(package)));
            },
            _ => {},
        }
    }
}

/// A facet folder that has children of its own facet is expanded at its
/// own level again; otherwise its expansion advances to the next level.
pub proof fn hierarchical_facets_repeat_before_advancing(e: ExpansionView, cat: Seq<RepositoryFacetDefinition>)
    requires
        e matches ExpansionView::Facet { .. },
    ensures
        e matches ExpansionView::Facet { context, facet_index, has_children_of_same_facet, .. } ==> load_start(
            e,
            false,
            cat,
        ) == (LoaderView::Layer {
            context,
            next_facet: if has_children_of_same_facet {
                facet_index
            } else {
                (facet_index + 1) as usize
            },
            then: UseView::Counted,
        }),
{
}

/// An adaptive level below its threshold is skipped on its own: the walk
/// goes on at the next level under the same filters, and nothing else
/// changes.
pub proof fn adaptive_levels_skip_only_their_own_level(
    context: ContextView,
    next_facet: usize,
    then: UseView,
    object_count: u32,
    folders: Seq<FolderView>,
    entries: Seq<EntryView>,
)
    requires
        next_facet < context.0.len(),
        !level_retains(context.0[next_facet as int], object_count),
    ensures
        load_advance(LoaderView::Layer { context, next_facet, then }, object_count, folders, entries)
            == Ok::<StepView, Seq<char>>(
            StepView::Query(LoaderView::Layer { context, next_facet: (next_facet + 1) as usize, then }),
        ),
{
}

/// Whether a load can start, decided as [`can_start`] says.
pub fn can_start_load(expansion: &ExpansionStrategy, refresh: bool, catalog: &[RepositoryFacetDefinition]) -> (r: bool)
    ensures
        r == can_start(expansion@, refresh, catalog@),
{
    match expansion {
        ExpansionStrategy::Static => false,
        ExpansionStrategy::Leaf => false,
        ExpansionStrategy::Facet { context, facet_index, .. } => {
            let levels = context.facet_policy().levels();
            if *facet_index >= levels.len() {
                return false;
            }
            proof {
                assert(crate::vfs::config::levels_view(levels@)[*facet_index as int] == levels@[*facet_index as int]@);
            }
            if refresh {
                catalog_lookup(catalog, levels[*facet_index].facet()).is_some()
            } else {
                true
            }
        },
        _ => true,
    }
}

} // verus!
