//! Nodes prepared from repository results before they join the tree, and the
//! order in which siblings are listed.
use vstd::prelude::*;

use crate::error::OperationError;
use crate::objects::{ObjectRef, Package};
use crate::repository::{
    defined_facet, folder_label, is_direct_assignment_folder, EntryView, FolderView,
    RepositoryContent, RepositoryObjectEntry, RepositoryVirtualFolder,
};
use crate::text::{chars_of, clone_opt, lower, to_lower};
use crate::uri::AdtUri;
use crate::vfs::config::{Mount, MountTarget};
use crate::vfs::error::VfsError;
use crate::vfs::expand::{preselections_view, ContextView, ExpansionContext, ExpansionStrategy, ExpansionView};
use crate::vfs::node::{clone_uri_opt, kind_rank, KindView, MountKind, NodeKind, ObjectNode, ObjectNodeView};

verus! {

/// A node prepared off the graph; it is given an identity when it joins.
#[derive(Debug)]
pub struct PreparedNode {
    /// The name under which the node is listed.
    pub label: String,
    /// What the node stands for.
    pub kind: NodeKind,
    /// How the node obtains its children.
    pub expansion: ExpansionStrategy,
    /// The repository entry of an object node.
    pub object: Option<RepositoryObjectEntry>,
}

/// The plain-value picture of a [`PreparedNode`].
pub struct PreparedView {
    pub label: Seq<char>,
    pub kind: KindView,
    pub expansion: ExpansionView,
    pub object: Option<EntryView>,
}

/// The view of an optional repository entry.
pub open spec fn entry_opt_view(o: Option<RepositoryObjectEntry>) -> Option<EntryView> {
    match o {
        Some(e) => Some(e@),
        None => None,
    }
}

impl View for PreparedNode {
    type V = PreparedView;

    open spec fn view(&self) -> PreparedView {
        PreparedView {
            label: self.label@,
            kind: self.kind@,
            expansion: self.expansion@,
            object: entry_opt_view(self.object),
        }
    }
}

/// The views of a list of prepared nodes.
pub open spec fn prepared_views(s: Seq<PreparedNode>) -> Seq<PreparedView> {
    s.map_values(|p: PreparedNode| p@)
}

// ---------------------------------------------------------------------------
// Sibling order
// ---------------------------------------------------------------------------

/// Lexicographic order of two texts by code point: negative, zero or
/// positive as `a` comes before, equals or comes after `b`.
pub open spec fn lex_order(a: Seq<char>, b: Seq<char>) -> int
    decreases a.len(),
{
    if a.len() == 0 {
        if b.len() == 0 {
            0
        } else {
            -1
        }
    } else if b.len() == 0 {
        1
    } else if a[0] < b[0] {
        -1
    } else if b[0] < a[0] {
        1
    } else {
        lex_order(a.drop_first(), b.drop_first())
    }
}

/// Whether `a` is listed after `b`: by kind (packages, then facet folders,
/// then objects), then by label ignoring ASCII case, then by label.
pub open spec fn listed_after(a: PreparedView, b: PreparedView) -> bool {
    let ra = kind_rank(a.kind);
    let rb = kind_rank(b.kind);
    if ra != rb {
        ra > rb
    } else {
        let folded = lex_order(lower(a.label), lower(b.label));
        if folded != 0 {
            folded > 0
        } else {
            lex_order(a.label, b.label) > 0
        }
    }
}

/// Inserts `x` into `s` after every element it is not listed before.
pub open spec fn insert_listed(s: Seq<PreparedView>, x: PreparedView) -> Seq<PreparedView>
    decreases s.len(),
{
    if s.len() == 0 {
        seq![x]
    } else if listed_after(s.last(), x) {
        insert_listed(s.drop_last(), x).push(s.last())
    } else {
        s.push(x)
    }
}

/// The stable sort of `s` into listing order.
pub open spec fn listing_order(s: Seq<PreparedView>) -> Seq<PreparedView>
    decreases s.len(),
{
    if s.len() == 0 {
        Seq::empty()
    } else {
        insert_listed(listing_order(s.drop_last()), s.last())
    }
}

fn lex_order_exec(a: &[char], b: &[char]) -> (r: i8)
    ensures
        r == lex_order(a@, b@),
        -1 <= r <= 1,
{
    let mut i: usize = 0;
    assert(a@.skip(0) =~= a@);
    assert(b@.skip(0) =~= b@);
    while i < a.len() && i < b.len()
        invariant
            i <= a.len(),
            i <= b.len(),
            lex_order(a@, b@) == lex_order(a@.skip(i as int), b@.skip(i as int)),
        decreases a.len() - i,
    {
        let ghost sa = a@.skip(i as int);
        let ghost sb = b@.skip(i as int);
        if a[i] < b[i] {
            return -1;
        }
        if b[i] < a[i] {
            return 1;
        }
        assert(sa.drop_first() =~= a@.skip(i as int + 1));
        assert(sb.drop_first() =~= b@.skip(i as int + 1));
        i += 1;
    }
    if i < a.len() {
        1
    } else if i < b.len() {
        -1
    } else {
        0
    }
}

/// Whether `a` is listed after `b`.
pub fn listed_after_exec(a: &PreparedNode, b: &PreparedNode) -> (r: bool)
    ensures
        r == listed_after(a@, b@),
{
    let ra = a.kind.rank();
    let rb = b.kind.rank();
    if ra != rb {
        return ra > rb;
    }
    let la = chars_of(a.label.as_str());
    let lb = chars_of(b.label.as_str());
    let fa = to_lower(la.as_slice());
    let fb = to_lower(lb.as_slice());
    let folded = lex_order_exec(fa.as_slice(), fb.as_slice());
    if folded != 0 {
        return folded > 0;
    }
    lex_order_exec(la.as_slice(), lb.as_slice()) > 0
}

/// Whether siblings are in listing order: none is listed after a later one.
pub open spec fn in_listing_order(s: Seq<PreparedView>) -> bool {
    forall|i: int, j: int| 0 <= i < j < s.len() ==> !listed_after(#[trigger] s[i], #[trigger] s[j])
}

#[verifier::spinoff_prover]
proof fn lemma_lex_antisymmetric(a: Seq<char>, b: Seq<char>)
    ensures
        lex_order(a, b) == -lex_order(b, a),
    decreases a.len(),
{
    if a.len() > 0 && b.len() > 0 && a[0] == b[0] {
        lemma_lex_antisymmetric(a.drop_first(), b.drop_first());
    }
}

#[verifier::spinoff_prover]
proof fn lemma_lex_equal(a: Seq<char>, b: Seq<char>)
    requires
        lex_order(a, b) == 0,
    ensures
        a == b,
    decreases a.len(),
{
    if a.len() > 0 && b.len() > 0 {
        assert(!(a[0] < b[0]) && !(b[0] < a[0]));
        assert(a[0] == b[0]);
        assert(lex_order(a.drop_first(), b.drop_first()) == 0);
        lemma_lex_equal(a.drop_first(), b.drop_first());
        assert forall|k: int| 0 <= k < a.len() implies a[k] == b[k] by {
            if k > 0 {
                assert(a[k] == a.drop_first()[k - 1]);
                assert(b[k] == b.drop_first()[k - 1]);
            }
        }
        assert(a =~= b);
    } else {
        assert(a =~= b);
    }
}

#[verifier::spinoff_prover]
proof fn lemma_lex_transitive(a: Seq<char>, b: Seq<char>, c: Seq<char>)
    requires
        lex_order(a, b) < 0,
        lex_order(b, c) < 0,
    ensures
        lex_order(a, c) < 0,
    decreases a.len(),
{
    if a.len() > 0 && b.len() > 0 && c.len() > 0 && a[0] == b[0] && b[0] == c[0] {
        lemma_lex_transitive(a.drop_first(), b.drop_first(), c.drop_first());
    }
}

/// Two texts that compare as neither smaller nor larger are equal, and a
/// text compares equal to itself.
proof fn lemma_lex_cases(a: Seq<char>, b: Seq<char>)
    ensures
        lex_order(a, b) == 0 <==> a == b,
        lex_order(a, b) == -lex_order(b, a),
{
    lemma_lex_antisymmetric(a, b);
    lemma_lex_antisymmetric(a, a);
    if lex_order(a, b) == 0 {
        lemma_lex_equal(a, b);
    }
}

/// Texts ordered at most as `a <= b <= c` are ordered `a <= c`.
proof fn lemma_lex_weakly_transitive(a: Seq<char>, b: Seq<char>, c: Seq<char>)
    requires
        lex_order(a, b) <= 0,
        lex_order(b, c) <= 0,
    ensures
        lex_order(a, c) <= 0,
        lex_order(a, b) < 0 || lex_order(b, c) < 0 ==> lex_order(a, c) < 0,
{
    lemma_lex_cases(a, b);
    lemma_lex_cases(b, c);
    lemma_lex_cases(a, c);
    if lex_order(a, b) < 0 && lex_order(b, c) < 0 {
        lemma_lex_transitive(a, b, c);
    }
}

proof fn lemma_listed_asymmetric(a: PreparedView, b: PreparedView)
    ensures
        listed_after(a, b) ==> !listed_after(b, a),
{
    lemma_lex_cases(lower(a.label), lower(b.label));
    lemma_lex_cases(a.label, b.label);
}

proof fn lemma_listed_negatively_transitive(a: PreparedView, b: PreparedView, c: PreparedView)
    requires
        !listed_after(a, b),
        !listed_after(b, c),
    ensures
        !listed_after(a, c),
{
    let (ra, rb, rc) = (kind_rank(a.kind), kind_rank(b.kind), kind_rank(c.kind));
    if ra == rb && rb == rc {
        let (fa, fb, fc) = (lower(a.label), lower(b.label), lower(c.label));
        lemma_lex_cases(fa, fb);
        lemma_lex_cases(fb, fc);
        lemma_lex_weakly_transitive(fa, fb, fc);
        if lex_order(fa, fb) == 0 && lex_order(fb, fc) == 0 {
            lemma_lex_cases(fa, fc);
            lemma_lex_weakly_transitive(a.label, b.label, c.label);
        }
    }
}

proof fn lemma_insert_listed_multiset(s: Seq<PreparedView>, x: PreparedView)
    ensures
        insert_listed(s, x).to_multiset() =~= s.to_multiset().insert(x),
    decreases s.len(),
{
    broadcast use vstd::seq_lib::group_to_multiset_ensures;

    if s.len() == 0 {
        assert(s =~= Seq::<PreparedView>::empty());
        assert(seq![x] =~= s.push(x));
    } else if listed_after(s.last(), x) {
        lemma_insert_listed_multiset(s.drop_last(), x);
        assert(s =~= s.drop_last().push(s.last()));
    }
}

proof fn lemma_insert_listed_sorted(s: Seq<PreparedView>, x: PreparedView)
    requires
        in_listing_order(s),
    ensures
        in_listing_order(insert_listed(s, x)),
    decreases s.len(),
{
    broadcast use vstd::seq_lib::group_to_multiset_ensures;
    broadcast use vstd::multiset::group_multiset_axioms;

    if s.len() == 0 {
    } else if listed_after(s.last(), x) {
        let d = s.drop_last();
        let last = s.last();
        assert forall|i: int, j: int| 0 <= i < j < d.len() implies !listed_after(
            #[trigger] d[i],
            #[trigger] d[j],
        ) by {
            assert(d[i] == s[i] && d[j] == s[j]);
        }
        lemma_insert_listed_sorted(d, x);
        lemma_insert_listed_multiset(d, x);
        let t = insert_listed(d, x);
        assert forall|k: int| 0 <= k < t.len() implies !listed_after(#[trigger] t[k], last) by {
            let y = t[k];
            assert(t.contains(y));
            assert(t.to_multiset().count(y) > 0);
            if y == x {
                lemma_listed_asymmetric(last, x);
            } else {
                assert(d.to_multiset().count(y) > 0);
                assert(d.contains(y));
                let i = choose|i: int| 0 <= i < d.len() && d[i] == y;
                assert(s[i] == y);
                assert(!listed_after(s[i], s[s.len() - 1]));
            }
        }
        let r = t.push(last);
        assert(insert_listed(s, x) == r);
        assert forall|i: int, j: int| 0 <= i < j < r.len() implies !listed_after(
            #[trigger] r[i],
            #[trigger] r[j],
        ) by {
            if j == t.len() {
                assert(r[i] == t[i]);
            } else {
                assert(r[i] == t[i] && r[j] == t[j]);
            }
        }
    } else {
        let r = s.push(x);
        let last = s.last();
        assert forall|i: int, j: int| 0 <= i < j < r.len() implies !listed_after(
            #[trigger] r[i],
            #[trigger] r[j],
        ) by {
            if j == s.len() {
                if i < s.len() - 1 {
                    assert(!listed_after(s[i], s[s.len() - 1]));
                    lemma_listed_negatively_transitive(s[i], last, x);
                }
            } else {
                assert(r[i] == s[i] && r[j] == s[j]);
            }
        }
    }
}

/// Siblings are listed by kind whatever their labels: every package before
/// every facet folder, and every folder, package or facet, before every
/// object.
pub proof fn folders_are_listed_before_objects(folder: PreparedView, other: PreparedView)
    ensures
        folder.kind is Package && other.kind is Facet ==> listed_after(other, folder) && !listed_after(
            folder,
            other,
        ),
        (folder.kind is Package || folder.kind is Facet) && other.kind is Object ==> listed_after(
            other,
            folder,
        ) && !listed_after(folder, other),
{
}

/// Listing siblings sorts them: the listed siblings are in listing order
/// (by kind, then by label ignoring ASCII case, then by label), and they are
/// exactly the siblings given, each as often as it was given.
pub proof fn listing_sorts_siblings(s: Seq<PreparedView>)
    ensures
        in_listing_order(listing_order(s)),
        listing_order(s).to_multiset() == s.to_multiset(),
    decreases s.len(),
{
    broadcast use vstd::seq_lib::group_to_multiset_ensures;

    if s.len() == 0 {
        assert(s =~= Seq::<PreparedView>::empty());
    } else {
        let d = s.drop_last();
        listing_sorts_siblings(d);
        lemma_insert_listed_sorted(listing_order(d), s.last());
        lemma_insert_listed_multiset(listing_order(d), s.last());
        assert(s =~= d.push(s.last()));
    }
}

proof fn lemma_insert_at(s: Seq<PreparedView>, x: PreparedView, j: int)
    requires
        0 <= j <= s.len(),
        forall|k: int| j <= k < s.len() ==> listed_after(#[trigger] s[k], x),
        j == 0 || !listed_after(s[j - 1], x),
    ensures
        insert_listed(s, x) == s.take(j).push(x) + s.skip(j),
    decreases s.len(),
{
    if s.len() == j {
        assert(s.take(j) =~= s);
        assert(s.skip(j) =~= Seq::<PreparedView>::empty());
        assert(s.take(j).push(x) + s.skip(j) =~= s.push(x));
    } else {
        assert(listed_after(s[s.len() - 1], x));
        let d = s.drop_last();
        assert forall|k: int| j <= k < d.len() implies listed_after(#[trigger] d[k], x) by {
            assert(d[k] == s[k]);
        }
        lemma_insert_at(d, x, j);
        assert(d.take(j) =~= s.take(j));
        assert(insert_listed(s, x) == insert_listed(d, x).push(s.last()));
        assert(s.take(j).push(x) + s.skip(j) =~= (d.take(j).push(x) + d.skip(j)).push(s.last()));
    }
}

/// Sorts prepared siblings into listing order; siblings listed alike keep
/// their relative order.
pub fn sort_listed(v: Vec<PreparedNode>) -> (r: Vec<PreparedNode>)
    ensures
        prepared_views(r@) == listing_order(prepared_views(v@)),
{
    let ghost all = prepared_views(v@);
    let mut rest = v;
    let mut out: Vec<PreparedNode> = Vec::new();
    let mut i: usize = 0;
    let n = rest.len();
    while rest.len() > 0
        invariant
            i + rest.len() == n,
            n == all.len(),
            prepared_views(rest@) == all.skip(i as int),
            prepared_views(out@) == listing_order(all.take(i as int)),
        decreases rest.len(),
    {
        let ghost before = prepared_views(out@);
        let ghost old_rest = rest@;
        let x = rest.remove(0);
        proof {
            assert(x == old_rest[0]);
            assert(prepared_views(old_rest)[0] == all.skip(i as int)[0]);
            assert(x@ == all[i as int]);
            assert forall|k: int| 0 <= k < rest@.len() implies #[trigger] prepared_views(rest@)[k]
                == all.skip(i as int + 1)[k] by {
                assert(rest@[k] == old_rest[k + 1]);
                assert(prepared_views(old_rest)[k + 1] == all.skip(i as int)[k + 1]);
            }
            assert(prepared_views(rest@) =~= all.skip(i as int + 1));
        }
        let mut j: usize = out.len();
        while j > 0 && listed_after_exec(&out[j - 1], &x)
            invariant
                j <= out.len(),
                prepared_views(out@) == before,
                forall|k: int| j <= k < out.len() ==> listed_after(#[trigger] before[k], x@),
            decreases j,
        {
            j -= 1;
        }
        proof {
            lemma_insert_at(before, x@, j as int);
        }
        out.insert(j, x);
        proof {
            assert(prepared_views(out@) =~= before.take(j as int).push(x@) + before.skip(j as int));
            assert(all.take(i as int + 1).drop_last() =~= all.take(i as int));
        }
        i += 1;
    }
    assert(all.take(n as int) =~= all);
    out
}

// ---------------------------------------------------------------------------
// Prepared nodes of repository results
// ---------------------------------------------------------------------------

/// The prepared view of a package folder with the given URI, expanded in the
/// context of its parent.
pub open spec fn package_folder_view(f: FolderView, uri: Seq<char>, c: ContextView) -> PreparedView {
    PreparedView {
        label: f.name,
        kind: KindView::Package { package: f.name, uri, object_count: Some(f.object_count) },
        expansion: ExpansionView::Package {
            package: f.name,
            context: c,
            has_child_packages: f.has_children_of_same_facet,
        },
        object: None,
    }
}

/// The prepared view of a facet folder produced by the policy level
/// `facet_index`: its expansion appends the folder's selection to the
/// context.
pub open spec fn facet_folder_view(f: FolderView, c: ContextView, facet_index: usize) -> PreparedView {
    PreparedView {
        label: folder_label(f),
        kind: KindView::Facet {
            facet: f.facet,
            value: f.name,
            object_count: f.object_count,
            has_children_of_same_facet: f.has_children_of_same_facet,
        },
        expansion: ExpansionView::Facet {
            context: (c.0, c.1.push((f.facet, seq![f.name]))),
            facet_index,
            object_count: f.object_count,
            has_children_of_same_facet: f.has_children_of_same_facet,
        },
        object: None,
    }
}

/// The object node of a repository entry.
pub open spec fn object_node_view(e: EntryView) -> ObjectNodeView {
    ObjectNodeView {
        name: e.name,
        package: e.package,
        object_type: crate::objects::workbench_type_text(e.object_type),
        uri: e.reference.1,
        virtual_workbench_uri: e.virtual_workbench_uri,
        version: e.version,
        expandable: e.expandable,
        description: e.description,
    }
}

/// The prepared view of a repository object: a leaf keeping its entry.
pub open spec fn object_entry_view(e: EntryView) -> PreparedView {
    PreparedView {
        label: e.name,
        kind: KindView::Object(object_node_view(e)),
        expansion: ExpansionView::Leaf,
        object: Some(e),
    }
}

impl PreparedNode {
    /// Prepares a package folder; its expansion probes child packages only
    /// where the folder reports children of the same facet.
    pub fn from_package_folder(folder: RepositoryVirtualFolder, ctx: &ExpansionContext) -> (r: Result<Self, VfsError>)
        ensures
            match r {
                Ok(p) => folder@.uri matches Some(u) && p@ == package_folder_view(folder@, u, ctx@),
                Err(VfsError::MissingPackageUri(name)) => folder@.uri is None && name@ == folder@.name,
                Err(_) => false,
            },
    {
        let ghost fv = folder@;
        let RepositoryVirtualFolder { facet: _, name, display_name: _, object_count, has_children_of_same_facet, uri } = folder;
        match uri {
            None => Err(VfsError::MissingPackageUri(name)),
            Some(uri) => {
                let label = name.clone();
                let package = name.clone();
                Ok(PreparedNode {
                    label,
                    kind: NodeKind::Package { package, uri, object_count: Some(object_count) },
                    expansion: ctx.child_package(name, has_children_of_same_facet),
                    object: None,
                })
            },
        }
    }

    /// Prepares a facet folder produced by the policy level `facet_index`.
    pub fn from_facet_folder(folder: RepositoryVirtualFolder, ctx: &ExpansionContext, facet_index: usize) -> (r: Self)
        ensures
            r@ == facet_folder_view(folder@, ctx@, facet_index),
    {
        let expansion = ctx.child_facet(
            folder.as_preselection(),
            facet_index,
            folder.object_count,
            folder.has_children_of_same_facet,
        );
        let label = folder.name_or_technical_name().to_owned();
        let facet = folder.facet.as_str().to_owned();
        let RepositoryVirtualFolder { facet: _, name, display_name: _, object_count, has_children_of_same_facet, uri: _ } = folder;
        PreparedNode {
            label,
            kind: NodeKind::Facet { facet, value: name, object_count, has_children_of_same_facet },
            expansion,
            object: None,
        }
    }

    /// Prepares a repository object: a leaf that keeps its entry.
    pub fn from_entry(entry: RepositoryObjectEntry) -> (r: Self)
        ensures
            r@ == object_entry_view(entry@),
    {
        let object = ObjectNode {
            name: entry.name.clone(),
            package: entry.package.clone(),
            object_type: entry.object_type.to_string(),
            uri: entry.reference.uri().clone(),
            virtual_workbench_uri: clone_uri_opt(&entry.virtual_workbench_uri),
            version: clone_opt(&entry.version),
            expandable: entry.expandable,
            description: clone_opt(&entry.description),
        };
        PreparedNode {
            label: entry.name.clone(),
            kind: NodeKind::Object { object },
            expansion: ExpansionStrategy::Leaf,
            object: Some(entry),
        }
    }
}


// ---------------------------------------------------------------------------
// Loaded layers
// ---------------------------------------------------------------------------

/// One loaded layer of the tree: prepared siblings in listing order and the
/// object count the backend reported for the selection.
#[derive(Debug)]
pub struct LoadedLayer {
    /// The prepared siblings, in listing order.
    pub nodes: Vec<PreparedNode>,
    /// The object count of the selection that produced them.
    pub object_count: u32,
}

/// The views of a list of folders.
pub open spec fn folder_views(fs: Seq<RepositoryVirtualFolder>) -> Seq<FolderView> {
    fs.map_values(|f: RepositoryVirtualFolder| f@)
}

/// The views of a list of repository entries.
pub open spec fn entry_views(es: Seq<RepositoryObjectEntry>) -> Seq<EntryView> {
    es.map_values(|e: RepositoryObjectEntry| e@)
}

/// Whether a folder of a package query stands for a child package: a
/// `PACKAGE` folder that is not the directly-assigned entry.
pub open spec fn is_child_package_folder(f: FolderView) -> bool {
    f.facet == "PACKAGE"@ && !is_direct_assignment_folder(f)
}

/// The child packages among the folders of a package query, in order, or
/// the name of the first of them that carries no URI.
pub open spec fn package_folder_views(fs: Seq<FolderView>, c: ContextView) -> Result<Seq<PreparedView>, Seq<char>>
    decreases fs.len(),
{
    if fs.len() == 0 {
        Ok(Seq::empty())
    } else {
        match package_folder_views(fs.drop_last(), c) {
            Err(e) => Err(e),
            Ok(r) => {
                let f = fs.last();
                if is_child_package_folder(f) {
                    match f.uri {
                        Some(u) => Ok(r.push(package_folder_view(f, u, c))),
                        None => Err(f.name),
                    }
                } else {
                    Ok(r)
                }
            },
        }
    }
}

/// The facet folders of a result as produced by the policy level
/// `facet_index`, in the order of the result.
pub open spec fn facet_folder_views(fs: Seq<FolderView>, c: ContextView, facet_index: usize) -> Seq<PreparedView> {
    fs.map_values(|f: FolderView| facet_folder_view(f, c, facet_index))
}

/// The object nodes of a result, in the order of the result.
pub open spec fn object_entry_views(es: Seq<EntryView>) -> Seq<PreparedView> {
    es.map_values(|e: EntryView| object_entry_view(e))
}

impl LoadedLayer {
    /// The child packages of a package query, in listing order; the
    /// directly-assigned entry and folders of other facets are left out.
    pub fn from_packages(content: RepositoryContent, ctx: &ExpansionContext) -> (r: Result<Self, VfsError>)
        ensures
            match package_folder_views(folder_views(content.folders@), ctx@) {
                Ok(vs) => r matches Ok(layer) && prepared_views(layer.nodes@) == listing_order(vs)
                    && layer.object_count == content.object_count,
                Err(name) => r matches Err(VfsError::MissingPackageUri(n)) && n@ == name,
            },
    {
        let ghost fv = folder_views(content.folders@);
        let RepositoryContent { object_count, folders, objects: _ } = content;
        let mut rest = folders;
        let mut acc: Vec<PreparedNode> = Vec::new();
        let mut i: usize = 0;
        let n = rest.len();
        assert(fv.take(0) =~= Seq::<FolderView>::empty());
        assert(prepared_views(acc@) =~= Seq::<PreparedView>::empty());
        assert(fv.skip(0) =~= fv);
        while rest.len() > 0
            invariant
                i + rest.len() == n,
                n == fv.len(),
                fv == folder_views(content.folders@),
                folder_views(rest@) == fv.skip(i as int),
                package_folder_views(fv.take(i as int), ctx@) == Ok::<Seq<PreparedView>, Seq<char>>(
                    prepared_views(acc@),
                ),
            decreases rest.len(),
        {
            let ghost old_rest = rest@;
            let ghost before = prepared_views(acc@);
            let f = rest.remove(0);
            proof {
                assert(f == old_rest[0]);
                assert(folder_views(old_rest)[0] == fv.skip(i as int)[0]);
                assert(f@ == fv[i as int]);
                assert forall|k: int| 0 <= k < rest@.len() implies #[trigger] folder_views(rest@)[k]
                    == fv.skip(i as int + 1)[k] by {
                    assert(rest@[k] == old_rest[k + 1]);
                    assert(folder_views(old_rest)[k + 1] == fv.skip(i as int)[k + 1]);
                }
                assert(folder_views(rest@) =~= fv.skip(i as int + 1));
                assert(fv.take(i as int + 1).drop_last() =~= fv.take(i as int));
                assert(fv.take(i as int + 1).last() == fv[i as int]);
            }
            let keep = str_eq_package(&f) && !f.is_direct_assignment();
            if keep {
                match PreparedNode::from_package_folder(f, ctx) {
                    Ok(p) => {
                        acc.push(p);
                        assert(prepared_views(acc@) =~= before.push(acc@.last()@));
                    },
                    Err(e) => {
                        proof {
                            let t = fv.take(i as int + 1);
                            assert(t.last() == fv[i as int]);
                            assert(package_folder_views(t.drop_last(), ctx@) == Ok::<Seq<PreparedView>, Seq<char>>(before));
                            assert(package_folder_views(t, ctx@) == Err::<Seq<PreparedView>, Seq<char>>(fv[i as int].name));
                            lemma_package_views_err_sticks(fv, ctx@, i as int + 1);
                            assert(package_folder_views(fv, ctx@) == Err::<Seq<PreparedView>, Seq<char>>(fv[i as int].name));
                            assert(e matches VfsError::MissingPackageUri(n) && n@ == fv[i as int].name);
                        }
                        return Err(e);
                    },
                }
            }
            i += 1;
        }
        assert(fv.take(n as int) =~= fv);
        Ok(LoadedLayer { nodes: sort_listed(acc), object_count })
    }

    /// The facet folders of a result produced by the policy level
    /// `facet_index`, in listing order.
    pub fn from_folders(content: RepositoryContent, ctx: &ExpansionContext, facet_index: usize) -> (r: Self)
        ensures
            prepared_views(r.nodes@) == listing_order(
                facet_folder_views(folder_views(content.folders@), ctx@, facet_index),
            ),
            r.object_count == content.object_count,
    {
        let ghost fv = folder_views(content.folders@);
        let RepositoryContent { object_count, folders, objects: _ } = content;
        let mut rest = folders;
        let mut acc: Vec<PreparedNode> = Vec::new();
        let mut i: usize = 0;
        let n = rest.len();
        while rest.len() > 0
            invariant
                i + rest.len() == n,
                n == fv.len(),
                folder_views(rest@) == fv.skip(i as int),
                prepared_views(acc@) == facet_folder_views(fv.take(i as int), ctx@, facet_index),
            decreases rest.len(),
        {
            let ghost old_rest = rest@;
            let ghost before = prepared_views(acc@);
            let f = rest.remove(0);
            proof {
                assert(f == old_rest[0]);
                assert(folder_views(old_rest)[0] == fv.skip(i as int)[0]);
                assert(f@ == fv[i as int]);
                assert forall|k: int| 0 <= k < rest@.len() implies #[trigger] folder_views(rest@)[k]
                    == fv.skip(i as int + 1)[k] by {
                    assert(rest@[k] == old_rest[k + 1]);
                    assert(folder_views(old_rest)[k + 1] == fv.skip(i as int)[k + 1]);
                }
                assert(folder_views(rest@) =~= fv.skip(i as int + 1));
            }
            acc.push(PreparedNode::from_facet_folder(f, ctx, facet_index));
            proof {
                assert(fv.take(i as int + 1) =~= fv.take(i as int).push(fv[i as int]));
                assert(facet_folder_views(fv.take(i as int + 1), ctx@, facet_index) =~= facet_folder_views(
                    fv.take(i as int),
                    ctx@,
                    facet_index,
                ).push(facet_folder_view(fv[i as int], ctx@, facet_index)));
                assert(prepared_views(acc@) =~= before.push(acc@.last()@));
            }
            i += 1;
        }
        assert(fv.take(n as int) =~= fv);
        LoadedLayer { nodes: sort_listed(acc), object_count }
    }

    /// The objects of a result, in listing order.
    pub fn from_objects(content: RepositoryContent) -> (r: Self)
        ensures
            prepared_views(r.nodes@) == listing_order(object_entry_views(entry_views(content.objects@))),
            r.object_count == content.object_count,
    {
        let ghost ev = entry_views(content.objects@);
        let RepositoryContent { object_count, folders: _, objects } = content;
        let mut rest = objects;
        let mut acc: Vec<PreparedNode> = Vec::new();
        let mut i: usize = 0;
        let n = rest.len();
        while rest.len() > 0
            invariant
                i + rest.len() == n,
                n == ev.len(),
                entry_views(rest@) == ev.skip(i as int),
                prepared_views(acc@) == object_entry_views(ev.take(i as int)),
            decreases rest.len(),
        {
            let ghost old_rest = rest@;
            let ghost before = prepared_views(acc@);
            let e = rest.remove(0);
            proof {
                assert(e == old_rest[0]);
                assert(entry_views(old_rest)[0] == ev.skip(i as int)[0]);
                assert(e@ == ev[i as int]);
                assert forall|k: int| 0 <= k < rest@.len() implies #[trigger] entry_views(rest@)[k]
                    == ev.skip(i as int + 1)[k] by {
                    assert(rest@[k] == old_rest[k + 1]);
                    assert(entry_views(old_rest)[k + 1] == ev.skip(i as int)[k + 1]);
                }
                assert(entry_views(rest@) =~= ev.skip(i as int + 1));
            }
            acc.push(PreparedNode::from_entry(e));
            proof {
                assert(ev.take(i as int + 1) =~= ev.take(i as int).push(ev[i as int]));
                assert(object_entry_views(ev.take(i as int + 1)) =~= object_entry_views(
                    ev.take(i as int),
                ).push(object_entry_view(ev[i as int])));
                assert(prepared_views(acc@) =~= before.push(acc@.last()@));
            }
            i += 1;
        }
        assert(ev.take(n as int) =~= ev);
        LoadedLayer { nodes: sort_listed(acc), object_count }
    }
}

fn str_eq_package(f: &RepositoryVirtualFolder) -> (r: bool)
    ensures
        r == (f@.facet == "PACKAGE"@),
{
    proof {
        reveal_strlit("PACKAGE");
    }
    crate::text::str_eq(f.facet.as_str(), "PACKAGE")
}

proof fn lemma_package_views_err_sticks(fs: Seq<FolderView>, c: ContextView, i: int)
    requires
        0 <= i <= fs.len(),
        package_folder_views(fs.take(i), c) is Err,
    ensures
        package_folder_views(fs, c) == package_folder_views(fs.take(i), c),
    decreases fs.len() - i,
{
    if i < fs.len() {
        assert(fs.take(i + 1).drop_last() =~= fs.take(i));
        lemma_package_views_err_sticks(fs, c, i + 1);
    } else {
        assert(fs.take(i) =~= fs);
    }
}


// ---------------------------------------------------------------------------
// Mounts
// ---------------------------------------------------------------------------

/// The result of resolving a mounted package's resource URI in the package
/// collection: the URI the name's lowercase segment gives there.
pub open spec fn mounted_package_uri(collection: Seq<char>, package: Seq<char>) -> crate::uri::UriCheck {
    crate::uri::uri_check(
        crate::url_support::url_appended_path(
            crate::uri::resolution_origin() + collection,
            seq![lower(crate::text::upper(package))],
        ),
    )
}

/// Whether a package can be mounted from a package collection: its name is
/// accepted and its reference can be formed there.
pub open spec fn mountable_package(collection: Seq<char>, package: Seq<char>) -> bool {
    crate::objects::collection_reference_ok(collection, package)
}

/// Why a package could not be referenced by name, as
/// [`ObjectRef::in_collection`] reports it for packages.
pub open spec fn package_reference_rejected(
    e: crate::error::ObjectError,
    collection: Seq<char>,
    package: Seq<char>,
) -> bool {
    let check = crate::objects::name_check(package, 30);
    match e {
        crate::error::ObjectError::InvalidName { name } => name@ == package && check
            == crate::objects::NameCheck::Invalid,
        crate::error::ObjectError::NameTooLong { name, maximum_length } => name@ == package
            && maximum_length == 30 && check == crate::objects::NameCheck::TooLong,
        crate::error::ObjectError::InvalidUri(_) => check == crate::objects::NameCheck::Accepted
            && !mountable_package(collection, package),
        _ => false,
    }
}

impl PreparedNode {
    /// Prepares the root entry of a mount.
    ///
    /// A system-library mount lists the package hierarchy, a package mount
    /// resolves the package in the package collection and probes its child
    /// packages, a selection mount expands its own preselections; each under
    /// the mount's facet policy.
    pub fn from_mount(mount: Mount, package_collection: &AdtUri) -> (r: Result<Self, VfsError>)
        ensures
            match mount.target {
                MountTarget::SystemLibrary => r matches Ok(p) && p@ == (PreparedView {
                    label: mount.label@,
                    kind: KindView::Mount(MountKind::SystemLibrary),
                    expansion: ExpansionView::PackageIndex((mount.facet_policy@, Seq::empty())),
                    object: None,
                }),
                MountTarget::Selection(ps) => r matches Ok(p) && p@ == (PreparedView {
                    label: mount.label@,
                    kind: KindView::Mount(MountKind::Selection),
                    expansion: ExpansionView::Selection(
                        (mount.facet_policy@, preselections_view(ps@)),
                    ),
                    object: None,
                }),
                MountTarget::Package(package) => match r {
                    Ok(p) => {
                        &&& crate::objects::name_check(package@, 30)
                            == crate::objects::NameCheck::Accepted
                        &&& mountable_package(package_collection@, package@)
                        &&& mounted_package_uri(package_collection@, package@)
                            matches crate::uri::UriCheck::Accepted(u)
                        &&& p@ == (PreparedView {
                        label: mount.label@,
                        kind: KindView::Package { package: package@, uri: u, object_count: None },
                        expansion: ExpansionView::Package {
                            package: package@,
                            context: (mount.facet_policy@, Seq::empty()),
                            has_child_packages: true,
                        },
                        object: None,
                    })
                    },
                    Err(VfsError::Operation(OperationError::Object(e))) => package_reference_rejected(
                        e,
                        package_collection@,
                        package@,
                    ),
                    Err(_) => false,
                },
            },
            mount.target matches MountTarget::Package(package) && crate::objects::name_check(
                package@,
                30,
            ) == crate::objects::NameCheck::Accepted && mountable_package(
                package_collection@,
                package@,
            ) ==> r is Ok,
    {
        let Mount { label, target, facet_policy } = mount;
        match target {
            MountTarget::SystemLibrary => {
                let context = ExpansionContext::new(facet_policy, Vec::new());
                assert(preselections_view(Seq::<crate::repository::RepositoryPreselection>::empty()) =~= Seq::empty());
                Ok(PreparedNode {
                    label,
                    kind: NodeKind::Mount { mount: MountKind::SystemLibrary },
                    expansion: ExpansionStrategy::PackageIndex { context },
                    object: None,
                })
            },
            MountTarget::Package(package) => {
                let reference = match ObjectRef::<Package>::in_collection(package_collection, package.as_str()) {
                    Ok(reference) => reference,
                    Err(e) => return Err(VfsError::Operation(OperationError::Object(e))),
                };
                let uri = reference.uri().clone();
                let context = ExpansionContext::new(facet_policy, Vec::new());
                assert(preselections_view(Seq::<crate::repository::RepositoryPreselection>::empty()) =~= Seq::empty());
                Ok(PreparedNode {
                    label,
                    kind: NodeKind::Package { package: package.clone(), uri, object_count: None },
                    expansion: ExpansionStrategy::Package {
                        package,
                        context,
                        has_child_packages: true,
                    },
                    object: None,
                })
            },
            MountTarget::Selection(preselections) => {
                let context = ExpansionContext::new(facet_policy, preselections);
                Ok(PreparedNode {
                    label,
                    kind: NodeKind::Mount { mount: MountKind::Selection },
                    expansion: ExpansionStrategy::Selection { context },
                    object: None,
                })
            },
        }
    }
}

} // verus!
