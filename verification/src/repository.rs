//! Repository information system (RIS) facets and preselections.
use vstd::prelude::*;
use vstd::string::StringExecFns;

use crate::objects::{GlobalWorkbenchType, ObjectRef};
use crate::text::{chars_of, clone_opt, opt_view, starts_with, starts_with_exec, str_eq, string_of, to_upper, upper};
use crate::uri::AdtUri;
use crate::vfs::node::{clone_uri_opt, uri_opt_view};

verus! {

/// A RIS facet: a metadata dimension, such as owner, package or object type,
/// by which repository content is selected and grouped.
///
/// A facet is identified by its wire name alone: the named variants are the
/// well-known names, and `Other` holds any name, so `Other("GROUP")` is the
/// same facet as `Group` (they compare equal, and their views agree).
#[derive(Debug)]
pub enum RepositoryFacet {
    /// Package assignment (`PACKAGE`).
    Package,
    /// Broad repository group (`GROUP`).
    Group,
    /// Object type (`TYPE`).
    Type,
    /// Object owner (`OWNER`).
    Owner,
    /// Favorites (`FAV`).
    Favorites,
    /// API release state (`API`).
    ApiState,
    /// Application component (`APPL`).
    ApplicationComponent,
    /// Another facet, retained by its wire name.
    Other(String),
}

/// The wire name of a facet.
pub open spec fn facet_name(f: RepositoryFacet) -> Seq<char> {
    match f {
        RepositoryFacet::Package => "PACKAGE"@,
        RepositoryFacet::Group => "GROUP"@,
        RepositoryFacet::Type => "TYPE"@,
        RepositoryFacet::Owner => "OWNER"@,
        RepositoryFacet::Favorites => "FAV"@,
        RepositoryFacet::ApiState => "API"@,
        RepositoryFacet::ApplicationComponent => "APPL"@,
        RepositoryFacet::Other(name) => name@,
    }
}

impl View for RepositoryFacet {
    type V = Seq<char>;

    open spec fn view(&self) -> Seq<char> {
        facet_name(*self)
    }
}

impl RepositoryFacet {
    /// Package assignment.
    pub const PACKAGE: RepositoryFacet = RepositoryFacet::Package;

    /// Broad repository group.
    pub const GROUP: RepositoryFacet = RepositoryFacet::Group;

    /// Object type.
    pub const TYPE: RepositoryFacet = RepositoryFacet::Type;

    /// Object owner.
    pub const OWNER: RepositoryFacet = RepositoryFacet::Owner;

    /// Favorites.
    pub const FAVORITES: RepositoryFacet = RepositoryFacet::Favorites;

    /// API release state.
    pub const API_STATE: RepositoryFacet = RepositoryFacet::ApiState;

    /// Application component.
    pub const APPLICATION_COMPONENT: RepositoryFacet = RepositoryFacet::ApplicationComponent;

    /// The facet with the given wire name: one of the named facets where the
    /// name is theirs, otherwise a facet retained by its name.
    pub fn from_name(name: &str) -> (r: Self)
        ensures
            r@ == name@,
    {
        proof {
            reveal_strlit("PACKAGE");
            reveal_strlit("GROUP");
            reveal_strlit("TYPE");
            reveal_strlit("OWNER");
            reveal_strlit("FAV");
            reveal_strlit("API");
            reveal_strlit("APPL");
        }
        if str_eq(name, "PACKAGE") {
            RepositoryFacet::Package
        } else if str_eq(name, "GROUP") {
            RepositoryFacet::Group
        } else if str_eq(name, "TYPE") {
            RepositoryFacet::Type
        } else if str_eq(name, "OWNER") {
            RepositoryFacet::Owner
        } else if str_eq(name, "FAV") {
            RepositoryFacet::Favorites
        } else if str_eq(name, "API") {
            RepositoryFacet::ApiState
        } else if str_eq(name, "APPL") {
            RepositoryFacet::ApplicationComponent
        } else {
            RepositoryFacet::Other(name.to_owned())
        }
    }

    /// Returns the facet's wire name.
    pub fn as_str(&self) -> (r: &str)
        ensures
            r@ == self@,
    {
        match self {
            RepositoryFacet::Package => "PACKAGE",
            RepositoryFacet::Group => "GROUP",
            RepositoryFacet::Type => "TYPE",
            RepositoryFacet::Owner => "OWNER",
            RepositoryFacet::Favorites => "FAV",
            RepositoryFacet::ApiState => "API",
            RepositoryFacet::ApplicationComponent => "APPL",
            RepositoryFacet::Other(name) => name.as_str(),
        }
    }
}

impl Clone for RepositoryFacet {
    fn clone(&self) -> (r: Self)
        ensures
            r@ == self@,
    {
        match self {
            RepositoryFacet::Package => RepositoryFacet::Package,
            RepositoryFacet::Group => RepositoryFacet::Group,
            RepositoryFacet::Type => RepositoryFacet::Type,
            RepositoryFacet::Owner => RepositoryFacet::Owner,
            RepositoryFacet::Favorites => RepositoryFacet::Favorites,
            RepositoryFacet::ApiState => RepositoryFacet::ApiState,
            RepositoryFacet::ApplicationComponent => RepositoryFacet::ApplicationComponent,
            RepositoryFacet::Other(name) => RepositoryFacet::Other(name.clone()),
        }
    }
}

impl PartialEq for RepositoryFacet {
    fn eq(&self, other: &Self) -> (r: bool) {
        str_eq(self.as_str(), other.as_str())
    }
}

impl vstd::std_specs::cmp::PartialEqSpecImpl for RepositoryFacet {
    open spec fn obeys_eq_spec() -> bool {
        true
    }

    open spec fn eq_spec(&self, other: &Self) -> bool {
        self@ == other@
    }
}

impl Eq for RepositoryFacet {}

/// One RIS preselection: a facet and the values it is restricted to.
#[derive(Debug)]
pub struct RepositoryPreselection {
    facet: RepositoryFacet,
    values: Vec<String>,
}

impl View for RepositoryPreselection {
    type V = (Seq<char>, Seq<Seq<char>>);

    closed spec fn view(&self) -> (Seq<char>, Seq<Seq<char>>) {
        (self.facet@, self.values@.map_values(|v: String| v@))
    }
}

impl RepositoryPreselection {
    /// Restricts a facet to one value.
    pub fn new(facet: RepositoryFacet, value: &str) -> (r: Self)
        ensures
            r@ == (facet@, seq![value@]),
    {
        let values = vec![value.to_owned()];
        assert(values@.map_values(|v: String| v@) =~= seq![value@]);
        RepositoryPreselection { facet, values }
    }

    /// Selects the objects assigned directly to a package, not to its
    /// subpackages: the `PACKAGE` facet with the value `..<package>`.
    pub fn directly_assigned(package: &str) -> (r: Self)
        ensures
            r@ == ("PACKAGE"@, seq![".."@ + package@]),
    {
        let mut value = String::new();
        value.append("..");
        value.append(package);
        let values = vec![value];
        assert(values@.map_values(|v: String| v@) =~= seq![".."@ + package@]);
        RepositoryPreselection { facet: RepositoryFacet::Package, values }
    }

    /// Adds one more value to the selection of the same facet.
    pub fn or_value(self, value: &str) -> (r: Self)
        ensures
            r@ == (self@.0, self@.1.push(value@)),
    {
        let RepositoryPreselection { facet, mut values } = self;
        let ghost before = values@;
        values.push(value.to_owned());
        assert(values@.map_values(|v: String| v@) =~= before.map_values(|v: String| v@).push(
            value@,
        ));
        RepositoryPreselection { facet, values }
    }

    /// Returns the selected facet.
    pub fn facet(&self) -> (r: &RepositoryFacet)
        ensures
            r@ == self@.0,
    {
        &self.facet
    }

    /// Returns the selected values.
    pub fn values(&self) -> (r: &[String])
        ensures
            r@.map_values(|v: String| v@) == self@.1,
    {
        self.values.as_slice()
    }
}

impl Clone for RepositoryPreselection {
    fn clone(&self) -> (r: Self)
        ensures
            r@ == self@,
    {
        let values = self.values.clone();
        assert(values@ =~= self.values@) by {
            assert forall|i: int| 0 <= i < values@.len() implies values@[i] == self.values@[i] by {
                assert(cloned::<String>(self.values@[i], values@[i]));
            }
        }
        RepositoryPreselection { facet: self.facet.clone(), values }
    }
}

impl PartialEq for RepositoryPreselection {
    fn eq(&self, other: &Self) -> (r: bool) {
        let same_facet = self.facet == other.facet;
        if !same_facet {
            assert(self@.0 != other@.0);
            return false;
        }
        if self.values.len() != other.values.len() {
            assert(self@.1.len() != other@.1.len());
            return false;
        }
        let mut i: usize = 0;
        while i < self.values.len()
            invariant
                i <= self.values.len(),
                self.values.len() == other.values.len(),
                forall|k: int| 0 <= k < i ==> self.values@[k]@ == other.values@[k]@,
            decreases self.values.len() - i,
        {
            if !str_eq(self.values[i].as_str(), other.values[i].as_str()) {
                assert(self@.1[i as int] != other@.1[i as int]);
                return false;
            }
            i += 1;
        }
        assert(self@.1 =~= other@.1);
        true
    }
}

impl vstd::std_specs::cmp::PartialEqSpecImpl for RepositoryPreselection {
    open spec fn obeys_eq_spec() -> bool {
        true
    }

    open spec fn eq_spec(&self, other: &Self) -> bool {
        self@ == other@
    }
}

impl Eq for RepositoryPreselection {}

/// A virtual folder of a RIS result: one value of the requested facet and
/// how many objects it selects.
#[derive(Debug)]
pub struct RepositoryVirtualFolder {
    /// The facet the folder belongs to.
    pub facet: RepositoryFacet,
    /// The technical value the folder selects.
    pub name: String,
    /// The name under which the backend displays the folder.
    pub display_name: Option<String>,
    /// How many objects the folder selects.
    pub object_count: u32,
    /// Whether the folder has children of the same (hierarchical) facet.
    pub has_children_of_same_facet: bool,
    /// The resource URI of a package folder.
    pub uri: Option<AdtUri>,
}

/// The plain-value picture of a [`RepositoryVirtualFolder`].
pub struct FolderView {
    pub facet: Seq<char>,
    pub name: Seq<char>,
    pub display_name: Option<Seq<char>>,
    pub object_count: u32,
    pub has_children_of_same_facet: bool,
    pub uri: Option<Seq<char>>,
}

impl View for RepositoryVirtualFolder {
    type V = FolderView;

    open spec fn view(&self) -> FolderView {
        FolderView {
            facet: self.facet@,
            name: self.name@,
            display_name: opt_view(self.display_name),
            object_count: self.object_count,
            has_children_of_same_facet: self.has_children_of_same_facet,
            uri: uri_opt_view(self.uri),
        }
    }
}

/// Whether a folder is the `..<package>` entry that selects the objects
/// assigned directly to a package.
pub open spec fn is_direct_assignment_folder(f: FolderView) -> bool {
    f.facet == "PACKAGE"@ && starts_with(f.name, ".."@)
}

/// The name under which a folder is listed: its display name where the
/// backend gave a non-empty one, otherwise its technical value.
pub open spec fn folder_label(f: FolderView) -> Seq<char> {
    match f.display_name {
        Some(d) => if d.len() > 0 {
            d
        } else {
            f.name
        },
        None => f.name,
    }
}

impl RepositoryVirtualFolder {
    /// Whether this folder stands for the objects assigned directly to a
    /// package rather than for a child package.
    pub fn is_direct_assignment(&self) -> (r: bool)
        ensures
            r == is_direct_assignment_folder(self@),
    {
        proof {
            reveal_strlit("PACKAGE");
            reveal_strlit("..");
        }
        let is_package = str_eq(self.facet.as_str(), "PACKAGE");
        let name = chars_of(self.name.as_str());
        let dots = chars_of("..");
        is_package && starts_with_exec(name.as_slice(), dots.as_slice())
    }

    /// The preselection that restricts this folder's facet to its value.
    pub fn as_preselection(&self) -> (r: RepositoryPreselection)
        ensures
            r@ == (self@.facet, seq![self@.name]),
    {
        RepositoryPreselection::new(self.facet.clone(), self.name.as_str())
    }

    /// The display name where the backend gave a non-empty one, otherwise
    /// the technical value.
    pub fn name_or_technical_name(&self) -> (r: &str)
        ensures
            r@ == folder_label(self@),
    {
        match &self.display_name {
            Some(d) => if d.as_str().unicode_len() > 0 {
                d.as_str()
            } else {
                self.name.as_str()
            },
            None => self.name.as_str(),
        }
    }
}

/// A repository object listed in a RIS result.
#[derive(Debug)]
pub struct RepositoryObjectEntry {
    /// The object name.
    pub name: String,
    /// The package the object is assigned to.
    pub package: String,
    /// The object's global Workbench type.
    pub object_type: GlobalWorkbenchType,
    /// The object's identity.
    pub reference: ObjectRef,
    /// The object's URI in the virtual Workbench tree, where one is known.
    pub virtual_workbench_uri: Option<AdtUri>,
    /// The object version, where one is reported.
    pub version: Option<String>,
    /// Whether the backend can expand the object further.
    pub expandable: bool,
    /// The short description, where one is reported.
    pub description: Option<String>,
}

/// The plain-value picture of a [`RepositoryObjectEntry`].
pub struct EntryView {
    pub name: Seq<char>,
    pub package: Seq<char>,
    pub object_type: (Seq<char>, Seq<char>),
    pub reference: (Seq<char>, Seq<char>),
    pub virtual_workbench_uri: Option<Seq<char>>,
    pub version: Option<Seq<char>>,
    pub expandable: bool,
    pub description: Option<Seq<char>>,
}

impl View for RepositoryObjectEntry {
    type V = EntryView;

    open spec fn view(&self) -> EntryView {
        EntryView {
            name: self.name@,
            package: self.package@,
            object_type: self.object_type@,
            reference: self.reference@,
            virtual_workbench_uri: uri_opt_view(self.virtual_workbench_uri),
            version: opt_view(self.version),
            expandable: self.expandable,
            description: opt_view(self.description),
        }
    }
}

impl Clone for RepositoryObjectEntry {
    fn clone(&self) -> (r: Self)
        ensures
            r@ == self@,
    {
        RepositoryObjectEntry {
            name: self.name.clone(),
            package: self.package.clone(),
            object_type: self.object_type.clone(),
            reference: self.reference.clone(),
            virtual_workbench_uri: clone_uri_opt(&self.virtual_workbench_uri),
            version: clone_opt(&self.version),
            expandable: self.expandable,
            description: clone_opt(&self.description),
        }
    }
}

/// One RIS result: the total object count of the selection and, depending on
/// whether a facet was requested, its virtual folders or its objects.
#[derive(Debug)]
pub struct RepositoryContent {
    /// How many objects the selection contains.
    pub object_count: u32,
    /// The virtual folders of the requested facet.
    pub folders: Vec<RepositoryVirtualFolder>,
    /// The objects of the selection.
    pub objects: Vec<RepositoryObjectEntry>,
}

/// A facet the backend advertises, with what it can be used for.
#[derive(Debug)]
pub struct RepositoryFacetDefinition {
    /// The facet's key as advertised, such as `package`.
    pub key: String,
    /// The facet's display name.
    pub display_name: String,
    /// Whether folders of the facet can contain folders of the same facet.
    pub is_hierarchical: bool,
    /// Whether the facet can restrict a selection.
    pub is_for_filtering: bool,
    /// Whether the facet can structure a result into folders.
    pub is_for_structuring: bool,
}

/// The facet a definition describes: its key in upper case.
pub open spec fn defined_facet(key: Seq<char>) -> Seq<char> {
    upper(key)
}

impl RepositoryFacetDefinition {
    /// Returns the facet this definition describes.
    pub fn facet(&self) -> (r: RepositoryFacet)
        ensures
            r@ == defined_facet(self.key@),
    {
        let key = chars_of(self.key.as_str());
        let up = to_upper(key.as_slice());
        let name = string_of(up.as_slice());
        RepositoryFacet::from_name(name.as_str())
    }
}

} // verus!
