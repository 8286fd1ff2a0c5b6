//! Repository object identities, Workbench types and naming policies.
use core::marker::PhantomData;
use vstd::prelude::*;
use vstd::string::StringExecFns;

use crate::error::ObjectError;
use crate::text::{
    all_ascii, all_ascii_exec, chars_eq, chars_of, contains_char, find_char, first_index,
    has_control, has_control_exec, str_eq, lemma_first_index_bounds, split_once, string_of,
    string_of_range, to_lower, to_upper, trim, trimmed, upper, lower, is_ascii_lower, lower_char,
};
use crate::uri::AdtUri;
use crate::vocabulary::CategoryId;

verus! {

/// A global ABAP Workbench type: an R3TR object-directory type and an
/// internal Workbench subtype, serialized by ADT as `PROG/P`, `PROG/I` or
/// `CLAS/OC`.
///
/// Values use their unpadded wire representation rather than the trailing
/// spaces of SAP's fixed-width `TROBJTYPE` and `SEU_OBJTYP` fields: the
/// directory type has at most four ASCII characters, the Workbench type at
/// most three.
#[derive(Debug)]
pub struct GlobalWorkbenchType {
    directory_type: String,
    workbench_type: String,
}

/// An error parsing an ADT global Workbench type such as `PROG/I`.
#[derive(Debug)]
pub struct InvalidWorkbenchType {
    /// The rejected text.
    pub value: String,
    /// Why it was rejected.
    pub reason: &'static str,
}

/// The name under which the error of [`GlobalWorkbenchType::parse`] is also known.
pub type GlobalWorkbenchTypeParseError = InvalidWorkbenchType;

/// The reason reported for a text that is not a global Workbench type, or
/// `None` for an accepted one.
pub open spec fn workbench_type_rejection(v: Seq<char>) -> Option<Seq<char>> {
    match split_once(v, '/') {
        None => Some("expected `<R3TR type>/<Workbench type>`"@),
        Some((d, w)) => {
            if d.len() == 0 {
                Some("R3TR object type is empty"@)
            } else if w.len() == 0 {
                Some("Workbench type is empty"@)
            } else if w.contains('/') {
                Some("contains more than one separator"@)
            } else if !all_ascii(d) {
                Some("R3TR object type must be ASCII"@)
            } else if d.len() > 4 {
                Some("R3TR object type exceeds 4 characters"@)
            } else if !all_ascii(w) {
                Some("Workbench type must be ASCII"@)
            } else if w.len() > 3 {
                Some("Workbench type exceeds 3 characters"@)
            } else {
                None
            }
        },
    }
}

/// The canonical `<directory>/<workbench>` text of a Workbench type.
pub open spec fn workbench_type_text(t: (Seq<char>, Seq<char>)) -> Seq<char> {
    t.0 + "/"@ + t.1
}

impl View for GlobalWorkbenchType {
    type V = (Seq<char>, Seq<char>);

    closed spec fn view(&self) -> (Seq<char>, Seq<char>) {
        (self.directory_type@, self.workbench_type@)
    }
}

impl GlobalWorkbenchType {
    /// Creates a global Workbench type from an R3TR object directory type and
    /// internal Workbench subtype.
    ///
    /// Both values must be ASCII. The directory type is limited to the four
    /// characters of `TROBJTYPE`, and the Workbench type to the three
    /// characters of `SEU_OBJTYP`.
    pub fn new(directory_type: &'static str, workbench_type: &'static str) -> (r: Self)
        requires
            all_ascii(directory_type@),
            directory_type@.len() <= 4,
            all_ascii(workbench_type@),
            workbench_type@.len() <= 3,
        ensures
            r@ == (directory_type@, workbench_type@),
    {
        GlobalWorkbenchType {
            directory_type: directory_type.to_owned(),
            workbench_type: workbench_type.to_owned(),
        }
    }

    /// Returns the R3TR object type used in the object directory.
    pub fn directory_type(&self) -> (r: &str)
        ensures
            r@ == self@.0,
    {
        self.directory_type.as_str()
    }

    /// Returns the internal ABAP Workbench type.
    pub fn workbench_type(&self) -> (r: &str)
        ensures
            r@ == self@.1,
    {
        self.workbench_type.as_str()
    }

    /// Returns the ADT wire form `<directory>/<workbench>`.
    pub fn to_string(&self) -> (r: String)
        ensures
            r@ == workbench_type_text(self@),
    {
        let mut out = String::new();
        out.append(self.directory_type.as_str());
        out.append("/");
        out.append(self.workbench_type.as_str());
        out
    }

    /// Parses the ADT wire form of a global Workbench type.
    pub fn parse(value: &str) -> (r: Result<Self, InvalidWorkbenchType>)
        ensures
            match r {
                Ok(t) => workbench_type_rejection(value@) is None
                    && split_once(value@, '/') == Some(t@),
                Err(e) => e.value@ == value@ && workbench_type_rejection(value@) == Some(e.reason@),
            },
    {
        let cs = chars_of(value);
        let cut = match find_char(cs.as_slice(), '/') {
            Some(i) => i,
            None => {
                proof {
                    lemma_first_index_bounds(cs@, '/');
                }
                return Err(InvalidWorkbenchType {
                    value: value.to_owned(),
                    reason: "expected `<R3TR type>/<Workbench type>`",
                });
            },
        };
        proof {
            lemma_first_index_bounds(cs@, '/');
        }
        let d = crate::text::sub_chars(cs.as_slice(), 0, cut);
        let w = crate::text::sub_chars(cs.as_slice(), cut + 1, cs.len());
        assert(split_once(value@, '/') == Some((d@, w@)));
        let reason: Option<&'static str> = if d.len() == 0 {
            Some("R3TR object type is empty")
        } else if w.len() == 0 {
            Some("Workbench type is empty")
        } else if contains_char(w.as_slice(), '/') {
            Some("contains more than one separator")
        } else if !all_ascii_exec(d.as_slice()) {
            Some("R3TR object type must be ASCII")
        } else if d.len() > 4 {
            Some("R3TR object type exceeds 4 characters")
        } else if !all_ascii_exec(w.as_slice()) {
            Some("Workbench type must be ASCII")
        } else if w.len() > 3 {
            Some("Workbench type exceeds 3 characters")
        } else {
            None
        };
        match reason {
            Some(reason) => Err(InvalidWorkbenchType { value: value.to_owned(), reason }),
            None => Ok(
                GlobalWorkbenchType {
                    directory_type: string_of(d.as_slice()),
                    workbench_type: string_of(w.as_slice()),
                },
            ),
        }
    }
}

impl Clone for GlobalWorkbenchType {
    fn clone(&self) -> (r: Self)
        ensures
            r@ == self@,
    {
        GlobalWorkbenchType {
            directory_type: self.directory_type.clone(),
            workbench_type: self.workbench_type.clone(),
        }
    }
}

impl PartialEq for GlobalWorkbenchType {
    fn eq(&self, other: &Self) -> (r: bool) {
        self.directory_type == other.directory_type && self.workbench_type
            == other.workbench_type
    }
}

impl vstd::std_specs::cmp::PartialEqSpecImpl for GlobalWorkbenchType {
    open spec fn obeys_eq_spec() -> bool {
        true
    }

    open spec fn eq_spec(&self, other: &Self) -> bool {
        self@ == other@
    }
}

impl Eq for GlobalWorkbenchType {}

impl core::str::FromStr for GlobalWorkbenchType {
    type Err = InvalidWorkbenchType;

    fn from_str(value: &str) -> (r: Result<Self, Self::Err>)
        ensures
            match r {
                Ok(t) => workbench_type_rejection(value@) is None
                    && split_once(value@, '/') == Some(t@),
                Err(e) => e.value@ == value@ && workbench_type_rejection(value@) == Some(e.reason@),
            },
    {
        GlobalWorkbenchType::parse(value)
    }
}

/// Static naming constraints for an object type.
///
/// For instance, a program or class name may be up to 30 characters long,
/// while an include name may have 40.
#[derive(Clone, Copy, Debug, PartialEq, Eq, Structural, Hash)]
pub struct ObjectNamePolicy {
    maximum_length: usize,
}

/// Why a name is refused by a policy allowing `maximum_length` characters.
pub enum NameCheck {
    Invalid,
    TooLong,
    Accepted,
}

/// The naming rule: a name must be non-empty, unpadded, free of control
/// characters, not `.` or `..`, and at most `maximum_length` characters long.
pub open spec fn name_check(name: Seq<char>, maximum_length: nat) -> NameCheck {
    if name.len() == 0 || trim(name) != name || has_control(name) || name == "."@ || name
        == ".."@ {
        NameCheck::Invalid
    } else if name.len() > maximum_length {
        NameCheck::TooLong
    } else {
        NameCheck::Accepted
    }
}

impl ObjectNamePolicy {
    /// Creates a naming policy with the maximum supported object-name length.
    pub fn new(maximum_length: usize) -> (r: Self)
        ensures
            r.spec_maximum_length() == maximum_length,
    {
        ObjectNamePolicy { maximum_length }
    }

    /// The maximum number of characters accepted in an object name.
    pub closed spec fn spec_maximum_length(self) -> usize {
        self.maximum_length
    }

    /// Returns the maximum number of characters accepted in an object name.
    pub fn maximum_length(self) -> (r: usize)
        ensures
            r == self.spec_maximum_length(),
    {
        self.maximum_length
    }

    /// Checks a name against this policy.
    pub fn validate(self, name: &str) -> (r: Result<(), ObjectError>)
        ensures
            match r {
                Ok(()) => name_check(name@, self.spec_maximum_length() as nat) == NameCheck::Accepted,
                Err(ObjectError::InvalidName { name: n }) => n@ == name@ && name_check(
                    name@,
                    self.spec_maximum_length() as nat,
                ) == NameCheck::Invalid,
                Err(ObjectError::NameTooLong { name: n, maximum_length: m }) => n@ == name@ && m
                    == self.spec_maximum_length() && name_check(name@, self.spec_maximum_length() as nat)
                    == NameCheck::TooLong,
                Err(_) => false,
            },
    {
        let cs = chars_of(name);
        let t = trimmed(cs.as_slice());
        let dot = chars_of(".");
        let dots = chars_of("..");
        if cs.len() == 0 || !chars_eq(t.as_slice(), cs.as_slice()) || has_control_exec(
            cs.as_slice(),
        ) || chars_eq(cs.as_slice(), dot.as_slice()) || chars_eq(cs.as_slice(), dots.as_slice()) {
            return Err(ObjectError::InvalidName { name: name.to_owned() });
        }
        if cs.len() > self.maximum_length {
            return Err(
                ObjectError::NameTooLong {
                    name: name.to_owned(),
                    maximum_length: self.maximum_length,
                },
            );
        }
        Ok(())
    }
}

/// Statically identified ADT object resource family.
pub trait ObjectType: crate::sealed::Sealed + Sized {
    /// The object type's global Workbench type.
    spec fn spec_workbench_type() -> (Seq<char>, Seq<char>);

    /// The maximum name length of the object type.
    spec fn spec_name_limit() -> usize;

    /// Returns the object type's global Workbench type.
    fn workbench_type() -> (r: GlobalWorkbenchType)
        ensures
            r@ == Self::spec_workbench_type(),
    ;

    /// Returns the object type's naming constraints.
    fn naming_policy() -> (r: ObjectNamePolicy)
        ensures
            r.spec_maximum_length() == Self::spec_name_limit(),
    ;
}

/// An object type whose canonical collection is advertised through discovery.
pub trait ObjectCollection: ObjectType {
    /// The category identifying the object type's collection.
    spec fn spec_category() -> (Seq<char>, Seq<char>);

    /// Returns the stable category identifying the canonical object collection.
    fn category() -> (r: CategoryId)
        ensures
            (r.scheme@, r.term@) == Self::spec_category(),
    ;
}

/// An object type whose source code is located beneath the object resource.
pub trait Source: ObjectType {
    /// Returns the path segments of the main source, `source/main`.
    fn source_path() -> (r: Vec<&'static str>)
        ensures
            r@.len() == 2,
            r@[0]@ == "source"@,
            r@[1]@ == "main"@,
    {
        vec!["source", "main"]
    }
}

/// The package (devclass) object type.
#[derive(Debug)]
pub struct Package;

/// The ABAP program object type.
#[derive(Debug)]
pub struct Program;

/// The standalone ABAP include object type.
#[derive(Debug)]
pub struct Include;

/// An ABAP class object.
#[derive(Debug)]
pub struct Class;

impl crate::sealed::Sealed for Package {}

impl crate::sealed::Sealed for Program {}

impl crate::sealed::Sealed for Include {}

impl crate::sealed::Sealed for Class {}

impl ObjectType for Package {
    open spec fn spec_workbench_type() -> (Seq<char>, Seq<char>) {
        ("DEVC"@, "K"@)
    }

    open spec fn spec_name_limit() -> usize {
        30
    }

    fn workbench_type() -> (r: GlobalWorkbenchType) {
        proof {
            reveal_strlit("DEVC");
            reveal_strlit("K");
        }
        GlobalWorkbenchType::new("DEVC", "K")
    }

    fn naming_policy() -> (r: ObjectNamePolicy) {
        ObjectNamePolicy::new(30)
    }
}

impl ObjectType for Program {
    open spec fn spec_workbench_type() -> (Seq<char>, Seq<char>) {
        ("PROG"@, "P"@)
    }

    open spec fn spec_name_limit() -> usize {
        30
    }

    fn workbench_type() -> (r: GlobalWorkbenchType) {
        proof {
            reveal_strlit("PROG");
            reveal_strlit("P");
        }
        GlobalWorkbenchType::new("PROG", "P")
    }

    fn naming_policy() -> (r: ObjectNamePolicy) {
        ObjectNamePolicy::new(30)
    }
}

impl ObjectType for Include {
    open spec fn spec_workbench_type() -> (Seq<char>, Seq<char>) {
        ("PROG"@, "I"@)
    }

    open spec fn spec_name_limit() -> usize {
        40
    }

    fn workbench_type() -> (r: GlobalWorkbenchType) {
        proof {
            reveal_strlit("PROG");
            reveal_strlit("I");
        }
        GlobalWorkbenchType::new("PROG", "I")
    }

    fn naming_policy() -> (r: ObjectNamePolicy) {
        ObjectNamePolicy::new(40)
    }
}

impl ObjectType for Class {
    open spec fn spec_workbench_type() -> (Seq<char>, Seq<char>) {
        ("CLAS"@, "OC"@)
    }

    open spec fn spec_name_limit() -> usize {
        30
    }

    fn workbench_type() -> (r: GlobalWorkbenchType) {
        proof {
            reveal_strlit("CLAS");
            reveal_strlit("OC");
        }
        GlobalWorkbenchType::new("CLAS", "OC")
    }

    fn naming_policy() -> (r: ObjectNamePolicy) {
        ObjectNamePolicy::new(30)
    }
}

impl Source for Program {}

impl Source for Include {}

impl Source for Class {}

impl ObjectCollection for Package {
    open spec fn spec_category() -> (Seq<char>, Seq<char>) {
        ("http://www.sap.com/wbobj/packages"@, "devck"@)
    }

    fn category() -> (r: CategoryId) {
        CategoryId { scheme: "http://www.sap.com/wbobj/packages", term: "devck" }
    }
}

impl ObjectCollection for Program {
    open spec fn spec_category() -> (Seq<char>, Seq<char>) {
        ("http://www.sap.com/adt/categories/programs"@, "programs"@)
    }

    fn category() -> (r: CategoryId) {
        CategoryId { scheme: "http://www.sap.com/adt/categories/programs", term: "programs" }
    }
}

impl ObjectCollection for Include {
    open spec fn spec_category() -> (Seq<char>, Seq<char>) {
        ("http://www.sap.com/adt/categories/programs"@, "includes"@)
    }

    fn category() -> (r: CategoryId) {
        CategoryId { scheme: "http://www.sap.com/adt/categories/programs", term: "includes" }
    }
}

impl ObjectCollection for Class {
    open spec fn spec_category() -> (Seq<char>, Seq<char>) {
        ("http://www.sap.com/adt/categories/oo"@, "classes"@)
    }

    fn category() -> (r: CategoryId) {
        CategoryId { scheme: "http://www.sap.com/adt/categories/oo", term: "classes" }
    }
}

/// A validated ADT object identity, optionally tagged with its static object type.
///
/// A bare `ObjectRef` is type-erased and proves only the object's identity and
/// location. Two references denote the same object exactly when their URIs
/// are equal.
#[derive(Debug)]
pub struct ObjectRef<T = ()> {
    name: String,
    uri: AdtUri,
    marker: PhantomData<T>,
}

impl<T> View for ObjectRef<T> {
    /// The canonical name (empty for an erased reference built from a URI)
    /// and the resource URI.
    type V = (Seq<char>, Seq<char>);

    closed spec fn view(&self) -> (Seq<char>, Seq<char>) {
        (self.name@, self.uri@)
    }
}

impl ObjectRef {
    /// Creates a type-erased object reference from a validated ADT resource URI.
    pub fn new(uri: AdtUri) -> (r: Self)
        ensures
            r@ == (Seq::<char>::empty(), uri@),
    {
        ObjectRef { name: String::new(), uri, marker: PhantomData }
    }

    /// Parses and validates a type-erased object resource URI.
    pub fn parse(value: &str) -> (r: Result<Self, crate::uri::AdtUriError>)
        ensures
            match r {
                Ok(o) => o@.0 == Seq::<char>::empty() && crate::uri::uri_check(value@)
                    == crate::uri::UriCheck::Accepted(o@.1),
                Err(e) => crate::uri::uri_check(value@) == e.check() && e == crate::uri::uri_error(value@),
            },
    {
        match AdtUri::parse(value) {
            Ok(uri) => Ok(ObjectRef::new(uri)),
            Err(e) => Err(e),
        }
    }
}

impl<T> ObjectRef<T> {
    fn typed(name: String, uri: AdtUri) -> (r: Self)
        ensures
            r@ == (name@, uri@),
    {
        ObjectRef { name, uri, marker: PhantomData }
    }

    /// Returns the object's resource URI.
    pub fn uri(&self) -> (r: &AdtUri)
        ensures
            r@ == self@.1,
    {
        &self.uri
    }

    /// Returns a type-erased copy of this object identity.
    pub fn erase(&self) -> (r: ObjectRef)
        ensures
            r@ == self@,
    {
        ObjectRef { name: self.name.clone(), uri: self.uri.clone(), marker: PhantomData }
    }
}

/// The canonical (uppercase) name under which an object is referenced.
pub open spec fn canonical_name(name: Seq<char>) -> Seq<char> {
    upper(name)
}

/// An object is referenced by its name in uppercase: the canonical name is
/// the given name with every ASCII lowercase letter raised, so it spells the
/// same name ignoring ASCII case, has the same length, keeps every character
/// that is not an ASCII lowercase letter, and holds no ASCII lowercase letter.
pub proof fn canonical_names_are_uppercase(name: Seq<char>)
    ensures
        canonical_name(name) == upper(name),
        canonical_name(name).len() == name.len(),
        lower(canonical_name(name)) == lower(name),
        forall|i: int| 0 <= i < name.len() ==> !is_ascii_lower(#[trigger] canonical_name(name)[i]),
        forall|i: int|
            0 <= i < name.len() && !is_ascii_lower(name[i]) ==> #[trigger] canonical_name(name)[i]
                == name[i],
{
    let c = canonical_name(name);
    assert forall|i: int| 0 <= i < name.len() implies !is_ascii_lower(#[trigger] c[i]) && lower_char(
        c[i],
    ) == lower_char(name[i]) by {
        let ch = name[i];
        if is_ascii_lower(ch) {
            assert(((ch as u32) - 32) as char == c[i]);
        }
    }
    assert(lower(c) =~= lower(name));
}

/// Whether a name's reference can be formed in a collection: the collection
/// URL parses, and the lowercase name appended to it as one path segment
/// gives an accepted ADT URI.
pub open spec fn collection_reference_ok(collection: Seq<char>, name: Seq<char>) -> bool {
    &&& crate::url_support::url_parses(crate::uri::resolution_origin() + collection)
    &&& crate::uri::uri_check(
        crate::url_support::url_appended_path(
            crate::uri::resolution_origin() + collection,
            seq![lower(upper(name))],
        ),
    ) is Accepted
}

impl<T: ObjectType> ObjectRef<T> {
    /// Returns the canonical uppercase object name.
    pub fn name(&self) -> (r: &str)
        ensures
            r@ == self@.0,
    {
        self.name.as_str()
    }

    /// Builds a typed reference from a name checked against the type's
    /// naming policy and the object's resource URI.
    pub fn from_parts(name: String, uri: AdtUri) -> (r: Result<Self, ObjectError>)
        ensures
            match r {
                Ok(o) => name_check(name@, T::spec_name_limit() as nat) == NameCheck::Accepted
                    && o@ == (canonical_name(name@), uri@) && o@.0 == upper(name@),
                Err(ObjectError::InvalidName { name: n }) => n@ == name@ && name_check(
                    name@,
                    T::spec_name_limit() as nat,
                ) == NameCheck::Invalid,
                Err(ObjectError::NameTooLong { name: n, maximum_length: m }) => n@ == name@ && m
                    == T::spec_name_limit() && name_check(name@, T::spec_name_limit() as nat)
                    == NameCheck::TooLong,
                Err(_) => false,
            },
    {
        let policy = T::naming_policy();
        match policy.validate(name.as_str()) {
            Ok(()) => {},
            Err(e) => return Err(e),
        }
        let cs = chars_of(name.as_str());
        let up = to_upper(cs.as_slice());
        Ok(ObjectRef::typed(string_of(up.as_slice()), uri))
    }

    /// Resolves the reference to a named object in its type's collection:
    /// the name is checked against the naming policy, canonicalized to
    /// uppercase, and appended in lowercase as one path segment.
    pub fn in_collection(collection: &AdtUri, name: &str) -> (r: Result<Self, ObjectError>)
        ensures
            match r {
                Ok(o) => name_check(name@, T::spec_name_limit() as nat) == NameCheck::Accepted
                    && collection_reference_ok(collection@, name@)
                    && o@.0 == canonical_name(name@) && o@.0 == upper(name@) && crate::uri::uri_check(
                    crate::url_support::url_appended_path(
                        crate::uri::resolution_origin() + collection@,
                        seq![lower(upper(name@))],
                    ),
                ) == crate::uri::UriCheck::Accepted(o@.1),
                Err(ObjectError::InvalidName { name: n }) => n@ == name@ && name_check(
                    name@,
                    T::spec_name_limit() as nat,
                ) == NameCheck::Invalid,
                Err(ObjectError::NameTooLong { name: n, maximum_length: m }) => n@ == name@ && m
                    == T::spec_name_limit() && name_check(name@, T::spec_name_limit() as nat)
                    == NameCheck::TooLong,
                Err(ObjectError::InvalidUri(_)) => name_check(name@, T::spec_name_limit() as nat)
                    == NameCheck::Accepted && !collection_reference_ok(collection@, name@),
                Err(_) => false,
            },
            name_check(name@, T::spec_name_limit() as nat) == NameCheck::Accepted
                && collection_reference_ok(collection@, name@) ==> r is Ok,
    {
        let policy = T::naming_policy();
        match policy.validate(name) {
            Ok(()) => {},
            Err(e) => return Err(e),
        }
        let cs = chars_of(name);
        let up = to_upper(cs.as_slice());
        let low = to_lower(up.as_slice());
        let segment = string_of(low.as_slice());
        let segments = vec![segment];
        assert(segments@.map_values(|s: String| s@) =~= seq![lower(upper(name@))]);
        match collection.append_segments(segments.as_slice()) {
            Ok(uri) => Ok(ObjectRef::typed(string_of(up.as_slice()), uri)),
            Err(e) => Err(ObjectError::InvalidUri(e)),
        }
    }
}

impl<T> Clone for ObjectRef<T> {
    fn clone(&self) -> (r: Self)
        ensures
            r@ == self@,
    {
        ObjectRef { name: self.name.clone(), uri: self.uri.clone(), marker: PhantomData }
    }
}

impl<T> PartialEq for ObjectRef<T> {
    fn eq(&self, other: &Self) -> (r: bool) {
        self.uri == other.uri
    }
}

impl<T> vstd::std_specs::cmp::PartialEqSpecImpl for ObjectRef<T> {
    open spec fn obeys_eq_spec() -> bool {
        true
    }

    open spec fn eq_spec(&self, other: &Self) -> bool {
        self@.1 == other@.1
    }
}

impl<T> Eq for ObjectRef<T> {}

/// The state of a repository object version, such as `active` or `inactive`.
#[derive(Clone, Copy, Debug, PartialEq, Eq, Structural)]
pub enum ObjectVersion {
    /// The active version (`active`).
    Active,
    /// The inactive version (`inactive`).
    Inactive,
    /// The working area version (`workingArea`).
    WorkingArea,
    /// A newly created object without an active version (`new`).
    New,
}

/// The object version named by an `adtcore:version` value.
pub open spec fn object_version_of(value: Seq<char>) -> Option<ObjectVersion> {
    if value == "active"@ {
        Some(ObjectVersion::Active)
    } else if value == "inactive"@ {
        Some(ObjectVersion::Inactive)
    } else if value == "workingArea"@ {
        Some(ObjectVersion::WorkingArea)
    } else if value == "new"@ {
        Some(ObjectVersion::New)
    } else {
        None
    }
}

/// The `adtcore:version` value of an object version.
pub open spec fn object_version_text(v: ObjectVersion) -> Seq<char> {
    match v {
        ObjectVersion::Active => "active"@,
        ObjectVersion::Inactive => "inactive"@,
        ObjectVersion::WorkingArea => "workingArea"@,
        ObjectVersion::New => "new"@,
    }
}

impl ObjectVersion {
    /// Returns the `adtcore:version` value.
    pub fn as_str(self) -> (r: &'static str)
        ensures
            r@ == object_version_text(self),
    {
        match self {
            ObjectVersion::Active => "active",
            ObjectVersion::Inactive => "inactive",
            ObjectVersion::WorkingArea => "workingArea",
            ObjectVersion::New => "new",
        }
    }

    /// Recognizes an `adtcore:version` value.
    pub fn parse(value: &str) -> (r: Option<ObjectVersion>)
        ensures
            r == object_version_of(value@),
    {
        if str_eq(value, "active") {
            Some(ObjectVersion::Active)
        } else if str_eq(value, "inactive") {
            Some(ObjectVersion::Inactive)
        } else if str_eq(value, "workingArea") {
            Some(ObjectVersion::WorkingArea)
        } else if str_eq(value, "new") {
            Some(ObjectVersion::New)
        } else {
            None
        }
    }
}

} // verus!
