use vstd::prelude::*;

use crate::text::str_eq;

verus! {

/// A stable category identity from an ADT discovery document.
#[derive(Clone, Copy, Debug)]
pub struct CategoryId {
    /// The category scheme URI.
    pub scheme: &'static str,
    /// The category term within the scheme.
    pub term: &'static str,
}

/// Actions accepted through ADT's `_action` POST query parameter.
#[derive(Clone, Copy, Debug, PartialEq, Eq, Structural)]
pub enum PostAction {
    Check,
    Activate,
    Lock,
    Unlock,
    Find,
}

impl PostAction {
    /// The exact wire value of an action.
    pub open spec fn spec_wire(self) -> Seq<char> {
        match self {
            PostAction::Check => seq!['C', 'H', 'E', 'C', 'K'],
            PostAction::Activate => seq!['A', 'C', 'T', 'I', 'V', 'A', 'T', 'E'],
            PostAction::Lock => seq!['L', 'O', 'C', 'K'],
            PostAction::Unlock => seq!['U', 'N', 'L', 'O', 'C', 'K'],
            PostAction::Find => seq!['F', 'I', 'N', 'D'],
        }
    }

    /// Returns the exact value expected by ADT.
    pub fn as_str(self) -> (r: &'static str)
        ensures
            r@ == self.spec_wire(),
    {
        match self {
            PostAction::Check => {
                proof { reveal_strlit("CHECK"); }
                "CHECK"
            },
            PostAction::Activate => {
                proof { reveal_strlit("ACTIVATE"); }
                "ACTIVATE"
            },
            PostAction::Lock => {
                proof { reveal_strlit("LOCK"); }
                "LOCK"
            },
            PostAction::Unlock => {
                proof { reveal_strlit("UNLOCK"); }
                "UNLOCK"
            },
            PostAction::Find => {
                proof { reveal_strlit("FIND"); }
                "FIND"
            },
        }
    }
}

/// Relations understood in program representations.
#[derive(Clone, Copy, Debug, PartialEq, Eq, Structural)]
pub enum Relation {
    Versions,
    Source,
    ObjectStructure,
    TextElements,
    EnhancementImplementations,
    ObjectEnhancementOptions,
    SourceEnhancementOptions,
    ObjectStates,
    Parser,
}

/// The relation identified by an Atom relation URI, if it is a known one.
pub open spec fn relation_of(uri: Seq<char>) -> Option<Relation> {
    if uri == "http://www.sap.com/adt/relations/versions"@ {
        Some(Relation::Versions)
    } else if uri == "http://www.sap.com/adt/relations/source"@ {
        Some(Relation::Source)
    } else if uri == "http://www.sap.com/adt/relations/objectstructure"@ {
        Some(Relation::ObjectStructure)
    } else if uri == "http://www.sap.com/adt/relations/sources/textelements"@ {
        Some(Relation::TextElements)
    } else if uri == "http://www.sap.com/adt/relations/enhancementImplementations"@ {
        Some(Relation::EnhancementImplementations)
    } else if uri == "http://www.sap.com/adt/relations/enhancementOptionsOfMainObject"@ {
        Some(Relation::ObjectEnhancementOptions)
    } else if uri == "http://www.sap.com/adt/relations/enhancementOptions"@ {
        Some(Relation::SourceEnhancementOptions)
    } else if uri == "http://www.sap.com/adt/relations/objectstates"@ {
        Some(Relation::ObjectStates)
    } else if uri == "http://www.sap.com/adt/relations/abapsource/parser"@ {
        Some(Relation::Parser)
    } else {
        None
    }
}

impl Relation {
    /// Identifies a relation by its Atom relation URI.
    pub fn from_uri(uri: &str) -> (r: Option<Relation>)
        ensures
            r == relation_of(uri@),
    {
        if str_eq(uri, "http://www.sap.com/adt/relations/versions") {
            Some(Relation::Versions)
        } else if str_eq(uri, "http://www.sap.com/adt/relations/source") {
            Some(Relation::Source)
        } else if str_eq(uri, "http://www.sap.com/adt/relations/objectstructure") {
            Some(Relation::ObjectStructure)
        } else if str_eq(uri, "http://www.sap.com/adt/relations/sources/textelements") {
            Some(Relation::TextElements)
        } else if str_eq(uri, "http://www.sap.com/adt/relations/enhancementImplementations") {
            Some(Relation::EnhancementImplementations)
        } else if str_eq(uri, "http://www.sap.com/adt/relations/enhancementOptionsOfMainObject") {
            Some(Relation::ObjectEnhancementOptions)
        } else if str_eq(uri, "http://www.sap.com/adt/relations/enhancementOptions") {
            Some(Relation::SourceEnhancementOptions)
        } else if str_eq(uri, "http://www.sap.com/adt/relations/objectstates") {
            Some(Relation::ObjectStates)
        } else if str_eq(uri, "http://www.sap.com/adt/relations/abapsource/parser") {
            Some(Relation::Parser)
        } else {
            None
        }
    }
}

/// Each SAP relation URI is recognised as its own relation: versions,
/// source, object structure, text elements, enhancement implementations, the
/// enhancement options of the main object, the enhancement options of a
/// source, object states and the ABAP parser; any other URI is none of them.
pub proof fn relation_uris_name_their_relations(uri: Seq<char>)
    ensures
        relation_of("http://www.sap.com/adt/relations/versions"@) == Some(Relation::Versions),
        relation_of("http://www.sap.com/adt/relations/source"@) == Some(Relation::Source),
        relation_of("http://www.sap.com/adt/relations/objectstructure"@) == Some(Relation::ObjectStructure),
        relation_of("http://www.sap.com/adt/relations/sources/textelements"@) == Some(Relation::TextElements),
        relation_of("http://www.sap.com/adt/relations/enhancementImplementations"@) == Some(
            Relation::EnhancementImplementations,
        ),
        relation_of("http://www.sap.com/adt/relations/enhancementOptionsOfMainObject"@) == Some(
            Relation::ObjectEnhancementOptions,
        ),
        relation_of("http://www.sap.com/adt/relations/enhancementOptions"@) == Some(
            Relation::SourceEnhancementOptions,
        ),
        relation_of("http://www.sap.com/adt/relations/objectstates"@) == Some(Relation::ObjectStates),
        relation_of("http://www.sap.com/adt/relations/abapsource/parser"@) == Some(Relation::Parser),
        relation_of(uri) is Some ==> {
            ||| uri == "http://www.sap.com/adt/relations/versions"@
            ||| uri == "http://www.sap.com/adt/relations/source"@
            ||| uri == "http://www.sap.com/adt/relations/objectstructure"@
            ||| uri == "http://www.sap.com/adt/relations/sources/textelements"@
            ||| uri == "http://www.sap.com/adt/relations/enhancementImplementations"@
            ||| uri == "http://www.sap.com/adt/relations/enhancementOptionsOfMainObject"@
            ||| uri == "http://www.sap.com/adt/relations/enhancementOptions"@
            ||| uri == "http://www.sap.com/adt/relations/objectstates"@
            ||| uri == "http://www.sap.com/adt/relations/abapsource/parser"@
        },
{
    reveal_strlit("http://www.sap.com/adt/relations/versions");
    reveal_strlit("http://www.sap.com/adt/relations/source");
    reveal_strlit("http://www.sap.com/adt/relations/objectstructure");
    reveal_strlit("http://www.sap.com/adt/relations/sources/textelements");
    reveal_strlit("http://www.sap.com/adt/relations/enhancementImplementations");
    reveal_strlit("http://www.sap.com/adt/relations/enhancementOptionsOfMainObject");
    reveal_strlit("http://www.sap.com/adt/relations/enhancementOptions");
    reveal_strlit("http://www.sap.com/adt/relations/objectstates");
    reveal_strlit("http://www.sap.com/adt/relations/abapsource/parser");
    assert("http://www.sap.com/adt/relations/source"@.len() != "http://www.sap.com/adt/relations/versions"@.len());
    assert("http://www.sap.com/adt/relations/objectstructure"@.len() != "http://www.sap.com/adt/relations/versions"@.len());
    assert("http://www.sap.com/adt/relations/objectstructure"@.len() != "http://www.sap.com/adt/relations/source"@.len());
    assert("http://www.sap.com/adt/relations/sources/textelements"@.len() != "http://www.sap.com/adt/relations/versions"@.len());
    assert("http://www.sap.com/adt/relations/sources/textelements"@.len() != "http://www.sap.com/adt/relations/source"@.len());
    assert("http://www.sap.com/adt/relations/sources/textelements"@.len() != "http://www.sap.com/adt/relations/objectstructure"@.len());
    assert("http://www.sap.com/adt/relations/enhancementImplementations"@.len() != "http://www.sap.com/adt/relations/versions"@.len());
    assert("http://www.sap.com/adt/relations/enhancementImplementations"@.len() != "http://www.sap.com/adt/relations/source"@.len());
    assert("http://www.sap.com/adt/relations/enhancementImplementations"@.len() != "http://www.sap.com/adt/relations/objectstructure"@.len());
    assert("http://www.sap.com/adt/relations/enhancementImplementations"@.len() != "http://www.sap.com/adt/relations/sources/textelements"@.len());
    assert("http://www.sap.com/adt/relations/enhancementOptionsOfMainObject"@.len() != "http://www.sap.com/adt/relations/versions"@.len());
    assert("http://www.sap.com/adt/relations/enhancementOptionsOfMainObject"@.len() != "http://www.sap.com/adt/relations/source"@.len());
    assert("http://www.sap.com/adt/relations/enhancementOptionsOfMainObject"@.len() != "http://www.sap.com/adt/relations/objectstructure"@.len());
    assert("http://www.sap.com/adt/relations/enhancementOptionsOfMainObject"@.len() != "http://www.sap.com/adt/relations/sources/textelements"@.len());
    assert("http://www.sap.com/adt/relations/enhancementOptionsOfMainObject"@.len() != "http://www.sap.com/adt/relations/enhancementImplementations"@.len());
    assert("http://www.sap.com/adt/relations/enhancementOptions"@.len() != "http://www.sap.com/adt/relations/versions"@.len());
    assert("http://www.sap.com/adt/relations/enhancementOptions"@.len() != "http://www.sap.com/adt/relations/source"@.len());
    assert("http://www.sap.com/adt/relations/enhancementOptions"@.len() != "http://www.sap.com/adt/relations/objectstructure"@.len());
    assert("http://www.sap.com/adt/relations/enhancementOptions"@.len() != "http://www.sap.com/adt/relations/sources/textelements"@.len());
    assert("http://www.sap.com/adt/relations/enhancementOptions"@.len() != "http://www.sap.com/adt/relations/enhancementImplementations"@.len());
    assert("http://www.sap.com/adt/relations/enhancementOptions"@.len() != "http://www.sap.com/adt/relations/enhancementOptionsOfMainObject"@.len());
    assert("http://www.sap.com/adt/relations/objectstates"@.len() != "http://www.sap.com/adt/relations/versions"@.len());
    assert("http://www.sap.com/adt/relations/objectstates"@.len() != "http://www.sap.com/adt/relations/source"@.len());
    assert("http://www.sap.com/adt/relations/objectstates"@.len() != "http://www.sap.com/adt/relations/objectstructure"@.len());
    assert("http://www.sap.com/adt/relations/objectstates"@.len() != "http://www.sap.com/adt/relations/sources/textelements"@.len());
    assert("http://www.sap.com/adt/relations/objectstates"@.len() != "http://www.sap.com/adt/relations/enhancementImplementations"@.len());
    assert("http://www.sap.com/adt/relations/objectstates"@.len() != "http://www.sap.com/adt/relations/enhancementOptionsOfMainObject"@.len());
    assert("http://www.sap.com/adt/relations/objectstates"@.len() != "http://www.sap.com/adt/relations/enhancementOptions"@.len());
    assert("http://www.sap.com/adt/relations/abapsource/parser"@.len() != "http://www.sap.com/adt/relations/versions"@.len());
    assert("http://www.sap.com/adt/relations/abapsource/parser"@.len() != "http://www.sap.com/adt/relations/source"@.len());
    assert("http://www.sap.com/adt/relations/abapsource/parser"@.len() != "http://www.sap.com/adt/relations/objectstructure"@.len());
    assert("http://www.sap.com/adt/relations/abapsource/parser"@.len() != "http://www.sap.com/adt/relations/sources/textelements"@.len());
    assert("http://www.sap.com/adt/relations/abapsource/parser"@.len() != "http://www.sap.com/adt/relations/enhancementImplementations"@.len());
    assert("http://www.sap.com/adt/relations/abapsource/parser"@.len() != "http://www.sap.com/adt/relations/enhancementOptionsOfMainObject"@.len());
    assert("http://www.sap.com/adt/relations/abapsource/parser"@.len() != "http://www.sap.com/adt/relations/enhancementOptions"@.len());
    assert("http://www.sap.com/adt/relations/abapsource/parser"@.len() != "http://www.sap.com/adt/relations/objectstates"@.len());
}

/// Distinct actions are sent as distinct wire values.
pub proof fn post_action_wire_values_are_distinct(a: PostAction, b: PostAction)
    requires
        a.spec_wire() == b.spec_wire(),
    ensures
        a == b,
{
    if a != b {
        match a {
            PostAction::Check => assert(a.spec_wire()[1] != b.spec_wire()[1] || a.spec_wire().len() != b.spec_wire().len()),
            PostAction::Activate => assert(a.spec_wire().len() != b.spec_wire().len()),
            PostAction::Lock => assert(a.spec_wire()[0] != b.spec_wire()[0] || a.spec_wire().len() != b.spec_wire().len()),
            PostAction::Unlock => assert(a.spec_wire().len() != b.spec_wire().len()),
            PostAction::Find => assert(a.spec_wire()[0] != b.spec_wire()[0] || a.spec_wire().len() != b.spec_wire().len()),
        }
    }
}

} // verus!
