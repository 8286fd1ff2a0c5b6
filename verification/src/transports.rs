//! CTS transport requests as ADT reports them.
use vstd::prelude::*;
use vstd::utf8::{decode_utf8, valid_utf8};

use crate::error::CtsError;
use crate::std_specs::utf8_text;
use crate::text::{
    chars_of, contains_char, opt_view, starts_with, starts_with_exec, str_eq, string_of, sub_chars,
    trim, trimmed,
};
use crate::uri::AdtUri;

verus! {

/// The CTS function assigned to a transport request.
#[derive(Debug)]
pub enum TransportKind {
    /// A Workbench transport (`K`).
    Workbench,
    /// A Customizing transport (`W`).
    Customizing,
    /// Another CTS transport function retained by its wire value.
    Other(String),
}

/// The `TRFUNCTION` value of a transport kind.
pub open spec fn kind_text(k: TransportKind) -> Seq<char> {
    match k {
        TransportKind::Workbench => "K"@,
        TransportKind::Customizing => "W"@,
        TransportKind::Other(v) => v@,
    }
}

impl View for TransportKind {
    type V = Seq<char>;

    open spec fn view(&self) -> Seq<char> {
        kind_text(*self)
    }
}

impl TransportKind {
    /// Returns the exact CTS `TRFUNCTION` value.
    pub fn as_str(&self) -> (r: &str)
        ensures
            r@ == self@,
    {
        match self {
            TransportKind::Workbench => "K",
            TransportKind::Customizing => "W",
            TransportKind::Other(value) => value.as_str(),
        }
    }

    /// Recognizes a `TRFUNCTION` value; unknown values are kept as they are.
    pub fn parse(value: String) -> (r: TransportKind)
        ensures
            r@ == value@,
            value@ == "K"@ <==> r is Workbench,
            value@ == "W"@ <==> r is Customizing,
    {
        proof {
            reveal_strlit("K");
            reveal_strlit("W");
            assert("K"@[0] != "W"@[0]);
        }
        if str_eq(value.as_str(), "K") {
            TransportKind::Workbench
        } else if str_eq(value.as_str(), "W") {
            TransportKind::Customizing
        } else {
            TransportKind::Other(value)
        }
    }
}

impl Clone for TransportKind {
    fn clone(&self) -> (r: Self)
        ensures
            r@ == self@,
    {
        match self {
            TransportKind::Workbench => TransportKind::Workbench,
            TransportKind::Customizing => TransportKind::Customizing,
            TransportKind::Other(v) => TransportKind::Other(v.clone()),
        }
    }
}

impl PartialEq for TransportKind {
    fn eq(&self, other: &Self) -> (r: bool) {
        str_eq(self.as_str(), other.as_str())
    }
}

impl vstd::std_specs::cmp::PartialEqSpecImpl for TransportKind {
    open spec fn obeys_eq_spec() -> bool {
        true
    }

    open spec fn eq_spec(&self, other: &Self) -> bool {
        self@ == other@
    }
}

impl Eq for TransportKind {}

/// An open CTS transport status value (`TRSTATUS`).
#[derive(Debug)]
pub enum TransportStatus {
    Modifiable,
    ModifiableProtected,
    ReleaseStarted,
    Released,
    ReleasedWithImportProtection,
    ReleasePreparation,
    Other(String),
}

/// The `TRSTATUS` value of a status.
pub open spec fn status_text(s: TransportStatus) -> Seq<char> {
    match s {
        TransportStatus::Modifiable => "D"@,
        TransportStatus::ModifiableProtected => "L"@,
        TransportStatus::ReleaseStarted => "O"@,
        TransportStatus::Released => "R"@,
        TransportStatus::ReleasedWithImportProtection => "N"@,
        TransportStatus::ReleasePreparation => "P"@,
        TransportStatus::Other(v) => v@,
    }
}

impl View for TransportStatus {
    type V = Seq<char>;

    open spec fn view(&self) -> Seq<char> {
        status_text(*self)
    }
}

impl TransportStatus {
    /// The request can be modified (`D`).
    pub const MODIFIABLE: TransportStatus = TransportStatus::Modifiable;

    /// The request can be modified but is protected (`L`).
    pub const MODIFIABLE_PROTECTED: TransportStatus = TransportStatus::ModifiableProtected;

    /// Release of the request has started (`O`).
    pub const RELEASE_STARTED: TransportStatus = TransportStatus::ReleaseStarted;

    /// The request has been released (`R`).
    pub const RELEASED: TransportStatus = TransportStatus::Released;

    /// The request is released with import protection for repaired objects (`N`).
    pub const RELEASED_WITH_IMPORT_PROTECTION: TransportStatus =
        TransportStatus::ReleasedWithImportProtection;

    /// The request is being prepared for release (`P`).
    pub const RELEASE_PREPARATION: TransportStatus = TransportStatus::ReleasePreparation;

    /// Returns the exact CTS `TRSTATUS` value.
    pub fn as_str(&self) -> (r: &str)
        ensures
            r@ == self@,
    {
        match self {
            TransportStatus::Modifiable => "D",
            TransportStatus::ModifiableProtected => "L",
            TransportStatus::ReleaseStarted => "O",
            TransportStatus::Released => "R",
            TransportStatus::ReleasedWithImportProtection => "N",
            TransportStatus::ReleasePreparation => "P",
            TransportStatus::Other(v) => v.as_str(),
        }
    }

    /// Takes a `TRSTATUS` value as it is; standard values equal their constants.
    pub fn parse(value: String) -> (r: TransportStatus)
        ensures
            r@ == value@,
    {
        if str_eq(value.as_str(), "D") {
            TransportStatus::Modifiable
        } else if str_eq(value.as_str(), "L") {
            TransportStatus::ModifiableProtected
        } else if str_eq(value.as_str(), "O") {
            TransportStatus::ReleaseStarted
        } else if str_eq(value.as_str(), "R") {
            TransportStatus::Released
        } else if str_eq(value.as_str(), "N") {
            TransportStatus::ReleasedWithImportProtection
        } else if str_eq(value.as_str(), "P") {
            TransportStatus::ReleasePreparation
        } else {
            TransportStatus::Other(value)
        }
    }
}

impl Clone for TransportStatus {
    fn clone(&self) -> (r: Self)
        ensures
            r@ == self@,
    {
        match self {
            TransportStatus::Modifiable => TransportStatus::Modifiable,
            TransportStatus::ModifiableProtected => TransportStatus::ModifiableProtected,
            TransportStatus::ReleaseStarted => TransportStatus::ReleaseStarted,
            TransportStatus::Released => TransportStatus::Released,
            TransportStatus::ReleasedWithImportProtection => TransportStatus::ReleasedWithImportProtection,
            TransportStatus::ReleasePreparation => TransportStatus::ReleasePreparation,
            TransportStatus::Other(v) => TransportStatus::Other(v.clone()),
        }
    }
}

impl PartialEq for TransportStatus {
    fn eq(&self, other: &Self) -> (r: bool) {
        str_eq(self.as_str(), other.as_str())
    }
}

impl vstd::std_specs::cmp::PartialEqSpecImpl for TransportStatus {
    open spec fn obeys_eq_spec() -> bool {
        true
    }

    open spec fn eq_spec(&self, other: &Self) -> bool {
        self@ == other@
    }
}

impl Eq for TransportStatus {}

/// A parsed kind or status keeps its wire value: reading it back gives the
/// value that was parsed.
pub proof fn transport_values_round_trip(kind: TransportKind, status: TransportStatus, value: Seq<char>)
    requires
        kind@ == value,
        status@ == value,
    ensures
        kind_text(kind) == value,
        status_text(status) == value,
{
}

/// An empty field means "not supplied".
pub fn non_empty(value: String) -> (r: Option<String>)
    ensures
        value@.len() == 0 ==> r is None,
        value@.len() > 0 ==> r == Some(value),
{
    if value.as_str().is_empty() {
        None
    } else {
        Some(value)
    }
}

/// The fields of one `CTS_REQ_HEADER` element.
#[derive(Debug)]
pub struct RawTransportRequest {
    pub number: String,
    pub kind: String,
    pub status: String,
    pub target_system: String,
    pub owner: String,
    pub date: String,
    pub time: String,
    pub description: String,
    pub client: String,
    pub repository_id: String,
}

/// One CTS transport request header returned by ADT.
#[derive(Debug)]
pub struct TransportRequest {
    /// The transport request number (`TRKORR`).
    pub number: String,
    /// The request's CTS transport function.
    pub kind: TransportKind,
    /// The CTS transport status.
    pub status: TransportStatus,
    /// The transport target system, when assigned.
    pub target_system: Option<String>,
    /// The request owner (`AS4USER`).
    pub owner: String,
    /// The CTS date value (`AS4DATE`).
    pub date: String,
    /// The CTS time value (`AS4TIME`).
    pub time: String,
    /// The transport description (`AS4TEXT`).
    pub description: String,
    /// The SAP client, when supplied.
    pub client: Option<String>,
    /// The repository identifier, when supplied.
    pub repository_id: Option<String>,
}

/// An optional field: absent when empty.
pub open spec fn optional(value: Seq<char>) -> Option<Seq<char>> {
    if value.len() == 0 {
        None
    } else {
        Some(value)
    }
}

/// Whether a request header holds the fields of a raw header element.
pub open spec fn request_from(r: TransportRequest, raw: RawTransportRequest) -> bool {
    &&& r.number == raw.number
    &&& r.kind@ == raw.kind@
    &&& (raw.kind@ == "K"@ <==> r.kind is Workbench)
    &&& (raw.kind@ == "W"@ <==> r.kind is Customizing)
    &&& r.status@ == raw.status@
    &&& opt_view(r.target_system) == optional(raw.target_system@)
    &&& r.owner == raw.owner
    &&& r.date == raw.date
    &&& r.time == raw.time
    &&& r.description == raw.description
    &&& opt_view(r.client) == optional(raw.client@)
    &&& opt_view(r.repository_id) == optional(raw.repository_id@)
}

impl TransportRequest {
    /// Interprets one raw header element.
    pub fn from_raw(raw: RawTransportRequest) -> (r: Self)
        ensures
            request_from(r, raw),
    {
        TransportRequest {
            number: raw.number,
            kind: TransportKind::parse(raw.kind),
            status: TransportStatus::parse(raw.status),
            target_system: non_empty(raw.target_system),
            owner: raw.owner,
            date: raw.date,
            time: raw.time,
            description: raw.description,
            client: non_empty(raw.client),
            repository_id: non_empty(raw.repository_id),
        }
    }
}

/// Transport requests returned by a transports query.
#[derive(Debug)]
pub struct TransportRequests {
    /// The returned request headers in backend order.
    pub requests: Vec<TransportRequest>,
}

impl TransportRequests {
    /// No transport requests.
    pub fn empty() -> (r: Self)
        ensures
            r.requests@.len() == 0,
    {
        TransportRequests { requests: Vec::new() }
    }

    /// Interprets the raw header elements, keeping their order.
    pub fn from_raw(raw: Vec<RawTransportRequest>) -> (r: Self)
        ensures
            r.requests@.len() == raw@.len(),
            forall|i: int| 0 <= i < raw@.len() ==> request_from(#[trigger] r.requests@[i], raw@[i]),
    {
        let mut requests: Vec<TransportRequest> = Vec::new();
        let mut rest = raw;
        let ghost all = rest@;
        while rest.len() > 0
            invariant
                requests@.len() + rest@.len() == all.len(),
                rest@ == all.skip(requests@.len() as int),
                forall|k: int| 0 <= k < requests@.len() ==> request_from(#[trigger] requests@[k], all[k]),
            decreases rest.len(),
        {
            let ghost done = requests@.len() as int;
            let item = rest.remove(0);
            assert(item == all[done]);
            requests.push(TransportRequest::from_raw(item));
            assert(rest@ =~= all.skip(requests@.len() as int));
        }
        TransportRequests { requests }
    }

    /// Returns the number of transport requests.
    pub fn len(&self) -> (r: usize)
        ensures
            r == self.requests@.len(),
    {
        self.requests.len()
    }

    /// Returns whether no transport requests were found.
    pub fn is_empty(&self) -> (r: bool)
        ensures
            r == (self.requests@.len() == 0),
    {
        self.requests.len() == 0
    }
}

impl Default for TransportRequests {
    fn default() -> (r: Self)
        ensures
            r.requests@.len() == 0,
    {
        TransportRequests { requests: Vec::new() }
    }
}

/// A status message attached to a created transport request.
#[derive(Debug, PartialEq, Eq)]
pub struct TransportCreationMessage {
    /// The backend-defined message severity.
    pub severity: String,
    /// The localized short message text.
    pub short_text: String,
    /// Optional HTML long text.
    pub long_text: String,
}

/// The fields of a transport creation response.
#[derive(Debug)]
pub struct RawTransportCreation {
    pub transport_number: String,
    pub severity: String,
    pub short_text: String,
    pub long_text: String,
}

/// The result of creating a CTS transport request.
#[derive(Debug)]
pub struct TransportCreation {
    /// The newly created transport request number.
    pub transport_number: String,
    /// An optional status message returned by integrated change management.
    pub message: Option<TransportCreationMessage>,
}

/// The prefix of a legacy transport creation reference.
pub open spec fn legacy_prefix() -> Seq<char> {
    "/com.sap.cts/object_record/"@
}

/// The transport number in a legacy creation response: the trimmed UTF-8
/// text must be the legacy prefix followed by a non-empty number without `/`.
pub open spec fn legacy_number(body: Seq<u8>) -> Option<Seq<char>> {
    let reference = trim(decode_utf8(body));
    if starts_with(reference, legacy_prefix()) {
        let number = reference.skip(legacy_prefix().len() as int);
        if number.len() > 0 && !number.contains('/') {
            Some(number)
        } else {
            None
        }
    } else {
        None
    }
}

impl TransportCreation {
    /// Interprets a modern creation response: the number is required, and a
    /// message is kept when any of its fields is non-empty.
    pub fn from_raw(raw: RawTransportCreation) -> (r: Result<Self, CtsError>)
        ensures
            raw.transport_number@.len() == 0 <==> r matches Err(
                CtsError::MissingTransportCreationResponse,
            ),
            r is Err ==> raw.transport_number@.len() == 0,
            r matches Ok(c) ==> c.transport_number == raw.transport_number && (if raw.severity@.len()
                == 0 && raw.short_text@.len() == 0 && raw.long_text@.len() == 0 {
                c.message is None
            } else {
                c.message matches Some(m) && m.severity == raw.severity && m.short_text
                    == raw.short_text && m.long_text == raw.long_text
            }),
    {
        if raw.transport_number.as_str().is_empty() {
            return Err(CtsError::MissingTransportCreationResponse);
        }
        let message = if !raw.severity.as_str().is_empty() || !raw.short_text.as_str().is_empty()
            || !raw.long_text.as_str().is_empty() {
            Some(
                TransportCreationMessage {
                    severity: raw.severity,
                    short_text: raw.short_text,
                    long_text: raw.long_text,
                },
            )
        } else {
            None
        };
        Ok(TransportCreation { transport_number: raw.transport_number, message })
    }

    /// Interprets a legacy creation response, the reference
    /// `/com.sap.cts/object_record/<number>` as text.
    pub fn parse_legacy(body: &[u8]) -> (r: Result<Self, CtsError>)
        ensures
            !valid_utf8(body@) ==> r matches Err(CtsError::InvalidTransportCreationResponseEncoding),
            valid_utf8(body@) ==> match legacy_number(body@) {
                Some(n) => r matches Ok(c) && c.transport_number@ == n && c.message is None,
                None => r matches Err(CtsError::InvalidTransportCreationReference { reference })
                    && reference@ == trim(decode_utf8(body@)),
            },
    {
        let text = match utf8_text(body) {
            Some(t) => t,
            None => return Err(CtsError::InvalidTransportCreationResponseEncoding),
        };
        let cs = chars_of(text.as_str());
        let reference = trimmed(cs.as_slice());
        let prefix = chars_of("/com.sap.cts/object_record/");
        if starts_with_exec(reference.as_slice(), prefix.as_slice()) {
            let number = sub_chars(reference.as_slice(), prefix.len(), reference.len());
            assert(number@ =~= reference@.skip(prefix@.len() as int));
            if number.len() > 0 && !contains_char(number.as_slice(), '/') {
                return Ok(TransportCreation { transport_number: string_of(number.as_slice()), message: None });
            }
        }
        Err(CtsError::InvalidTransportCreationReference { reference: string_of(reference.as_slice()) })
    }
}

/// The values of a transport creation request.
#[derive(Debug)]
pub struct TransportCreateRequest {
    /// The operation, always `I` (insert).
    pub operation: &'static str,
    /// The package (`DEVCLASS`), empty when none is given.
    pub package: String,
    /// The request description (`REQUEST_TEXT`).
    pub description: String,
    /// The object reference (`REF`), when one is given.
    pub reference: Option<String>,
}

impl TransportCreateRequest {
    /// Describes a new transport request for a package and object.
    pub fn new(package: Option<&str>, description: &str, reference: Option<&AdtUri>) -> (r: Self)
        ensures
            r.operation@ == "I"@,
            r.package@ == match package {
                Some(p) => p@,
                None => Seq::<char>::empty(),
            },
            r.description@ == description@,
            opt_view(r.reference) == match reference {
                Some(u) => Some(u@),
                None => None,
            },
    {
        proof {
            reveal_strlit("I");
        }
        TransportCreateRequest {
            operation: "I",
            package: match package {
                Some(p) => p.to_owned(),
                None => String::new(),
            },
            description: description.to_owned(),
            reference: match reference {
                Some(u) => Some(u.as_str().to_owned()),
                None => None,
            },
        }
    }
}

} // verus!
