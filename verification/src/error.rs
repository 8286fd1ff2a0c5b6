//! Errors reported by the library's operations and decoders.
use vstd::prelude::*;

use crate::batch::BatchError;
use crate::compatibility::CompatibilityError;
use crate::uri::AdtUriError;
use crate::vocabulary::CategoryId;

verus! {

/// An error in a generic ADT object operation or representation.
#[derive(Debug)]
pub enum ObjectError {
    /// The object name is empty, padded, contains control characters, or is a
    /// relative path component.
    InvalidName { name: String },
    /// The object name exceeds its type's maximum length.
    NameTooLong { name: String, maximum_length: usize },
    /// The object resource URI could not be formed.
    InvalidUri(AdtUriError),
    /// The lock response could not be decoded.
    InvalidLockResponse(String),
    /// The lock response did not contain a lock handle.
    MissingLockHandle,
    /// The source response was not valid UTF-8.
    InvalidSourceEncoding,
    /// A lock handle was used with another object than the one it locks.
    LockHandleObjectMismatch { expected: String, actual: String },
}

/// An error resolving or decoding a program resource.
#[derive(Debug)]
pub enum ProgramError {
    /// The program name is empty or contains invalid whitespace or control characters.
    InvalidName { name: String },
    /// The program resource URI could not be formed.
    InvalidTarget(AdtUriError),
    /// The program representation could not be decoded.
    InvalidResponse(String),
    /// A program link could not be resolved.
    InvalidLink { href: String, source: AdtUriError },
    /// The program's package URI is invalid.
    InvalidPackageUri { uri: String, source: AdtUriError },
    /// The program did not advertise a plain-text source link.
    MissingSourceLink,
    /// The program's object version is not a known one.
    UnsupportedObjectVersion { version: String },
    /// The declared source URI and the advertised source link disagree.
    SourceLinkMismatch { declared: String, advertised: String },
    /// Discovery advertised no program collection.
    MissingCollection,
    /// None of the preferred representations is accepted by the program
    /// collection.
    UnsupportedRepresentation { preferred: Vec<String>, accepted: Vec<String> },
    /// The program response carried no content type.
    MissingContentType,
    /// The program response carried a content type that is no known
    /// representation.
    UnsupportedContentType { content_type: String },
    /// The cached entity tag is not a valid header value.
    InvalidEntityTag(crate::protocol::InvalidHeaderValue),
}

/// An error produced while carrying a request through a transport.
#[derive(Debug)]
pub struct TransportError {
    /// What went wrong.
    pub message: String,
}

impl TransportError {
    /// Describes a transport failure.
    pub fn new(message: String) -> (r: Self)
        ensures
            r.message == message,
    {
        TransportError { message }
    }
}

/// An error decoding or validating the HTTP session established during logon.
#[derive(Debug)]
pub enum LogonError {
    InvalidResponse(String),
    MissingContentType,
    MissingResponseBody,
    UnsupportedContentType { content_type: String },
    MissingLogoffLink,
    MissingCleanupLink,
    MissingSystemInformationContentType,
    InvalidLink { relation: String, href: String },
    DuplicateInactivityTimeout,
    InvalidInactivityTimeout { value: String },
}

/// An error in a change-and-transport-system operation.
#[derive(Debug)]
pub enum CtsError {
    InvalidTransportResponse(String),
    MissingTransportCreationResponse,
    InvalidTransportCreationResponseEncoding,
    InvalidTransportCreationReference { reference: String },
    InvalidTransportCreationRequest(String),
}

/// An error negotiating or checking an include descriptor.
#[derive(Debug)]
pub enum IncludeError {
    /// Discovery advertised no include collection.
    MissingCollection,
    /// None of the preferred representations is accepted by the include
    /// collection.
    UnsupportedRepresentation { preferred: Vec<String>, accepted: Vec<String> },
    /// The include response carried no content type.
    MissingContentType,
    /// The include response carried a content type that is no known
    /// representation.
    UnsupportedContentType { content_type: String },
    /// The cached entity tag is not a valid header value.
    InvalidEntityTag(crate::protocol::InvalidHeaderValue),
}

/// An error interpreting an ADT response.
#[derive(Debug)]
pub enum ResponseError {
    UnexpectedStatus { status: u16, body: String },
    UnexpectedNotModified,
    MissingContentType { category: CategoryId },
    UnsupportedContentType { category: CategoryId, content_type: String, supported: Vec<String> },
    Logon(LogonError),
    Object(ObjectError),
    Program(ProgramError),
    Include(IncludeError),
    Cts(CtsError),
    Batch(BatchError),
}

/// An error building, sending or decoding an operation.
#[derive(Debug)]
pub enum OperationError {
    Compatibility(CompatibilityError),
    Transport(TransportError),
    Response(ResponseError),
    Object(ObjectError),
    Batch(BatchError),
}

} // verus!
