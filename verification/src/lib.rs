//! Typed SAP ABAP Development Tools protocol support.

mod std_specs;
mod text;
mod uri;
mod url_support;
mod vocabulary;

pub use uri::{AdtUri, AdtUriError, UriCheck, ADT_RESOURCE_ROOT, ADT_ROOT};
pub use vocabulary::{post_action_wire_values_are_distinct, relation_of, CategoryId, PostAction, Relation};
mod error;
mod objects;
mod sealed;

pub use error::ObjectError;
pub use objects::{
    canonical_name, name_check, workbench_type_rejection, workbench_type_text, Class,
    GlobalWorkbenchType, GlobalWorkbenchTypeParseError, Include, InvalidWorkbenchType, NameCheck,
    ObjectCollection, ObjectNamePolicy, ObjectRef, ObjectType, Package, Program, Source,
};
mod resource;

pub use resource::{
    accepted_uris_lie_in_the_resource_root, href_resolution, resolve_href, AdtLink,
    AdtLinkMetadata, EnhancementImplementations, EnhancementImplementationsRef,
    EnhancementOptions, EnhancementOptionsRef, HtmlSource, HtmlSourceRef, ObjectState,
    ObjectStateRef, ObjectStructure, ObjectStructureRef, PackageRef, Parser, ParserRef,
    RelatedRef, ResolvedHref, SourceRef, SourceVersions, SourceVersionsRef, TextElements,
    TextElementsRef,
};
pub mod program;
pub mod program_query;

pub use error::ProgramError;
pub use objects::{object_version_of, ObjectVersion};
mod compatibility;

pub use compatibility::{
    media_type_parts, media_types_match, media_types_match_reflexive, media_types_match_spec,
    negotiate, negotiate_accepted, from_media_type, negotiated, negotiated_from, parse_media_type, version_for, CompatibilityError,
    MediaVersionNegotiation, ParsedMediaType,
};
mod traced;

pub use traced::{
    base_media_type, body_for_log, body_log_decision, ends_with_ignore_ascii_case, indent_body,
    is_text_media_type, is_xml_media_type, log_request_body, log_response_body,
    only_xml_responses_are_logged, oversized_bodies_are_never_logged, BodyLog, LogDecision,
    Traced,
};
mod repository;

pub use repository::{
    defined_facet, facet_name, folder_label, is_direct_assignment_folder, EntryView, FolderView,
    RepositoryContent, RepositoryFacet, RepositoryFacetDefinition, RepositoryObjectEntry,
    RepositoryPreselection, RepositoryVirtualFolder,
};
pub mod vfs;
mod protocol;

pub use protocol::{
    first_header, header_in, headers_view, is_header_value, method_token, AdtRequest,
    AdtResponse, EntityTag, HttpMethod, InvalidHeaderValue,
};
mod batch;

pub use batch::{
    batch_content_type, batch_parts_decode, batch_frame_outcome, batch_request, boundary_check, decode_batch, decode_batch_outcome, decode_batch_response, random_batch_boundary, new_batch_request, BatchSlots, encode_batch, encoded_batch, encoded_target, find_bytes, multipart_parts,
    response_boundary, scan_parts, BatchError, BatchKey, BatchMediaVersion, BoundaryCheck,
};
mod operation;

pub use error::{CtsError, LogonError, OperationError, ResponseError, TransportError};
pub use operation::{
    context_after, context_cookie, expired_context_is_discarded, other_headers_keep_the_context,
    set_context_is_sent_back, Conditional, IfNoneMatch, OperationKind, Stateful, Stateless,
    Unconditional, UserSessionState,
};
mod object;

pub use object::{
    access_mode_text, expect_ok, AccessMode, LockHandle, ObjectLock, ObjectSourceQuery,
    ObjectSourceUpdate, ObjectSourceUpdateBuilder, ObjectSourceUpdateBuilderError, ObjectUnlock,
    SourceCode,
};
mod transports;
pub mod transport_query;

pub use transports::{
    kind_text, legacy_number, non_empty, request_from, status_text, transport_values_round_trip,
    RawTransportCreation, RawTransportRequest, TransportCreateRequest, TransportCreation,
    TransportCreationMessage, TransportKind, TransportRequest, TransportRequests, TransportStatus,
};
mod session;
pub mod client_state;
pub mod class_source;
pub mod discovery;

pub use session::{
    parsed_i64, session_failure, session_uri_of, RawProperty, RawSession, RawSessionLink,
    SessionFailure, SessionInformation, SessionUri, SystemInformationLink, TimeoutScan,
};
mod destination;

pub use destination::{
    destination_outcome, request_url, request_url_text, url_destination, user_context, BuilderView, DestinationProblem,
    DestinationUrl, DestinationUrlView, ReqwestTransportBuildError, ReqwestTransportBuilder,
    TransportSettings,
};
pub mod include_query;

pub use error::IncludeError;
