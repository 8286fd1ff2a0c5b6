//! The lifecycle states of an ADT client.
use vstd::prelude::*;

use crate::sealed::Sealed;

verus! {

/// Marker for the protocol lifecycle state of an ADT client: operations that
/// need discovered capabilities can only run on a discovered client, other
/// authenticated operations on any logged-on one.
pub trait ClientState: Sealed {}

/// A client state carrying an authenticated HTTP security session.
pub trait LoggedOnState: ClientState {}

/// The client has not established an authenticated ADT session.
#[derive(Clone, Copy, Debug, Default)]
pub struct Unauthenticated;

/// The client has established an authenticated ADT session.
#[derive(Clone, Copy, Debug, Default)]
pub struct LoggedOn;

/// The client is logged on and has fetched the server's capabilities.
#[derive(Clone, Copy, Debug, Default)]
pub struct Discovered;

/// The client has not fetched the server's capabilities yet.
#[derive(Clone, Copy, Debug, Default)]
pub struct Undiscovered;

impl Sealed for Unauthenticated {}

impl Sealed for LoggedOn {}

impl Sealed for Discovered {}

impl Sealed for Undiscovered {}

impl ClientState for Unauthenticated {}

impl ClientState for LoggedOn {}

impl ClientState for Discovered {}

impl ClientState for Undiscovered {}

impl LoggedOnState for LoggedOn {}

impl LoggedOnState for Discovered {}

} // verus!
