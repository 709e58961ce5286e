//! The failures a connection can meet, and what each one costs.

use vstd::prelude::*;

verus! {

/// Why a connection, or a session, was given up.
#[derive(Clone, Copy, Debug, PartialEq, Eq, Structural)]
pub enum ServiceError {
    /// The identifier could not be read in full.
    HandshakeIncomplete,
    /// A waiting connection did not answer the liveness probe in time.
    ProbeTimeout,
    /// Writing the probe, or reading its answer, failed.
    ProbeIOError,
    /// A read or write failed while a session was relaying.
    RelayIOError,
}

/// What is closed when an error is handled. Nothing else is affected: no
/// error stops the service or touches another session.
#[derive(Clone, Copy, Debug, PartialEq, Eq, Structural)]
pub enum Disposal {
    /// The one connection that met the error is closed.
    Connection,
    /// Both connections of the session are closed.
    Session,
}

impl ServiceError {
    /// The extent of an error: a failed relay ends its session, every other
    /// error costs only the connection it happened on.
    pub open spec fn spec_disposal(self) -> Disposal {
        match self {
            ServiceError::RelayIOError => Disposal::Session,
            _ => Disposal::Connection,
        }
    }

    #[verifier::when_used_as_spec(spec_disposal)]
    pub fn disposal(self) -> (d: Disposal)
        ensures
            d == self.spec_disposal(),
    {
        match self {
            ServiceError::RelayIOError => Disposal::Session,
            _ => Disposal::Connection,
        }
    }
}

} // verus!
