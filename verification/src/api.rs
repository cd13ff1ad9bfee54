//! Errors of the request/response facade.
//!
//! The facade adapter itself — routing, JSON encoding, the HTTP server —
//! lives outside the library; this is the error it reports for a raw bus
//! endpoint whose exchange did not come back in time.

use vstd::prelude::*;

verus! {

/// Error that the facade reports for a raw bus endpoint.
#[derive(Debug, Clone, Copy, PartialEq, Eq, Structural)]
pub enum ApiError {
    /// The bus exchange behind the request exceeded its deadline.
    ModbusTimeout,
}

} // verus!
