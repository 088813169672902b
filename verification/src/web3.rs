//! The client-identity endpoint and the network endpoints' defaults.

use vstd::prelude::*;

verus! {

/// The shape of the parameters that came with a request.
#[derive(Clone, Copy, Debug, PartialEq, Eq, Structural)]
pub enum Params {
    Absent,
    Positional,
    Named,
}

/// Why an endpoint refused a request.
#[derive(Clone, Copy, Debug, PartialEq, Eq, Structural)]
pub enum RpcError {
    InvalidParams,
    InternalError,
}

/// The version string reported to clients.
pub open spec fn client_version_text() -> Seq<char> {
    "parity/0.1.0/-/rust1.7-nightly"@
}

/// Answers requests about the client itself.
#[derive(Clone, Copy, Debug, PartialEq, Eq, Structural)]
pub struct Web3Client;

impl Web3Client {
    pub fn new() -> (r: Self)
        ensures
            r == Web3Client,
    {
        Web3Client
    }

    /// The client's version; a request that carries parameters is refused.
    pub fn client_version(&self, params: Params) -> (r: Result<String, RpcError>)
        ensures
            params == Params::Absent ==> (r matches Ok(text) && text@ == client_version_text()),
            params != Params::Absent ==> r == Err::<String, RpcError>(RpcError::InvalidParams),
    {
        match params {
            Params::Absent => Ok("parity/0.1.0/-/rust1.7-nightly".to_string()),
            _ => Err(RpcError::InvalidParams),
        }
    }
}

/// Net rpc interface. An endpoint that an implementation leaves out answers
/// with an internal error.
pub trait Net: Sized {
    /// Returns protocol version.
    fn version(&self, params: Params) -> Result<String, RpcError> {
        Err(RpcError::InternalError)
    }

    /// Returns number of peers connected to node.
    fn peer_count(&self, params: Params) -> Result<String, RpcError> {
        Err(RpcError::InternalError)
    }
}

} // verus!
