//! The engine's view of the transport layer: transport failures arrive as
//! opaque errors and are mapped into the engine's error domain.  The
//! JSON-RPC client itself lives with the caller.
use vstd::prelude::*;

use crate::ZcashError;

verus! {

#[verifier::external_type_specification]
#[verifier::external_body]
pub struct ExAnyhowError(anyhow::Error);

/// The text an opaque transport error renders to.
pub uninterp spec fn error_text_of(e: anyhow::Error) -> Seq<char>;

/// Relies on `anyhow::Error`'s display rendering, deterministic per value.
#[verifier::external_body]
fn anyhow_to_string(e: &anyhow::Error) -> (r: String)
    ensures
        r@ == error_text_of(*e),
{
    e.to_string()
}

/// Maps a transport error into the engine's error domain, marking it as
/// retryable for the caller.
pub fn map_rpc_error(e: anyhow::Error) -> (r: ZcashError)
    ensures
        r matches ZcashError::RPC(m) && m@ == error_text_of(e),
{
    ZcashError::RPC(anyhow_to_string(&e))
}

} // verus!
