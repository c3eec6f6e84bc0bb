use vstd::prelude::*;

pub mod text;
pub mod common;
pub mod error;
pub mod headers;
pub mod token68;
pub mod identifiers;
pub mod clock;
pub mod codec;
pub mod header_map;
pub mod keys;
pub mod signature;
pub mod signature_laws;
pub mod wire;
pub mod deferred;
pub mod respond;
pub mod opaque;
pub mod resource_token;
pub mod server_token;
pub mod access;
pub mod federation;
pub mod token_claims;

verus! {

} // verus!
