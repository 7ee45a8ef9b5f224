//! The protocol layer of a memcached client, without its transport.
//!
//! Typed operations are turned into the bytes of a request in one of the two
//! dialects that a cache server speaks, and the lines and blocks that the
//! server answers with are turned back into typed replies or classified
//! errors. Reading and writing the connection is left to the caller, who is
//! told at every moment what to read next.

pub mod error;
pub mod text;
pub mod value;
pub mod protocol;
