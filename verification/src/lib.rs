//! A git object store over a remote blob namespace: pack index lookup, pack
//! entry decoding with delta reconstruction, loose-object framing and
//! reference resolution, with machine-checked contracts.
//!
//! The library computes and decides; it performs no input or output. The
//! operations of [`store::R2GitStore`] hand out the requests to make to the
//! blob namespace and are resumed with the replies.

pub mod bytes;
pub mod delta;
pub mod frame;
pub mod idx;
pub mod instructions;
pub mod keys;
pub mod oid;
pub mod pack;
pub mod refs;
pub mod refstore;
pub mod store;
pub mod text;
pub mod varint;
pub mod zlib;
