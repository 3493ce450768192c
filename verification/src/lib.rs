//! Reading, decoding and re-encoding of the offset-based binary model and
//! texture containers used by the Xenoblade Chronicles games.
//!
//! The crate is organised leaves-first: byte-level cursor primitives,
//! vertex/index/morph buffer codecs, the swizzled texture container,
//! the compressed-chunk transport, and the offset-based archive containers.
pub mod apmd;
pub mod buffers;
pub mod convert;
pub mod cursor;
pub mod error;
pub mod map;
pub mod mibl;
pub mod models;
pub mod msmd;
pub mod sar1;
pub mod spch;
pub mod vertex;
pub mod xbc1;
