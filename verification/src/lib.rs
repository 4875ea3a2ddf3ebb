//! Retrieval of a file that was split into content-addressed blocks, each
//! hidden as the pixel data of a PNG image.
//!
//! The crate holds the rules of that retrieval, each with a proved contract.
//! It reads no file and opens no connection: where the outside world comes
//! in, the caller is told what to do and reports what came of it.
//!
//! * [`payload`]: recovery of a length-prefixed payload from the scanlines
//!   of an image, as they arrive;
//! * [`manifest`]: the manifest of a file and of its blocks;
//! * [`mirror`]: the address to try at each attempt;
//! * [`digest`]: the hex-encoded SHA-1 digest that names a block;
//! * [`acquire`]: the work on one block, attempt by attempt;
//! * [`orchestrate`]: the run as a whole and the flag its blocks share;
//! * [`merge`]: putting the blocks together in the order of the manifest;
//! * [`text`]: the string operations the rules are written with.
pub mod acquire;
pub mod digest;
pub mod manifest;
pub mod merge;
pub mod mirror;
pub mod orchestrate;
pub mod payload;
pub mod text;
