//! Client library for a line-oriented, strictly-ordered music-player control
//! protocol: an ordered attribute store decoded from response lines, a frame
//! reader and writer for the wire format, a FIFO multiplexer model for a
//! single shared connection, and typed decoders for domain values.

use vstd::prelude::*;

pub mod attrs;
pub mod client;
pub mod conn;
pub mod frame;
pub mod session;
pub mod subsonic;
mod text;
pub mod types;
pub mod writer;

pub use text::str_eq;

verus! {

} // verus!
