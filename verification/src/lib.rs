//! Decoder for packets of the GDB Remote Serial Protocol.
//!
//! Every parser takes the bytes received so far and answers in one of three
//! ways: a value together with the bytes it did not consume, a definite
//! error, or a request for more input. Each parser is specified by a spec
//! function of the same name with the suffix `_spec`, and proved to compute
//! exactly that function.

pub mod error;
pub mod expand;
pub mod halt;
pub mod hex;
pub mod packet;
pub mod render;
pub mod stream;
pub mod text;
pub mod thread;

pub use error::{Error, ErrorKind, ExpandError, Needed, NomKind, Unparsed};
pub use expand::expand_body;
pub use hex::{hex_digit, hex_number, two_digit_hex};
pub use thread::{thread_id, ThreadId};
pub use packet::{checksum, compute_checksum, is_overlong_error_reply, packet_body};
pub use halt::{halt_reason, HaltReason};
