//! Driver core for a bench oscilloscope that is operated over a serial line:
//! command encoding, frame validation, scale/unit decoding and sample
//! conversion, together with the pure decision logic of the capture loop.
//! Serial I/O itself and the floating-point display pipeline live outside
//! this crate; everything here is verified.

pub mod capture;
pub mod channels;
pub mod condition;
pub mod processing;
pub mod errors;
pub mod protocol;
