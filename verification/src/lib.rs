//! Verified core of an SSIMULACRA2 scoring worker: the length-prefixed request
//! framing, the decoding of pixel payloads into integer samples, the session
//! state machine of the worker, the column-stripe plan of the vertical blur
//! pass and the dimension checks of a precomputed reference frame.
pub mod frame;
pub mod gaussian;
pub mod payload;
pub mod protocol;
pub mod session;
