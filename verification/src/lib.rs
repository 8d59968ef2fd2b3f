//! The core of a creative-coding framework, with contracts that Verus proves.
//!
//! Most of it is the audio stream engine (`audio`): buffers of interleaved
//! samples, the negotiation of a stream's format with a device, the requester
//! and the receiver that stand between the buffer lengths of the hardware and
//! the buffer length of the stream, the channel by which updates reach the
//! model, and the life of a stream from building to closing. All of it works
//! on plain values: what the hardware offers, asks for and delivers is handed
//! in, and what is to be done with the hardware is handed back.
//!
//! Beside it stand the description of an ellipse that is to be drawn (`draw`)
//! and the check of the description of a render pass (`gpu`).

pub mod audio;
pub mod draw;
pub mod gpu;
