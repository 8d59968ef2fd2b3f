//! Audio streams: sample buffers, devices and format negotiation, rebuffering
//! for output and for input, and the stream with its builder, its handle and
//! its updates.

pub mod buffer;
pub mod device;
pub mod receiver;
pub mod requester;
pub mod stream;

pub use self::buffer::Buffer;
pub use self::device::{Device, Devices, Format, SampleFormat, SupportedFormat};
pub use self::receiver::Receiver;
pub use self::requester::Requester;
pub use self::stream::Stream;
