//! Frame capture from video streams: the decisions of the capture pipeline
//! (which packets are kept, which frame a grab returns, how timestamps are
//! repaired before muxing, which decoder back end a platform offers) with
//! their contracts. The media work itself is done by FFmpeg around it.
pub mod buffer;
pub mod capture;
pub mod capture_core;
pub mod decoder;
pub mod error;
pub mod packet;
pub mod writer;

pub use buffer::PacketBuffer;
pub use capture::VideoCapture;
pub use capture_core::{last_frame, take_packets, CaptureLoop};
pub use decoder::{HardwareAcceleration, HardwareType, VideoDecoder};
pub use error::{Error, ErrorCategory};
pub use packet::{clone_packet, Packet};
pub use writer::VideoWriter;
