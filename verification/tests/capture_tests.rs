use ez_video_capture_core::buffer::PacketBuffer;
use ez_video_capture_core::capture::{input_options, to_decimal, OpenOutcome, ReadOutcome, VideoCapture};
use ez_video_capture_core::capture_core::{last_frame, take_packets, CaptureLoop, CapturePhase, CaptureStep};
use ez_video_capture_core::packet::Packet;
use ez_video_capture_core::{Error, ErrorCategory};

fn packet(stream: i32, flags: i32) -> Packet {
    let mut p = Packet::new();
    p.set_stream_index(stream);
    p.set_flags(flags);
    p
}

#[test]
fn open_outcomes() {
    assert_eq!(
        VideoCapture::new("rtsp://x", OpenOutcome::Unopened).err(),
        Some(Error::FailedToOpenSource("rtsp://x".to_string()))
    );
    assert_eq!(VideoCapture::new("a", OpenOutcome::NoVideoStream).err(), Some(Error::NoVideoStream));
    assert_eq!(
        VideoCapture::new("a", OpenOutcome::Opened { stream_index: 2, width: 0 }).err(),
        Some(Error::FailedToOpenSource("a".to_string()))
    );
    let c = VideoCapture::new("a", OpenOutcome::Opened { stream_index: 2, width: 640 }).ok().unwrap();
    assert_eq!(c.video_index(), 2);
}

#[test]
fn receive_keeps_only_video_packets() {
    let c = VideoCapture::new("a", OpenOutcome::Opened { stream_index: 1, width: 8 }).ok().unwrap();
    assert!(c.receive(ReadOutcome::Packet(packet(0, 1))).is_none());
    match c.receive(ReadOutcome::Packet(packet(1, 0))) {
        Some(Ok(Some(p))) => assert_eq!(p.stream_index, 1),
        _ => panic!("expected the video packet"),
    }
    assert!(matches!(c.receive(ReadOutcome::EndOfStream), Some(Ok(None))));
    assert!(matches!(c.receive(ReadOutcome::Failed), Some(Err(Error::ReadError))));
}

#[test]
fn timeout_option_is_in_microseconds() {
    let opts = input_options(10000);
    assert_eq!(opts.len(), 2);
    assert_eq!(opts[0], ("rtsp_transport".to_string(), "tcp".to_string()));
    assert_eq!(opts[1], ("timeout".to_string(), "10000000".to_string()));
    assert_eq!(input_options(0)[1].1, "0");
    assert_eq!(input_options(u32::MAX)[1].1, "4294967295000");
}

#[test]
fn decimal_notation() {
    assert_eq!(to_decimal(0), "0");
    assert_eq!(to_decimal(7), "7");
    assert_eq!(to_decimal(10), "10");
    assert_eq!(to_decimal(1234567890), "1234567890");
    assert_eq!(to_decimal(u64::MAX), u64::MAX.to_string());
}

#[test]
fn capture_loop_waits_for_keyframe() {
    let mut l = CaptureLoop::new();
    assert_eq!(l.phase(), CapturePhase::AwaitingKeyframe);
    assert_eq!(l.next_step(true), CaptureStep::Read);
    assert!(!l.on_read(&Some(packet(0, 0))));
    assert_eq!(l.phase(), CapturePhase::AwaitingKeyframe);
    assert!(l.on_read(&Some(packet(0, 1))));
    assert_eq!(l.phase(), CapturePhase::Streaming);
    assert!(l.on_read(&Some(packet(0, 0))));
    assert_eq!(l.next_step(false), CaptureStep::Read);
    assert_eq!(l.next_step(true), CaptureStep::Stop);
    assert!(!l.on_read(&None));
    assert_eq!(l.phase(), CapturePhase::Stopped);
    assert_eq!(l.next_step(false), CaptureStep::Stop);
    assert!(!l.on_read(&Some(packet(0, 1))));
}

#[test]
fn failed_read_while_awaiting_goes_on_streaming() {
    let mut l = CaptureLoop::new();
    assert!(!l.on_read(&None));
    assert_eq!(l.phase(), CapturePhase::Streaming);
    assert!(l.on_read(&Some(packet(0, 0))));
}

#[test]
fn grab_of_closed_capture() {
    let mut b = PacketBuffer::new();
    b.push(packet(0, 1));
    assert_eq!(take_packets(true, &mut b).err(), Some(Error::ConnectionClosed));
    assert_eq!(b.len(), 1);
    let taken = take_packets(false, &mut b).ok().unwrap();
    assert_eq!(taken.len(), 1);
    assert_eq!(b.len(), 0);
}

#[test]
fn grab_returns_last_decoded_frame() {
    assert_eq!(last_frame(vec![]), None);
    assert_eq!(last_frame(vec![vec![], vec![]]), None);
    assert_eq!(last_frame(vec![vec![vec![1], vec![2]], vec![vec![3]], vec![]]), Some(vec![3]));
    assert_eq!(last_frame(vec![vec![vec![1], vec![2]], vec![]]), Some(vec![2]));
}

#[test]
fn error_messages_and_categories() {
    let e = Error::FailedToOpenSource("rtsp://cam".to_string());
    assert_eq!(e.message(), "Failed to open video source: rtsp://cam");
    assert_eq!(e.category(), ErrorCategory::Connection);
    assert_eq!(Error::NoVideoStream.message(), "No video stream found in source");
    assert_eq!(Error::NoVideoStream.category(), ErrorCategory::Connection);
    assert_eq!(Error::ReadError.message(), "Error reading from video source");
    assert_eq!(Error::ReadError.category(), ErrorCategory::Io);
    assert_eq!(
        Error::UnsupportedPlatform.message(),
        "Selected hardware acceleration is not supported on this platform"
    );
    assert_eq!(Error::UnsupportedPlatform.category(), ErrorCategory::Value);
    assert_eq!(Error::FailedToOpenDecoder.message(), "Failed to open decoder");
    assert_eq!(Error::FailedToOpenDecoder.category(), ErrorCategory::Value);
    assert_eq!(Error::NoHwConfig.message(), "No hardware decoder config found for codec");
    assert_eq!(Error::NoHwConfig.category(), ErrorCategory::Value);
    assert_eq!(Error::FailedToOpenWriter.message(), "Failed to open writer");
    assert_eq!(Error::FailedToOpenWriter.category(), ErrorCategory::Io);
    assert_eq!(Error::FailedToWriteFrame.message(), "Failed to write frame");
    assert_eq!(Error::FailedToWriteFrame.category(), ErrorCategory::Io);
    assert_eq!(Error::FailedToWriteTrailer.message(), "Failed to write trailer");
    assert_eq!(Error::FailedToWriteTrailer.category(), ErrorCategory::Io);
    assert_eq!(Error::ConnectionClosed.message(), "Connection is closed");
    assert_eq!(Error::ConnectionClosed.category(), ErrorCategory::Connection);
}
