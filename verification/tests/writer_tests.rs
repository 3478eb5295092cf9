use ez_video_capture_core::packet::Packet;
use ez_video_capture_core::writer::{output_format, output_options, VideoWriter};

fn packet(pts: i64, dts: i64) -> Packet {
    let mut p = Packet::new();
    p.set_pts(pts);
    p.set_dts(dts);
    p.set_stream_index(3);
    p.set_flags(1);
    p.set_duration(7);
    p.data = vec![9, 9];
    p
}

#[test]
fn writer_starts_at_zero() {
    assert_eq!(VideoWriter::new().last_dts(), 0);
}

#[test]
fn push_moves_packet_to_stream_zero() {
    let mut w = VideoWriter::new();
    let out = w.push(packet(10, 10));
    assert_eq!(out.stream_index, 0);
    assert_eq!(out.pts, 10);
    assert_eq!(out.dts, 10);
    assert_eq!(out.flags, 1);
    assert_eq!(out.duration, 7);
    assert_eq!(out.data, vec![9, 9]);
    assert_eq!(w.last_dts(), 10);
}

#[test]
fn push_repairs_non_increasing_dts() {
    let mut w = VideoWriter::new();
    let a = w.push(packet(5, 5));
    let b = w.push(packet(5, 5));
    let c = w.push(packet(3, 2));
    assert_eq!((a.dts, b.dts, c.dts), (5, 6, 7));
    assert_eq!((a.pts, b.pts, c.pts), (5, 6, 7));
    assert_eq!(w.last_dts(), 7);
}

#[test]
fn first_packet_at_or_before_zero_moves_to_one() {
    let mut w = VideoWriter::new();
    let out = w.push(packet(0, 0));
    assert_eq!(out.dts, 1);
    assert_eq!(out.pts, 1);
}

#[test]
fn pts_before_dts_is_raised() {
    let mut w = VideoWriter::new();
    let out = w.push(packet(20, 30));
    assert_eq!(out.dts, 30);
    assert_eq!(out.pts, 30);
    let later = w.push(packet(100, 40));
    assert_eq!(later.pts, 100);
    assert_eq!(later.dts, 40);
}

#[test]
fn written_dts_strictly_increase() {
    let mut w = VideoWriter::new();
    let mut last = i64::MIN;
    for dts in [3, 3, 1, 8, 8, 2, 20, -5] {
        let out = w.push(packet(dts, dts));
        assert!(out.dts > last);
        assert!(out.pts >= out.dts);
        last = out.dts;
    }
}

#[test]
fn output_is_fragmented_mp4() {
    assert_eq!(output_format(), "mp4");
    let opts = output_options();
    assert_eq!(opts.len(), 1);
    assert_eq!(opts[0].0, "movflags");
    assert_eq!(opts[0].1, "frag_keyframe+empty_moov+default_base_moof");
}
