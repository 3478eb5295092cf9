use ez_video_capture_core::buffer::PacketBuffer;
use ez_video_capture_core::packet::{clone_packet, Packet, NO_TIMESTAMP};

fn packet(dts: i64, flags: i32) -> Packet {
    let mut p = Packet::new();
    p.set_dts(dts);
    p.set_pts(dts);
    p.set_flags(flags);
    p
}

#[test]
fn test_clone_packet() {
    let mut packet = Packet::new();
    packet.set_pts(100);
    packet.set_dts(90);
    packet.set_stream_index(1);
    packet.set_flags(1);
    packet.set_duration(10);

    let cloned = clone_packet(&packet);

    assert_eq!(cloned.pts, packet.pts);
    assert_eq!(cloned.dts, packet.dts);
    assert_eq!(cloned.stream_index, packet.stream_index);
    assert_eq!(cloned.flags, packet.flags);
    assert_eq!(cloned.duration, packet.duration);
    assert!(!std::ptr::eq(&cloned, &packet));
}

#[test]
fn clone_packet_copies_payload() {
    let mut packet = Packet::new();
    packet.data = vec![1, 2, 3];
    let cloned = clone_packet(&packet);
    assert_eq!(cloned.data, vec![1, 2, 3]);
    assert_ne!(cloned.data.as_ptr(), packet.data.as_ptr());
}

#[test]
fn new_packet_has_no_timestamps() {
    let p = Packet::new();
    assert_eq!(p.pts, NO_TIMESTAMP);
    assert_eq!(p.dts, NO_TIMESTAMP);
    assert_eq!(p.stream_index, 0);
    assert_eq!(p.flags, 0);
    assert_eq!(p.duration, 0);
    assert!(p.data.is_empty());
    assert!(!p.is_keyframe());
}

#[test]
fn only_exact_keyframe_flag_counts() {
    assert!(packet(0, 1).is_keyframe());
    assert!(!packet(0, 3).is_keyframe());
    assert!(!packet(0, 0).is_keyframe());
}

#[test]
fn keyframe_replaces_buffer() {
    let mut b = PacketBuffer::new();
    b.push(packet(1, 0));
    b.push(packet(2, 0));
    assert_eq!(b.len(), 2);
    b.push(packet(3, 1));
    assert_eq!(b.len(), 1);
    b.push(packet(4, 0));
    let v = b.drain();
    let dts: Vec<i64> = v.iter().map(|p| p.dts).collect();
    assert_eq!(dts, vec![3, 4]);
    assert_eq!(b.len(), 0);
}

#[test]
fn buffer_holds_packets_since_last_keyframe() {
    let mut b = PacketBuffer::new();
    for (dts, flags) in [(1, 1), (2, 0), (3, 1), (4, 0), (5, 0), (6, 1), (7, 0)] {
        b.push(packet(dts, flags));
    }
    let v = b.drain();
    let dts: Vec<i64> = v.iter().map(|p| p.dts).collect();
    assert_eq!(dts, vec![6, 7]);
    assert!(v[0].is_keyframe());
    assert!(v[1..].iter().all(|p| !p.is_keyframe()));
}

#[test]
fn drain_keeps_order_and_empties() {
    let mut b = PacketBuffer::new();
    b.push(packet(10, 0));
    b.push(packet(11, 0));
    b.push(packet(12, 0));
    let v = b.drain();
    let dts: Vec<i64> = v.iter().map(|p| p.dts).collect();
    assert_eq!(dts, vec![10, 11, 12]);
    assert!(b.drain().is_empty());
}
