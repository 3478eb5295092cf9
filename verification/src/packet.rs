use vstd::prelude::*;

verus! {

/// The timestamp FFmpeg uses for "no timestamp" (`AV_NOPTS_VALUE`).
pub const NO_TIMESTAMP: i64 = i64::MIN;

/// The `flags` value of a packet that starts a keyframe.
pub const KEYFRAME_FLAGS: i32 = 1;

/// A compressed packet of a stream: its timestamps, the stream it belongs to,
/// its flags and its payload.
pub struct Packet {
    pub pts: i64,
    pub dts: i64,
    pub stream_index: i32,
    pub flags: i32,
    pub duration: i64,
    pub data: Vec<u8>,
}

/// A packet starts a keyframe when its flags are exactly the keyframe flag.
pub open spec fn is_keyframe(p: Packet) -> bool {
    p.flags == KEYFRAME_FLAGS
}

/// Two packets carry the same timestamps, stream, flags and payload.
pub open spec fn same_packet(a: Packet, b: Packet) -> bool {
    &&& a.pts == b.pts
    &&& a.dts == b.dts
    &&& a.stream_index == b.stream_index
    &&& a.flags == b.flags
    &&& a.duration == b.duration
    &&& a.data@ == b.data@
}

impl Packet {
    /// An empty packet, as freshly allocated: no timestamps, stream 0,
    /// no flags, no duration, no payload.
    pub fn new() -> (p: Packet)
        ensures
            p.pts == NO_TIMESTAMP,
            p.dts == NO_TIMESTAMP,
            p.stream_index == 0,
            p.flags == 0,
            p.duration == 0,
            p.data@ == Seq::<u8>::empty(),
    {
        Packet {
            pts: NO_TIMESTAMP,
            dts: NO_TIMESTAMP,
            stream_index: 0,
            flags: 0,
            duration: 0,
            data: Vec::new(),
        }
    }

    pub fn set_pts(&mut self, pts: i64)
        ensures
            *final(self) == (Packet { pts, ..*old(self) }),
    {
        self.pts = pts;
    }

    pub fn set_dts(&mut self, dts: i64)
        ensures
            *final(self) == (Packet { dts, ..*old(self) }),
    {
        self.dts = dts;
    }

    pub fn set_stream_index(&mut self, stream_index: i32)
        ensures
            *final(self) == (Packet { stream_index, ..*old(self) }),
    {
        self.stream_index = stream_index;
    }

    pub fn set_flags(&mut self, flags: i32)
        ensures
            *final(self) == (Packet { flags, ..*old(self) }),
    {
        self.flags = flags;
    }

    pub fn set_duration(&mut self, duration: i64)
        ensures
            *final(self) == (Packet { duration, ..*old(self) }),
    {
        self.duration = duration;
    }

    /// Whether this packet starts a keyframe.
    pub fn is_keyframe(&self) -> (b: bool)
        ensures
            b == is_keyframe(*self),
    {
        self.flags == KEYFRAME_FLAGS
    }
}

/// A new packet with the same timestamps, stream, flags and payload.
pub fn clone_packet(packet: &Packet) -> (c: Packet)
    ensures
        same_packet(c, *packet),
{
    let data = packet.data.clone();
    assert(data@ =~= packet.data@);
    Packet {
        pts: packet.pts,
        dts: packet.dts,
        stream_index: packet.stream_index,
        flags: packet.flags,
        duration: packet.duration,
        data,
    }
}

} // verus!
