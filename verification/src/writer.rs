use vstd::prelude::*;
use crate::packet::Packet;

verus! {

/// The decoding timestamp a packet is written with, given the last one written:
/// a packet that would not come strictly after it is moved to just after it.
pub open spec fn repaired_dts(last_dts: int, dts: int) -> int {
    if dts <= last_dts {
        last_dts + 1
    } else {
        dts
    }
}

/// The presentation timestamp a packet is written with: never before its
/// (repaired) decoding timestamp.
pub open spec fn repaired_pts(pts: int, dts: int) -> int {
    if pts < dts {
        dts
    } else {
        pts
    }
}

/// The decoding timestamps written for a run of packets whose incoming
/// decoding timestamps are `ds`, starting after `last_dts`.
pub open spec fn repaired_run(last_dts: int, ds: Seq<int>) -> Seq<int>
    decreases ds.len(),
{
    if ds.len() == 0 {
        Seq::empty()
    } else {
        let first = repaired_dts(last_dts, ds[0]);
        seq![first] + repaired_run(first, ds.drop_first())
    }
}

/// Prepares the packets of one stream for an MP4 file: each packet goes to the
/// file's only stream, with decoding timestamps forced to increase strictly and
/// presentation timestamps never before decoding ones.
pub struct VideoWriter {
    last_dts: i64,
}

impl VideoWriter {
    /// The decoding timestamp of the last packet written (0 before the first).
    pub closed spec fn spec_last_dts(&self) -> i64 {
        self.last_dts
    }

    /// A writer that has written nothing yet.
    pub fn new() -> (w: VideoWriter)
        ensures
            w.spec_last_dts() == 0,
    {
        VideoWriter { last_dts: 0 }
    }

    /// The decoding timestamp of the last packet written.
    pub fn last_dts(&self) -> (d: i64)
        ensures
            d == self.spec_last_dts(),
    {
        self.last_dts
    }

    /// Takes a packet whose timestamps are already in the file's time base and
    /// returns it as it is to be written: on stream 0, its decoding timestamp
    /// moved past the previous one if needed, its presentation timestamp no
    /// earlier than its decoding timestamp; everything else unchanged.
    pub fn push(&mut self, packet: Packet) -> (out: Packet)
        requires
            old(self).spec_last_dts() < i64::MAX,
        ensures
            out.stream_index == 0,
            out.dts == repaired_dts(old(self).spec_last_dts() as int, packet.dts as int),
            out.pts == repaired_pts(packet.pts as int, out.dts as int),
            out.flags == packet.flags,
            out.duration == packet.duration,
            out.data == packet.data,
            final(self).spec_last_dts() == out.dts,
    {
        let mut packet = packet;
        packet.set_stream_index(0);
        if packet.dts <= self.last_dts {
            packet.set_dts(self.last_dts + 1);
        }
        self.last_dts = packet.dts;
        if packet.pts < packet.dts {
            let dts = packet.dts;
            packet.set_pts(dts);
        }
        packet
    }
}

/// The container format the writer produces.
pub fn output_format() -> (f: &'static str)
    ensures
        f@ == "mp4"@,
{
    "mp4"
}

/// The options the file's header is written with: a fragmented MP4 that
/// starts a fragment at each keyframe, so that what was written stays
/// playable however the recording ends.
pub fn output_options() -> (opts: Vec<(String, String)>)
    ensures
        opts@.len() == 1,
        opts@[0].0@ == "movflags"@,
        opts@[0].1@ == "frag_keyframe+empty_moov+default_base_moof"@,
{
    let mut opts: Vec<(String, String)> = Vec::new();
    opts.push((String::from_str("movflags"), String::from_str("frag_keyframe+empty_moov+default_base_moof")));
    opts
}

/// Every packet is written after the previous one in decoding order, and is
/// presented no earlier than it is decoded; timestamps move only as far as
/// that needs: a decoding timestamp already after the last stays, one that is
/// not becomes the next one after the last, and a presentation timestamp is
/// the later of itself and the decoding timestamp.
pub proof fn lemma_push_orders_timestamps(last_dts: int, pts: int, dts: int)
    ensures
        repaired_dts(last_dts, dts) > last_dts,
        repaired_dts(last_dts, dts) >= dts,
        repaired_pts(pts, repaired_dts(last_dts, dts)) >= repaired_dts(last_dts, dts),
        repaired_pts(pts, repaired_dts(last_dts, dts)) >= pts,
        dts > last_dts ==> repaired_dts(last_dts, dts) == dts,
        dts <= last_dts ==> repaired_dts(last_dts, dts) == last_dts + 1,
        pts >= repaired_dts(last_dts, dts) ==> repaired_pts(pts, repaired_dts(last_dts, dts)) == pts,
        pts < repaired_dts(last_dts, dts) ==> repaired_pts(pts, repaired_dts(last_dts, dts))
            == repaired_dts(last_dts, dts),
{
}

/// Over any run of packets, the decoding timestamps written increase strictly,
/// and all come after the one written before the run.
pub proof fn lemma_written_dts_strictly_increase(last_dts: int, ds: Seq<int>)
    ensures
        repaired_run(last_dts, ds).len() == ds.len(),
        forall|i: int| 0 <= i < ds.len() ==> #[trigger] repaired_run(last_dts, ds)[i] > last_dts,
        forall|i: int, j: int|
            0 <= i < j < ds.len() ==> #[trigger] repaired_run(last_dts, ds)[i] < #[trigger] repaired_run(
                last_dts,
                ds,
            )[j],
    decreases ds.len(),
{
    if ds.len() > 0 {
        let first = repaired_dts(last_dts, ds[0]);
        let rest = ds.drop_first();
        lemma_written_dts_strictly_increase(first, rest);
        let r = repaired_run(last_dts, ds);
        assert(r == seq![first] + repaired_run(first, rest));
        assert forall|i: int| 0 <= i < ds.len() implies #[trigger] r[i] > last_dts by {
            if i > 0 {
                assert(r[i] == repaired_run(first, rest)[i - 1]);
            }
        }
        assert forall|i: int, j: int| 0 <= i < j < ds.len() implies #[trigger] r[i] < #[trigger] r[j] by {
            assert(r[j] == repaired_run(first, rest)[j - 1]);
            if i > 0 {
                assert(r[i] == repaired_run(first, rest)[i - 1]);
            }
        }
    }
}

} // verus!
