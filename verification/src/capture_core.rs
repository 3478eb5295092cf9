use vstd::prelude::*;
use crate::buffer::{after_pushes, PacketBuffer};
use crate::error::Error;
use crate::packet::{is_keyframe, Packet};

verus! {

/// Where the capture loop stands.
#[derive(Debug, Clone, Copy, PartialEq, Eq, Structural)]
pub enum CapturePhase {
    /// Reading, and dropping packets until the first keyframe.
    AwaitingKeyframe,
    /// Reading and delivering every packet until the capture is closed.
    Streaming,
    /// Done: nothing more is read.
    Stopped,
}

/// What the capture loop does next.
#[derive(Debug, Clone, Copy, PartialEq, Eq, Structural)]
pub enum CaptureStep {
    Read,
    Stop,
}

/// The next step in a phase: while awaiting the first keyframe the loop reads
/// on whatever happens; while streaming it reads until the capture is closed.
pub open spec fn step_for(phase: CapturePhase, closed: bool) -> CaptureStep {
    match phase {
        CapturePhase::AwaitingKeyframe => CaptureStep::Read,
        CapturePhase::Streaming => if closed {
            CaptureStep::Stop
        } else {
            CaptureStep::Read
        },
        CapturePhase::Stopped => CaptureStep::Stop,
    }
}

/// Whether a read is delivered (to the frame buffer and, when recording, to
/// the writer): while awaiting, only a keyframe is; while streaming, every
/// packet is.
pub open spec fn delivers(phase: CapturePhase, read: Option<Packet>) -> bool {
    match read {
        Some(p) => match phase {
            CapturePhase::AwaitingKeyframe => is_keyframe(p),
            CapturePhase::Streaming => true,
            CapturePhase::Stopped => false,
        },
        None => false,
    }
}

/// The phase after a read (`None` when the read found the end of the stream or
/// failed): the first keyframe starts streaming; a read that gives nothing
/// ends the wait for a keyframe, and ends streaming.
pub open spec fn phase_after(phase: CapturePhase, read: Option<Packet>) -> CapturePhase {
    match phase {
        CapturePhase::AwaitingKeyframe => match read {
            Some(p) => if is_keyframe(p) {
                CapturePhase::Streaming
            } else {
                CapturePhase::AwaitingKeyframe
            },
            None => CapturePhase::Streaming,
        },
        CapturePhase::Streaming => match read {
            Some(_) => CapturePhase::Streaming,
            None => CapturePhase::Stopped,
        },
        CapturePhase::Stopped => CapturePhase::Stopped,
    }
}

/// The packets delivered over a run of reads that starts in `phase`.
pub open spec fn delivered_run(phase: CapturePhase, reads: Seq<Option<Packet>>) -> Seq<Packet>
    decreases reads.len(),
{
    if reads.len() == 0 {
        Seq::empty()
    } else {
        let rest = delivered_run(phase_after(phase, reads[0]), reads.drop_first());
        if delivers(phase, reads[0]) {
            seq![reads[0].unwrap()] + rest
        } else {
            rest
        }
    }
}

/// The decisions of the thread that reads packets from the source and hands
/// them on.
pub struct CaptureLoop {
    phase: CapturePhase,
}

impl CaptureLoop {
    pub closed spec fn spec_phase(&self) -> CapturePhase {
        self.phase
    }

    /// A loop that has read nothing yet and waits for a keyframe.
    pub fn new() -> (l: CaptureLoop)
        ensures
            l.spec_phase() == CapturePhase::AwaitingKeyframe,
    {
        CaptureLoop { phase: CapturePhase::AwaitingKeyframe }
    }

    pub fn phase(&self) -> (p: CapturePhase)
        ensures
            p == self.spec_phase(),
    {
        self.phase
    }

    /// What to do next, given whether the capture has been closed.
    pub fn next_step(&self, closed: bool) -> (s: CaptureStep)
        ensures
            s == step_for(self.spec_phase(), closed),
            self.spec_phase() == CapturePhase::AwaitingKeyframe ==> s == CaptureStep::Read,
            self.spec_phase() != CapturePhase::Stopped && !closed ==> s == CaptureStep::Read,
            self.spec_phase() == CapturePhase::Stopped ==> s == CaptureStep::Stop,
            self.spec_phase() == CapturePhase::Streaming && closed ==> s == CaptureStep::Stop,
    {
        match self.phase {
            CapturePhase::AwaitingKeyframe => CaptureStep::Read,
            CapturePhase::Streaming => if closed {
                CaptureStep::Stop
            } else {
                CaptureStep::Read
            },
            CapturePhase::Stopped => CaptureStep::Stop,
        }
    }

    /// Takes what a read gave (`None` for the end of the stream or a read
    /// error) and tells whether to deliver the packet.
    pub fn on_read(&mut self, read: &Option<Packet>) -> (deliver: bool)
        ensures
            deliver == delivers(old(self).spec_phase(), *read),
            final(self).spec_phase() == phase_after(old(self).spec_phase(), *read),
            old(self).spec_phase() == CapturePhase::Streaming && read is Some ==> deliver
                && final(self).spec_phase() == CapturePhase::Streaming,
            old(self).spec_phase() == CapturePhase::AwaitingKeyframe && read is Some ==> (deliver
                == (read->0.flags == 1)),
            deliver ==> read is Some,
            read is None ==> !deliver,
    {
        match read {
            Some(p) => match self.phase {
                CapturePhase::AwaitingKeyframe => {
                    if p.is_keyframe() {
                        self.phase = CapturePhase::Streaming;
                        true
                    } else {
                        false
                    }
                },
                CapturePhase::Streaming => true,
                CapturePhase::Stopped => false,
            },
            None => {
                match self.phase {
                    CapturePhase::AwaitingKeyframe => {
                        self.phase = CapturePhase::Streaming;
                    },
                    CapturePhase::Streaming => {
                        self.phase = CapturePhase::Stopped;
                    },
                    CapturePhase::Stopped => {},
                }
                false
            },
        }
    }
}

/// A loop waiting for its first keyframe reads on whether or not the capture
/// was closed, and a loop that has not stopped reads while the capture is open.
pub proof fn lemma_reads_until_stopped(phase: CapturePhase, closed: bool)
    ensures
        step_for(CapturePhase::AwaitingKeyframe, closed) == CaptureStep::Read,
        phase != CapturePhase::Stopped && !closed ==> step_for(phase, closed) == CaptureStep::Read,
        step_for(phase, closed) == CaptureStep::Stop <==> (phase == CapturePhase::Stopped || (phase
            == CapturePhase::Streaming && closed)),
{
}

/// While streaming, every packet read is delivered, keyframes included, and
/// the loop goes on streaming; while waiting, exactly the packets flagged as
/// keyframes are delivered.
pub proof fn lemma_streaming_delivers_every_packet(p: Packet)
    ensures
        delivers(CapturePhase::Streaming, Some(p)),
        phase_after(CapturePhase::Streaming, Some(p)) == CapturePhase::Streaming,
        delivers(CapturePhase::AwaitingKeyframe, Some(p)) <==> p.flags == 1,
        p.flags == 1 ==> phase_after(CapturePhase::AwaitingKeyframe, Some(p)) == CapturePhase::Streaming,
        p.flags != 1 ==> phase_after(CapturePhase::AwaitingKeyframe, Some(p))
            == CapturePhase::AwaitingKeyframe,
{
}

/// A read that gives nothing (end of stream or error) is never delivered; it
/// ends the wait for a keyframe (the loop goes on reading while the capture is
/// open) and it ends streaming.
pub proof fn lemma_empty_read(phase: CapturePhase)
    ensures
        !delivers(phase, None),
        phase_after(CapturePhase::AwaitingKeyframe, None) == CapturePhase::Streaming,
        phase_after(CapturePhase::Streaming, None) == CapturePhase::Stopped,
{
}

/// A streaming loop delivers the packets it reads, all of them and in order,
/// up to the first read that gives nothing.
pub proof fn lemma_streaming_run_delivers_all(reads: Seq<Option<Packet>>)
    requires
        forall|i: int| 0 <= i < reads.len() ==> #[trigger] reads[i] is Some,
    ensures
        delivered_run(CapturePhase::Streaming, reads) == reads.map_values(|r: Option<Packet>| r->0),
    decreases reads.len(),
{
    if reads.len() > 0 {
        let rest = reads.drop_first();
        assert forall|i: int| 0 <= i < rest.len() implies #[trigger] rest[i] is Some by {
            assert(rest[i] == reads[i + 1]);
        }
        lemma_streaming_run_delivers_all(rest);
        assert(reads[0] is Some);
        assert(delivered_run(CapturePhase::Streaming, reads) =~= reads.map_values(
            |r: Option<Packet>| r->0,
        ));
    } else {
        assert(delivered_run(CapturePhase::Streaming, reads) =~= reads.map_values(
            |r: Option<Packet>| r->0,
        ));
    }
}

/// Once stopped, the loop reads nothing more, whatever happens; and a closed
/// capture stops a streaming loop.
pub proof fn lemma_stop_is_final(read: Option<Packet>, closed: bool)
    ensures
        step_for(CapturePhase::Stopped, closed) == CaptureStep::Stop,
        phase_after(CapturePhase::Stopped, read) == CapturePhase::Stopped,
        !delivers(CapturePhase::Stopped, read),
        step_for(CapturePhase::Streaming, true) == CaptureStep::Stop,
{
}

/// When every read gives a packet, the first packet the loop delivers is a
/// keyframe: nothing before the first keyframe reaches the buffer or the file.
pub proof fn lemma_first_delivered_is_keyframe(reads: Seq<Option<Packet>>)
    requires
        forall|i: int| 0 <= i < reads.len() ==> #[trigger] reads[i] is Some,
    ensures
        delivered_run(CapturePhase::AwaitingKeyframe, reads).len() > 0 ==> is_keyframe(
            delivered_run(CapturePhase::AwaitingKeyframe, reads)[0],
        ),
    decreases reads.len(),
{
    if reads.len() > 0 {
        let rest = reads.drop_first();
        assert(reads[0] is Some);
        if !is_keyframe(reads[0].unwrap()) {
            assert forall|i: int| 0 <= i < rest.len() implies #[trigger] rest[i] is Some by {
                assert(rest[i] == reads[i + 1]);
            }
            lemma_first_delivered_is_keyframe(rest);
        }
    }
}

/// Filled from empty with packets of which the first is a keyframe, the
/// buffer starts with a keyframe.
pub proof fn lemma_buffer_starts_with_keyframe(ps: Seq<Packet>)
    requires
        ps.len() > 0,
        is_keyframe(ps[0]),
    ensures
        after_pushes(Seq::empty(), ps).len() > 0,
        is_keyframe(after_pushes(Seq::empty(), ps)[0]),
    decreases ps.len(),
{
    if ps.len() > 1 {
        let init = ps.drop_last();
        assert(init[0] == ps[0]);
        lemma_buffer_starts_with_keyframe(init);
        let prev = after_pushes(Seq::empty(), init);
        if !is_keyframe(ps.last()) {
            assert(prev.push(ps.last())[0] == prev[0]);
        }
    } else {
        assert(ps.drop_last() =~= Seq::<Packet>::empty());
        assert(ps.last() == ps[0]);
    }
}

/// The first step of a grab: a closed capture is refused and its buffer left
/// alone; otherwise every buffered packet is taken, oldest first.
pub fn take_packets(closed: bool, buffer: &mut PacketBuffer) -> (r: Result<Vec<Packet>, Error>)
    ensures
        closed ==> r == Err::<Vec<Packet>, Error>(Error::ConnectionClosed) && final(buffer)@ == old(buffer)@,
        !closed ==> (r matches Ok(v) && v@ == old(buffer)@ && final(buffer)@ == Seq::<Packet>::empty()),
{
    if closed {
        return Err(Error::ConnectionClosed);
    }
    Ok(buffer.drain())
}

/// The last frame of a run of packets' frames (one group of frames per packet,
/// in order); `None` when no packet gave a frame.
pub open spec fn last_frame_of(groups: Seq<Vec<Vec<u8>>>) -> Option<Vec<u8>>
    decreases groups.len(),
{
    if groups.len() == 0 {
        None
    } else if groups.last()@.len() > 0 {
        Some(groups.last()@.last())
    } else {
        last_frame_of(groups.drop_last())
    }
}

/// The frames of a run of packets' frame groups, all in one sequence.
pub open spec fn all_frames(groups: Seq<Vec<Vec<u8>>>) -> Seq<Vec<u8>> {
    groups.map_values(|g: Vec<Vec<u8>>| g@).flatten()
}

/// The frame a grab returns is the last of all the frames decoded from the
/// taken packets, whichever packet gave it; there is none only when no packet
/// gave a frame.
pub proof fn lemma_last_frame_is_last_of_all(groups: Seq<Vec<Vec<u8>>>)
    ensures
        last_frame_of(groups) == if all_frames(groups).len() > 0 {
            Some(all_frames(groups).last())
        } else {
            None::<Vec<u8>>
        },
    decreases groups.len(),
{
    let vs = groups.map_values(|g: Vec<Vec<u8>>| g@);
    vs.lemma_flatten_and_flatten_alt_are_equivalent();
    if groups.len() > 0 {
        let init = groups.drop_last();
        lemma_last_frame_is_last_of_all(init);
        let vi = init.map_values(|g: Vec<Vec<u8>>| g@);
        vi.lemma_flatten_and_flatten_alt_are_equivalent();
        assert(vs.drop_last() =~= vi);
        assert(vs.last() == groups.last()@);
        assert(vs.flatten_alt() == vi.flatten_alt() + groups.last()@);
        let f = vs.flatten();
        if groups.last()@.len() > 0 {
            assert(f.last() == groups.last()@.last());
        } else {
            assert(f =~= vi.flatten());
        }
    } else {
        assert(vs.flatten() =~= Seq::<Vec<u8>>::empty());
    }
}

/// The second step of a grab: the most recent of the frames decoded from the
/// taken packets.
pub fn last_frame(decoded: Vec<Vec<Vec<u8>>>) -> (f: Option<Vec<u8>>)
    ensures
        f == last_frame_of(decoded@),
        f == if all_frames(decoded@).len() > 0 {
            Some(all_frames(decoded@).last())
        } else {
            None::<Vec<u8>>
        },
{
    proof {
        lemma_last_frame_is_last_of_all(decoded@);
    }
    let ghost orig = decoded@;
    let mut groups = decoded;
    loop
        invariant
            orig == decoded@,
            last_frame_of(groups@) == last_frame_of(orig),
            last_frame_of(orig) == if all_frames(orig).len() > 0 {
                Some(all_frames(orig).last())
            } else {
                None::<Vec<u8>>
            },
        decreases groups@.len(),
    {
        let ghost before = groups@;
        match groups.pop() {
            Some(mut group) => {
                assert(group == before.last());
                assert(groups@ =~= before.drop_last());
                match group.pop() {
                    Some(frame) => {
                        return Some(frame);
                    },
                    None => {},
                }
            },
            None => {
                return None;
            },
        }
    }
}

} // verus!
