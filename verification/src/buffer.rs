use vstd::prelude::*;
use std::collections::VecDeque;
use crate::packet::{is_keyframe, Packet};

verus! {

/// No packet but the first of `s` starts a keyframe.
pub open spec fn keyframes_only_at_front(s: Seq<Packet>) -> bool {
    forall|i: int| 1 <= i < s.len() ==> !is_keyframe(#[trigger] s[i])
}

/// The buffer's contents after one packet arrives: a keyframe replaces
/// everything, any other packet is appended.
pub open spec fn after_push(s: Seq<Packet>, p: Packet) -> Seq<Packet> {
    if is_keyframe(p) {
        seq![p]
    } else {
        s.push(p)
    }
}

/// The buffer's contents after the packets of `ps` arrive in order.
pub open spec fn after_pushes(s: Seq<Packet>, ps: Seq<Packet>) -> Seq<Packet>
    decreases ps.len(),
{
    if ps.len() == 0 {
        s
    } else {
        after_push(after_pushes(s, ps.drop_last()), ps.last())
    }
}

/// The packets received since the last keyframe, oldest first, waiting to
/// be decoded by the next grab.
pub struct PacketBuffer {
    packets: VecDeque<Packet>,
}

impl View for PacketBuffer {
    type V = Seq<Packet>;

    closed spec fn view(&self) -> Seq<Packet> {
        self.packets@
    }
}

impl PacketBuffer {
    /// An empty buffer.
    pub fn new() -> (b: PacketBuffer)
        ensures
            b@ == Seq::<Packet>::empty(),
    {
        PacketBuffer { packets: VecDeque::new() }
    }

    /// The number of packets waiting.
    pub fn len(&self) -> (n: usize)
        ensures
            n == self@.len(),
    {
        self.packets.len()
    }

    /// Takes in a received packet: a keyframe first drops everything
    /// buffered, then the packet is appended.
    pub fn push(&mut self, packet: Packet)
        ensures
            final(self)@ == after_push(old(self)@, packet),
    {
        if packet.is_keyframe() {
            self.packets.clear();
        }
        self.packets.push_back(packet);
        proof {
            if is_keyframe(packet) {
                assert(self.packets@ =~= seq![packet]);
            }
        }
    }

    /// Hands out every buffered packet, oldest first, and leaves the buffer empty.
    pub fn drain(&mut self) -> (v: Vec<Packet>)
        ensures
            v@ == old(self)@,
            final(self)@ == Seq::<Packet>::empty(),
    {
        let ghost orig = self.packets@;
        let mut out: Vec<Packet> = Vec::new();
        loop
            invariant
                out@ + self.packets@ == orig,
            ensures
                out@ == orig,
                self.packets@.len() == 0,
            decreases self.packets@.len(),
        {
            match self.packets.pop_front() {
                Some(p) => {
                    out.push(p);
                    assert(out@ + self.packets@ =~= orig);
                },
                None => {
                    assert(out@ =~= orig);
                    break ;
                },
            }
        }
        assert(self.packets@ =~= Seq::<Packet>::empty());
        out
    }
}

/// Whatever was buffered, a packet that arrives leaves no keyframe behind the
/// buffer's first packet, provided there was none before.
pub proof fn lemma_push_keeps_keyframes_at_front(s: Seq<Packet>, p: Packet)
    requires
        keyframes_only_at_front(s),
    ensures
        keyframes_only_at_front(after_push(s, p)),
{
    if !is_keyframe(p) {
        assert forall|i: int| 1 <= i < s.push(p).len() implies !is_keyframe(
            #[trigger] s.push(p)[i],
        ) by {
            if i < s.len() {
                assert(s.push(p)[i] == s[i]);
            }
        }
    }
}

/// Starting from a buffer with keyframes only at its front, any run of arriving
/// packets keeps it so.
pub proof fn lemma_pushes_keep_keyframes_at_front(s: Seq<Packet>, ps: Seq<Packet>)
    requires
        keyframes_only_at_front(s),
    ensures
        keyframes_only_at_front(after_pushes(s, ps)),
    decreases ps.len(),
{
    if ps.len() > 0 {
        lemma_pushes_keep_keyframes_at_front(s, ps.drop_last());
        lemma_push_keeps_keyframes_at_front(after_pushes(s, ps.drop_last()), ps.last());
    }
}

/// Packets that start no keyframe are simply appended, in order.
pub proof fn lemma_pushes_without_keyframe_append(s: Seq<Packet>, ps: Seq<Packet>)
    requires
        forall|j: int| 0 <= j < ps.len() ==> !is_keyframe(#[trigger] ps[j]),
    ensures
        after_pushes(s, ps) == s + ps,
    decreases ps.len(),
{
    if ps.len() > 0 {
        let init = ps.drop_last();
        assert forall|j: int| 0 <= j < init.len() implies !is_keyframe(#[trigger] init[j]) by {
            assert(init[j] == ps[j]);
        }
        lemma_pushes_without_keyframe_append(s, init);
        assert(!is_keyframe(ps[ps.len() - 1]));
        assert((s + init).push(ps.last()) =~= s + ps);
    }
}

/// After a run of arriving packets whose last keyframe is at index `k`, the
/// buffer holds exactly that keyframe and the packets after it, whatever it
/// held before.
pub proof fn lemma_buffer_starts_at_last_keyframe(s: Seq<Packet>, ps: Seq<Packet>, k: int)
    requires
        0 <= k < ps.len(),
        is_keyframe(ps[k]),
        forall|j: int| k < j < ps.len() ==> !is_keyframe(#[trigger] ps[j]),
    ensures
        after_pushes(s, ps) == ps.subrange(k, ps.len() as int),
    decreases ps.len(),
{
    if k == ps.len() - 1 {
        assert(ps.last() == ps[k]);
        assert(ps.subrange(k, ps.len() as int) =~= seq![ps[k]]);
    } else {
        let init = ps.drop_last();
        assert forall|j: int| k < j < init.len() implies !is_keyframe(#[trigger] init[j]) by {
            assert(init[j] == ps[j]);
        }
        assert(init[k] == ps[k]);
        lemma_buffer_starts_at_last_keyframe(s, init, k);
        assert(!is_keyframe(ps[ps.len() - 1]));
        assert(init.subrange(k, init.len() as int).push(ps.last()) =~= ps.subrange(
            k,
            ps.len() as int,
        ));
    }
}

} // verus!
