use vstd::prelude::*;
use crate::decoder::{copied_into, frame_views, overwrite_prefix, zero_buffer, zeros};

verus! {

/// The output buffer after the images `imgs` were copied into it in turn.
pub open spec fn sw_buffer_after(buf: Seq<u8>, imgs: Seq<Seq<u8>>) -> Seq<u8>
    decreases imgs.len(),
{
    if imgs.len() == 0 {
        buf
    } else {
        copied_into(imgs.last(), sw_buffer_after(buf, imgs.drop_last()))
    }
}

/// The frames a software decoder hands out for the images `imgs`: after each
/// image is copied into the output buffer, the whole buffer.
pub open spec fn sw_output(buf: Seq<u8>, imgs: Seq<Seq<u8>>) -> Seq<Seq<u8>>
    decreases imgs.len(),
{
    if imgs.len() == 0 {
        Seq::empty()
    } else {
        sw_output(buf, imgs.drop_last()).push(sw_buffer_after(buf, imgs))
    }
}

/// Copying images no longer than the buffer keeps the buffer's length, so
/// every frame handed out has the buffer's length.
pub proof fn lemma_sw_sizes(buf: Seq<u8>, imgs: Seq<Seq<u8>>)
    requires
        forall|i: int| 0 <= i < imgs.len() ==> #[trigger] imgs[i].len() <= buf.len(),
    ensures
        sw_buffer_after(buf, imgs).len() == buf.len(),
        sw_output(buf, imgs).len() == imgs.len(),
        forall|k: int| 0 <= k < imgs.len() ==> #[trigger] sw_output(buf, imgs)[k].len() == buf.len(),
    decreases imgs.len(),
{
    if imgs.len() > 0 {
        let init = imgs.drop_last();
        assert forall|i: int| 0 <= i < init.len() implies #[trigger] init[i].len() <= buf.len() by {
            assert(init[i] == imgs[i]);
        }
        lemma_sw_sizes(buf, init);
        assert(imgs.last() == imgs[imgs.len() - 1]);
    }
}

/// Each image gives one frame, in order: the frame starts with the image, and
/// past the image it keeps what the previous frame (the initial buffer, for
/// the first) held there.
pub proof fn lemma_sw_output_reuses_buffer(buf: Seq<u8>, imgs: Seq<Seq<u8>>)
    requires
        forall|i: int| 0 <= i < imgs.len() ==> #[trigger] imgs[i].len() <= buf.len(),
    ensures
        sw_output(buf, imgs).len() == imgs.len(),
        forall|k: int| 0 <= k < imgs.len() ==> #[trigger] sw_output(buf, imgs)[k].len() == buf.len(),
        forall|k: int| 0 <= k < imgs.len() ==> #[trigger] sw_output(buf, imgs)[k].take(imgs[k].len() as int) == imgs[k],
        imgs.len() > 0 ==> sw_output(buf, imgs)[0].skip(imgs[0].len() as int) == buf.skip(imgs[0].len() as int),
        forall|k: int| 1 <= k < imgs.len() ==> #[trigger] sw_output(buf, imgs)[k].skip(imgs[k].len() as int)
            == sw_output(buf, imgs)[k - 1].skip(imgs[k].len() as int),
        imgs.len() > 0 ==> sw_output(buf, imgs)[imgs.len() - 1] == sw_buffer_after(buf, imgs),
    decreases imgs.len(),
{
    lemma_sw_sizes(buf, imgs);
    if imgs.len() > 0 {
        let init = imgs.drop_last();
        assert forall|i: int| 0 <= i < init.len() implies #[trigger] init[i].len() <= buf.len() by {
            assert(init[i] == imgs[i]);
        }
        lemma_sw_output_reuses_buffer(buf, init);
        lemma_sw_sizes(buf, init);
        let out = sw_output(buf, imgs);
        let n = imgs.len() - 1;
        let prev = sw_buffer_after(buf, init);
        let last = copied_into(imgs.last(), prev);
        assert(imgs.last() == imgs[n]);
        assert(out == sw_output(buf, init).push(last));
        assert(out[n] == last);
        assert(last.take(imgs[n].len() as int) =~= imgs[n]);
        assert(last.skip(imgs[n].len() as int) =~= prev.skip(imgs[n].len() as int));
        assert forall|k: int| 0 <= k < imgs.len() implies #[trigger] out[k].take(imgs[k].len() as int) == imgs[k] by {
            if k < n {
                assert(init[k] == imgs[k]);
                assert(out[k] == sw_output(buf, init)[k]);
            }
        }
        assert forall|k: int| 1 <= k < imgs.len() implies #[trigger] out[k].skip(imgs[k].len() as int)
            == out[k - 1].skip(imgs[k].len() as int) by {
            if k < n {
                assert(init[k] == imgs[k]);
                assert(out[k] == sw_output(buf, init)[k]);
                assert(out[k - 1] == sw_output(buf, init)[k - 1]);
            } else {
                assert(out[k - 1] == sw_output(buf, init)[n - 1]);
            }
        }
        if n == 0 {
            assert(init =~= Seq::<Seq<u8>>::empty());
            assert(prev == buf);
        } else {
            assert(out[0] == sw_output(buf, init)[0]);
            assert(init[0] == imgs[0]);
        }
    }
}

/// A decoder that runs on the processor and hands out RGB frames through one
/// reused output buffer.
pub struct SoftwareDecoder {
    width: i32,
    height: i32,
    output_buffer: Vec<u8>,
}

impl SoftwareDecoder {
    pub closed spec fn spec_width(&self) -> i32 {
        self.width
    }

    pub closed spec fn spec_height(&self) -> i32 {
        self.height
    }

    /// The bytes the output buffer holds now.
    pub closed spec fn spec_output_buffer(&self) -> Seq<u8> {
        self.output_buffer@
    }

    /// A software decoder for frames of `width` by `height` pixels, whose
    /// output buffer holds three zeroed bytes a pixel.
    pub fn new(width: i32, height: i32) -> (d: SoftwareDecoder)
        requires
            i32::MIN <= 3 * width <= i32::MAX,
            0 <= 3 * width * height <= i32::MAX,
        ensures
            d.spec_width() == width,
            d.spec_height() == height,
            d.spec_output_buffer() == zeros((3 * width * height) as nat),
    {
        let size: i32 = 3 * width * height;
        let output_buffer = zero_buffer(size as usize);
        SoftwareDecoder { width, height, output_buffer }
    }

    /// The size of the output buffer.
    pub fn output_size(&self) -> (n: usize)
        ensures
            n == self.spec_output_buffer().len(),
    {
        self.output_buffer.len()
    }

    pub fn width(&self) -> (w: usize)
        ensures
            w == self.spec_width() as usize,
    {
        self.width as usize
    }

    pub fn height(&self) -> (h: usize)
        ensures
            h == self.spec_height() as usize,
    {
        self.height as usize
    }

    /// The frames decoded from one packet. `sent` tells whether the packet was
    /// accepted; `frames` holds the RGB image of each frame it produced. Each
    /// image is copied into the output buffer, and the buffer handed out. A
    /// refused packet gives no frames.
    pub fn decode(&mut self, sent: bool, frames: Vec<Vec<u8>>) -> (out: Vec<Vec<u8>>)
        requires
            forall|i: int| 0 <= i < frames@.len() ==> #[trigger] frames@[i]@.len() <= old(self).spec_output_buffer().len(),
        ensures
            final(self).spec_width() == old(self).spec_width(),
            final(self).spec_height() == old(self).spec_height(),
            frame_views(out@) == if sent {
                sw_output(old(self).spec_output_buffer(), frame_views(frames@))
            } else {
                Seq::<Seq<u8>>::empty()
            },
            final(self).spec_output_buffer() == if sent {
                sw_buffer_after(old(self).spec_output_buffer(), frame_views(frames@))
            } else {
                old(self).spec_output_buffer()
            },
    {
        let mut out: Vec<Vec<u8>> = Vec::new();
        if !sent {
            assert(frame_views(out@) =~= Seq::<Seq<u8>>::empty());
            return out;
        }
        let ghost base = self.output_buffer@;
        let ghost imgs = frame_views(frames@);
        let n = frames.len();
        for i in 0..n
            invariant
                n == frames@.len(),
                imgs == frame_views(frames@),
                forall|j: int| 0 <= j < frames@.len() ==> #[trigger] frames@[j]@.len() <= base.len(),
                self.output_buffer@ == sw_buffer_after(base, imgs.take(i as int)),
                self.output_buffer@.len() == base.len(),
                frame_views(out@) == sw_output(base, imgs.take(i as int)),
                self.width == old(self).width,
                self.height == old(self).height,
        {
            let ghost prefix = imgs.take(i as int);
            assert(imgs.take(i + 1).drop_last() =~= prefix);
            assert(imgs.take(i + 1).last() == frames@[i as int]@);
            overwrite_prefix(&mut self.output_buffer, &frames[i]);
            let copy = self.output_buffer.clone();
            assert(copy@ =~= self.output_buffer@);
            out.push(copy);
            assert(frame_views(out@) =~= sw_output(base, prefix).push(self.output_buffer@));
        }
        assert(imgs.take(n as int) =~= imgs);
        out
    }
}

} // verus!
