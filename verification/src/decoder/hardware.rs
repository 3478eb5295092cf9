use vstd::prelude::*;
use crate::error::Error;
use crate::decoder::{copied_into, frame_views, overwrite_prefix, zero_buffer, zeros};

verus! {

/// A kind of decoding hardware (an FFmpeg hardware device type).
#[derive(Debug, Clone, Copy, PartialEq, Eq, Structural)]
pub enum HwDeviceType {
    VideoToolbox,
    Vaapi,
    D3d11va,
    D3d12va,
    Cuda,
    Vulkan,
    Other,
}

/// The configuration method that decodes through a hardware device context.
pub const HW_DEVICE_CTX_METHOD: u32 = 1;

/// One hardware configuration that a codec offers: the device it uses and
/// the set of setup methods it supports, as bits.
#[derive(Debug, Clone, Copy, PartialEq, Eq, Structural)]
pub struct HwConfig {
    pub device_type: HwDeviceType,
    pub methods: u32,
}

/// A configuration serves a device when it is for that device and can be set
/// up through a device context.
pub open spec fn serves_device(c: HwConfig, d: HwDeviceType) -> bool {
    c.device_type == d && (c.methods & HW_DEVICE_CTX_METHOD) != 0
}

/// A configuration serves its device exactly when its methods are odd (they
/// include the device-context method), whatever other method bits it carries:
/// adding method bits never stops a configuration from serving, and a
/// configuration never serves another device.
pub proof fn lemma_serves_device_by_methods(c: HwConfig, d: HwDeviceType, extra: u32)
    ensures
        serves_device(c, d) <==> (c.device_type == d && c.methods % 2 == 1),
        serves_device(c, d) ==> serves_device(HwConfig { device_type: d, methods: c.methods | extra }, d),
        c.device_type != d ==> !serves_device(c, d),
{
    let m = c.methods;
    assert(((m & 1u32) != 0) <==> (m % 2 == 1)) by (bit_vector);
    assert(((m & 1u32) != 0) ==> (((m | extra) & 1u32) != 0)) by (bit_vector);
}

/// The frames a hardware decoder hands out for one packet's frames: each frame
/// whose transfer to memory succeeded, copied into a fresh zeroed buffer of
/// `size` bytes; frames whose transfer failed are passed over.
pub open spec fn hw_output(frames: Seq<Option<Vec<u8>>>, size: nat) -> Seq<Seq<u8>>
    decreases frames.len(),
{
    if frames.len() == 0 {
        Seq::empty()
    } else {
        let prev = hw_output(frames.drop_last(), size);
        match frames.last() {
            Some(img) => prev.push(copied_into(img@, zeros(size))),
            None => prev,
        }
    }
}

/// Every frame handed out has exactly `size` bytes.
pub proof fn lemma_hw_output_sizes(frames: Seq<Option<Vec<u8>>>, size: nat)
    requires
        forall|i: int| 0 <= i < frames.len() ==> (#[trigger] frames[i] matches Some(img) ==> img@.len() <= size),
    ensures
        forall|k: int| 0 <= k < hw_output(frames, size).len() ==> #[trigger] hw_output(frames, size)[k].len() == size,
    decreases frames.len(),
{
    if frames.len() > 0 {
        let init = frames.drop_last();
        assert forall|i: int| 0 <= i < init.len() implies (#[trigger] init[i] matches Some(img) ==> img@.len() <= size) by {
            assert(init[i] == frames[i]);
        }
        lemma_hw_output_sizes(init, size);
        assert(frames.last() == frames[frames.len() - 1]);
        let prev = hw_output(init, size);
        match frames.last() {
            Some(img) => {
                let f = copied_into(img@, zeros(size));
                assert(f.len() == size);
                assert forall|k: int| 0 <= k < prev.push(f).len() implies #[trigger] prev.push(f)[k].len() == size by {
                    if k < prev.len() {
                        assert(prev.push(f)[k] == prev[k]);
                    }
                }
            },
            None => {},
        }
    }
}

/// A frame whose transfer failed adds nothing; a transferred image adds one
/// frame of exactly `size` bytes that starts with the image and is zero after it.
pub proof fn lemma_hw_output_step(frames: Seq<Option<Vec<u8>>>, img: Vec<u8>, size: nat)
    requires
        img@.len() <= size,
    ensures
        hw_output(frames.push(None), size) == hw_output(frames, size),
        hw_output(frames.push(Some(img)), size).len() == hw_output(frames, size).len() + 1,
        hw_output(frames.push(Some(img)), size).drop_last() == hw_output(frames, size),
        hw_output(frames.push(Some(img)), size).last().len() == size,
        hw_output(frames.push(Some(img)), size).last().take(img@.len() as int) == img@,
        forall|j: int| img@.len() <= j < size ==> #[trigger] hw_output(frames.push(Some(img)), size).last()[j] == 0,
{
    assert(frames.push(None).drop_last() =~= frames);
    assert(frames.push(Some(img)).drop_last() =~= frames);
    let out = hw_output(frames.push(Some(img)), size);
    let f = copied_into(img@, zeros(size));
    assert(out == hw_output(frames, size).push(f));
    assert(out.drop_last() =~= hw_output(frames, size));
    assert(f.take(img@.len() as int) =~= img@);
}

/// When every frame was transferred, each is handed out, in order, as its
/// image followed by zeros up to `size` bytes.
pub proof fn lemma_hw_output_all_transferred(frames: Seq<Option<Vec<u8>>>, size: nat)
    requires
        forall|i: int| 0 <= i < frames.len() ==> (#[trigger] frames[i] matches Some(img) && img@.len() <= size),
    ensures
        hw_output(frames, size).len() == frames.len(),
        forall|k: int| 0 <= k < frames.len() ==> #[trigger] hw_output(frames, size)[k] == copied_into(
            frames[k]->0@,
            zeros(size),
        ),
        forall|k: int| 0 <= k < frames.len() ==> #[trigger] hw_output(frames, size)[k].take(frames[k]->0@.len() as int)
            == frames[k]->0@,
    decreases frames.len(),
{
    if frames.len() > 0 {
        let init = frames.drop_last();
        assert forall|i: int| 0 <= i < init.len() implies (#[trigger] init[i] matches Some(img) && img@.len() <= size) by {
            assert(init[i] == frames[i]);
        }
        lemma_hw_output_all_transferred(init, size);
        assert(frames[frames.len() - 1] is Some);
        assert(frames.last() == frames[frames.len() - 1]);
        let out = hw_output(frames, size);
        assert forall|k: int| 0 <= k < frames.len() implies #[trigger] out[k] == copied_into(frames[k]->0@, zeros(size)) by {
            if k < init.len() {
                assert(init[k] == frames[k]);
            }
        }
        assert forall|k: int| 0 <= k < frames.len() implies #[trigger] out[k].take(frames[k]->0@.len() as int)
            == frames[k]->0@ by {
            assert(out[k] == copied_into(frames[k]->0@, zeros(size)));
            assert(copied_into(frames[k]->0@, zeros(size)).take(frames[k]->0@.len() as int) =~= frames[k]->0@);
        }
    }
}

/// A decoder that runs on decoding hardware and hands out RGB frames.
pub struct HardwareDecoder {
    width: i32,
    height: i32,
    buffer_size: usize,
}

impl HardwareDecoder {
    pub closed spec fn spec_width(&self) -> i32 {
        self.width
    }

    pub closed spec fn spec_height(&self) -> i32 {
        self.height
    }

    /// The number of bytes of each frame handed out.
    pub closed spec fn spec_buffer_size(&self) -> usize {
        self.buffer_size
    }

    /// Checks that one of a codec's hardware configurations serves the device.
    pub fn find_hw_config(configs: &Vec<HwConfig>, device_type: HwDeviceType) -> (r: Result<(), Error>)
        ensures
            r is Ok <==> exists|i: int| 0 <= i < configs@.len() && #[trigger] serves_device(configs@[i], device_type),
            r is Err ==> r == Err::<(), Error>(Error::NoHwConfig),
            (exists|i: int| 0 <= i < configs@.len() && #[trigger] configs@[i].device_type == device_type
                && configs@[i].methods % 2 == 1) ==> r is Ok,
    {
        proof {
            assert forall|i: int| 0 <= i < configs@.len() && #[trigger] configs@[i].device_type == device_type
                && configs@[i].methods % 2 == 1 implies serves_device(configs@[i], device_type) by {
                lemma_serves_device_by_methods(configs@[i], device_type, 0);
            }
        }
        let n = configs.len();
        for i in 0..n
            invariant
                n == configs@.len(),
                forall|j: int| 0 <= j < i ==> !#[trigger] serves_device(configs@[j], device_type),
        {
            let c = configs[i];
            if c.device_type == device_type && (c.methods & HW_DEVICE_CTX_METHOD) != 0 {
                assert(serves_device(configs@[i as int], device_type));
                return Ok(());
            }
        }
        Err(Error::NoHwConfig)
    }

    /// A hardware decoder for frames of `width` by `height` pixels, which hands
    /// out frames of three bytes a pixel.
    pub fn new(width: i32, height: i32) -> (d: HardwareDecoder)
        requires
            i32::MIN <= 3 * width <= i32::MAX,
            0 <= 3 * width * height <= i32::MAX,
        ensures
            d.spec_width() == width,
            d.spec_height() == height,
            d.spec_buffer_size() == 3 * width * height,
    {
        let size: i32 = 3 * width * height;
        HardwareDecoder { width, height, buffer_size: size as usize }
    }

    /// The number of bytes of each frame handed out.
    pub fn buffer_size(&self) -> (n: usize)
        ensures
            n == self.spec_buffer_size(),
    {
        self.buffer_size
    }

    pub fn width(&self) -> (w: usize)
        ensures
            w == self.spec_width() as usize,
    {
        self.width as usize
    }

    pub fn height(&self) -> (h: usize)
        ensures
            h == self.spec_height() as usize,
    {
        self.height as usize
    }

    /// The frames decoded from one packet. `sent` tells whether the packet was
    /// accepted by the hardware; `frames` holds, for each frame it produced,
    /// the frame's RGB image once transferred to memory, or `None` where the
    /// transfer failed. A refused packet gives no frames.
    pub fn decode(&mut self, sent: bool, frames: Vec<Option<Vec<u8>>>) -> (out: Vec<Vec<u8>>)
        requires
            forall|i: int| 0 <= i < frames@.len() ==> (#[trigger] frames@[i] matches Some(img) ==> img@.len() <= old(self).spec_buffer_size()),
        ensures
            *final(self) == *old(self),
            frame_views(out@) == if sent {
                hw_output(frames@, old(self).spec_buffer_size() as nat)
            } else {
                Seq::<Seq<u8>>::empty()
            },
    {
        let mut out: Vec<Vec<u8>> = Vec::new();
        if !sent {
            assert(frame_views(out@) =~= Seq::<Seq<u8>>::empty());
            return out;
        }
        let size = self.buffer_size;
        let n = frames.len();
        for i in 0..n
            invariant
                n == frames@.len(),
                size == self.spec_buffer_size(),
                forall|j: int| 0 <= j < frames@.len() ==> (#[trigger] frames@[j] matches Some(img) ==> img@.len() <= size),
                frame_views(out@) == hw_output(frames@.take(i as int), size as nat),
        {
            let ghost prefix = frames@.take(i as int);
            assert(frames@.take(i + 1).drop_last() =~= prefix);
            assert(frames@.take(i + 1).last() == frames@[i as int]);
            match &frames[i] {
                Some(img) => {
                    let mut buffer = zero_buffer(size);
                    overwrite_prefix(&mut buffer, img);
                    out.push(buffer);
                    assert(frame_views(out@) =~= hw_output(prefix, size as nat).push(
                        copied_into(img@, zeros(size as nat)),
                    ));
                },
                None => {},
            }
        }
        assert(frames@.take(n as int) =~= frames@);
        out
    }
}

} // verus!
