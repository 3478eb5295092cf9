use vstd::prelude::*;
use crate::error::Error;

pub mod hardware;
pub mod software;

pub use hardware::{HardwareDecoder, HwConfig, HwDeviceType};
pub use software::SoftwareDecoder;

verus! {

/// Which hardware, if any, decodes the video.
#[derive(Debug, Clone, Copy, PartialEq, Eq, Structural)]
pub enum HardwareAcceleration {
    Disabled,
    VAAPI,
    VideoToolbox,
    D3D11VA,
    D3D12VA,
    CUDA,
    Vulkan,
}

/// A hardware acceleration that can be asked for from Python.
#[derive(Debug, Clone, Copy, PartialEq, Eq, Structural)]
pub enum HardwareType {
    VAAPI,
    VideoToolbox,
    D3D11VA,
    D3D12VA,
    CUDA,
    Vulkan,
}

/// The acceleration a Python choice stands for.
pub open spec fn acceleration_of(value: HardwareType) -> HardwareAcceleration {
    match value {
        HardwareType::VAAPI => HardwareAcceleration::VAAPI,
        HardwareType::VideoToolbox => HardwareAcceleration::VideoToolbox,
        HardwareType::D3D11VA => HardwareAcceleration::D3D11VA,
        HardwareType::D3D12VA => HardwareAcceleration::D3D12VA,
        HardwareType::CUDA => HardwareAcceleration::CUDA,
        HardwareType::Vulkan => HardwareAcceleration::Vulkan,
    }
}

impl From<HardwareType> for HardwareAcceleration {
    fn from(value: HardwareType) -> (r: HardwareAcceleration) {
        match value {
            HardwareType::VAAPI => HardwareAcceleration::VAAPI,
            HardwareType::VideoToolbox => HardwareAcceleration::VideoToolbox,
            HardwareType::D3D11VA => HardwareAcceleration::D3D11VA,
            HardwareType::D3D12VA => HardwareAcceleration::D3D12VA,
            HardwareType::CUDA => HardwareAcceleration::CUDA,
            HardwareType::Vulkan => HardwareAcceleration::Vulkan,
        }
    }
}

impl vstd::std_specs::convert::FromSpecImpl<HardwareType> for HardwareAcceleration {
    open spec fn obeys_from_spec() -> bool {
        true
    }

    open spec fn from_spec(value: HardwareType) -> HardwareAcceleration {
        acceleration_of(value)
    }
}

/// Every Python choice asks for some hardware, and different choices for
/// different hardware.
pub proof fn lemma_python_choice_is_hardware(a: HardwareType, b: HardwareType)
    ensures
        acceleration_of(a) != HardwareAcceleration::Disabled,
        a != b ==> acceleration_of(a) != acceleration_of(b),
{
}

/// The operating system the library runs on, as far as decoder support goes.
#[derive(Debug, Clone, Copy, PartialEq, Eq, Structural)]
pub enum Platform {
    MacOs,
    Linux,
    Windows,
    Other,
}

/// The decoder that serves a choice of hardware acceleration.
#[derive(Debug, Clone, Copy, PartialEq, Eq, Structural)]
pub enum DecoderBackend {
    Software,
    Hardware(HwDeviceType),
}

/// The decoder a platform offers for a choice of acceleration; `None` where
/// the platform has no such hardware decoding.
pub open spec fn backend_for(accel: HardwareAcceleration, platform: Platform) -> Option<DecoderBackend> {
    match accel {
        HardwareAcceleration::Disabled => Some(DecoderBackend::Software),
        HardwareAcceleration::VideoToolbox => if platform == Platform::MacOs {
            Some(DecoderBackend::Hardware(HwDeviceType::VideoToolbox))
        } else {
            None
        },
        HardwareAcceleration::VAAPI => if platform == Platform::Linux {
            Some(DecoderBackend::Hardware(HwDeviceType::Vaapi))
        } else {
            None
        },
        HardwareAcceleration::D3D11VA => if platform == Platform::Windows {
            Some(DecoderBackend::Hardware(HwDeviceType::D3d11va))
        } else {
            None
        },
        HardwareAcceleration::D3D12VA => if platform == Platform::Windows {
            Some(DecoderBackend::Hardware(HwDeviceType::D3d12va))
        } else {
            None
        },
        HardwareAcceleration::CUDA => if platform == Platform::Linux || platform == Platform::Windows {
            Some(DecoderBackend::Hardware(HwDeviceType::Cuda))
        } else {
            None
        },
        HardwareAcceleration::Vulkan => if platform == Platform::Linux || platform == Platform::Windows {
            Some(DecoderBackend::Hardware(HwDeviceType::Vulkan))
        } else {
            None
        },
    }
}

/// Chooses the decoder for a choice of acceleration on a platform; a choice
/// the platform cannot serve is refused as unsupported.
pub fn select_backend(accel: HardwareAcceleration, platform: Platform) -> (r: Result<DecoderBackend, Error>)
    ensures
        match backend_for(accel, platform) {
            Some(b) => r == Ok::<DecoderBackend, Error>(b),
            None => r == Err::<DecoderBackend, Error>(Error::UnsupportedPlatform),
        },
        (accel == HardwareAcceleration::CUDA || accel == HardwareAcceleration::Vulkan) ==> (r is Ok
            <==> (platform == Platform::Linux || platform == Platform::Windows)),
        accel == HardwareAcceleration::Disabled ==> r == Ok::<DecoderBackend, Error>(DecoderBackend::Software),
        r is Err ==> r == Err::<DecoderBackend, Error>(Error::UnsupportedPlatform),
{
    let windows = match platform {
        Platform::Windows => true,
        _ => false,
    };
    let linux = match platform {
        Platform::Linux => true,
        _ => false,
    };
    let mac = match platform {
        Platform::MacOs => true,
        _ => false,
    };
    match accel {
        HardwareAcceleration::Disabled => Ok(DecoderBackend::Software),
        HardwareAcceleration::VideoToolbox if mac => Ok(
            DecoderBackend::Hardware(HwDeviceType::VideoToolbox),
        ),
        HardwareAcceleration::VAAPI if linux => Ok(DecoderBackend::Hardware(HwDeviceType::Vaapi)),
        HardwareAcceleration::D3D11VA if windows => Ok(
            DecoderBackend::Hardware(HwDeviceType::D3d11va),
        ),
        HardwareAcceleration::D3D12VA if windows => Ok(
            DecoderBackend::Hardware(HwDeviceType::D3d12va),
        ),
        HardwareAcceleration::CUDA if linux || windows => Ok(
            DecoderBackend::Hardware(HwDeviceType::Cuda),
        ),
        HardwareAcceleration::Vulkan if linux || windows => Ok(
            DecoderBackend::Hardware(HwDeviceType::Vulkan),
        ),
        _ => Err(Error::UnsupportedPlatform),
    }
}

/// Which platforms serve each acceleration, and with which device: VideoToolbox
/// on macOS only, VAAPI on Linux only, D3D11VA and D3D12VA on Windows only,
/// CUDA and Vulkan on Linux and Windows, and software decoding everywhere.
pub proof fn lemma_platform_table(platform: Platform)
    ensures
        backend_for(HardwareAcceleration::Disabled, platform) == Some(DecoderBackend::Software),
        backend_for(HardwareAcceleration::VideoToolbox, platform) is Some <==> platform == Platform::MacOs,
        backend_for(HardwareAcceleration::VAAPI, platform) is Some <==> platform == Platform::Linux,
        backend_for(HardwareAcceleration::D3D11VA, platform) is Some <==> platform == Platform::Windows,
        backend_for(HardwareAcceleration::D3D12VA, platform) is Some <==> platform == Platform::Windows,
        backend_for(HardwareAcceleration::CUDA, platform) is Some <==> (platform == Platform::Linux
            || platform == Platform::Windows),
        backend_for(HardwareAcceleration::Vulkan, platform) is Some <==> (platform == Platform::Linux
            || platform == Platform::Windows),
        backend_for(HardwareAcceleration::VideoToolbox, platform) is Some ==> backend_for(
            HardwareAcceleration::VideoToolbox,
            platform,
        ) == Some(DecoderBackend::Hardware(HwDeviceType::VideoToolbox)),
        backend_for(HardwareAcceleration::VAAPI, platform) is Some ==> backend_for(
            HardwareAcceleration::VAAPI,
            platform,
        ) == Some(DecoderBackend::Hardware(HwDeviceType::Vaapi)),
        backend_for(HardwareAcceleration::D3D11VA, platform) is Some ==> backend_for(
            HardwareAcceleration::D3D11VA,
            platform,
        ) == Some(DecoderBackend::Hardware(HwDeviceType::D3d11va)),
        backend_for(HardwareAcceleration::D3D12VA, platform) is Some ==> backend_for(
            HardwareAcceleration::D3D12VA,
            platform,
        ) == Some(DecoderBackend::Hardware(HwDeviceType::D3d12va)),
        backend_for(HardwareAcceleration::CUDA, platform) is Some ==> backend_for(
            HardwareAcceleration::CUDA,
            platform,
        ) == Some(DecoderBackend::Hardware(HwDeviceType::Cuda)),
        backend_for(HardwareAcceleration::Vulkan, platform) is Some ==> backend_for(
            HardwareAcceleration::Vulkan,
            platform,
        ) == Some(DecoderBackend::Hardware(HwDeviceType::Vulkan)),
{
}

/// Software decoding is offered on every platform, and a platform the library
/// knows nothing of offers nothing else.
pub proof fn lemma_software_everywhere(accel: HardwareAcceleration, platform: Platform)
    ensures
        backend_for(HardwareAcceleration::Disabled, platform) == Some(DecoderBackend::Software),
        platform == Platform::Other ==> (backend_for(accel, platform) is Some <==> accel
            == HardwareAcceleration::Disabled),
        backend_for(accel, platform) == Some(DecoderBackend::Software) ==> accel
            == HardwareAcceleration::Disabled,
{
}

} // verus!

verus! {

/// The bytes of a buffer after an image is copied to its start: the image,
/// then whatever the buffer held beyond it.
pub open spec fn copied_into(image: Seq<u8>, base: Seq<u8>) -> Seq<u8> {
    image + base.subrange(image.len() as int, base.len() as int)
}

/// `n` zero bytes.
pub open spec fn zeros(n: nat) -> Seq<u8> {
    Seq::new(n, |i: int| 0u8)
}

/// The byte sequences of a run of frames.
pub open spec fn frame_views(frames: Seq<Vec<u8>>) -> Seq<Seq<u8>> {
    frames.map_values(|f: Vec<u8>| f@)
}

/// A buffer of `n` zero bytes.
pub fn zero_buffer(n: usize) -> (b: Vec<u8>)
    ensures
        b@ == zeros(n as nat),
{
    let mut b: Vec<u8> = Vec::new();
    for i in 0..n
        invariant
            b@ == zeros(i as nat),
    {
        b.push(0u8);
        assert(b@ =~= zeros((i + 1) as nat));
    }
    b
}

/// Copies an image to the start of a buffer at least as long as the image.
pub fn overwrite_prefix(buffer: &mut Vec<u8>, image: &Vec<u8>)
    requires
        image@.len() <= old(buffer)@.len(),
    ensures
        final(buffer)@ == copied_into(image@, old(buffer)@),
{
    let ghost base = buffer@;
    let n = image.len();
    for i in 0..n
        invariant
            n == image@.len(),
            n <= base.len(),
            buffer@.len() == base.len(),
            buffer@ =~= image@.take(i as int) + base.subrange(i as int, base.len() as int),
    {
        buffer.set(i, image[i]);
        assert(buffer@ =~= image@.take(i + 1) + base.subrange(i + 1, base.len() as int));
    }
    assert(image@.take(n as int) =~= image@);
}

} // verus!

verus! {

/// The images of a run of frames that were all transferred.
pub open spec fn images(frames: Seq<Option<Vec<u8>>>) -> Seq<Seq<u8>> {
    frames.map_values(|f: Option<Vec<u8>>| f.unwrap()@)
}

/// Every image of a run is present and no longer than `size` bytes.
pub open spec fn images_fit(frames: Seq<Option<Vec<u8>>>, size: nat) -> bool {
    forall|i: int| 0 <= i < frames.len() ==> (#[trigger] frames[i] matches Some(img) ==> img@.len() <= size)
}

/// A video decoder, in software or on decoding hardware, that turns packets
/// into RGB frames of three bytes a pixel.
pub enum VideoDecoder {
    Software(SoftwareDecoder),
    Hardware(HardwareDecoder),
}

impl VideoDecoder {
    /// The decoder model for a chosen back end and frames of `width` by
    /// `height` pixels, once FFmpeg has opened the codec.
    pub fn new(backend: DecoderBackend, width: i32, height: i32) -> (d: VideoDecoder)
        requires
            i32::MIN <= 3 * width <= i32::MAX,
            0 <= 3 * width * height <= i32::MAX,
        ensures
            (d is Software) == (backend == DecoderBackend::Software),
            d.spec_width() == width,
            d.spec_height() == height,
            d.wf(),
            d matches VideoDecoder::Software(s) ==> s.spec_output_buffer() == zeros((3 * width * height) as nat),
            d matches VideoDecoder::Hardware(h) ==> h.spec_buffer_size() == 3 * width * height,
    {
        match backend {
            DecoderBackend::Software => VideoDecoder::Software(SoftwareDecoder::new(width, height)),
            DecoderBackend::Hardware(_) => VideoDecoder::Hardware(HardwareDecoder::new(width, height)),
        }
    }

    pub open spec fn spec_width(&self) -> i32 {
        match self {
            VideoDecoder::Software(d) => d.spec_width(),
            VideoDecoder::Hardware(d) => d.spec_width(),
        }
    }

    pub open spec fn spec_height(&self) -> i32 {
        match self {
            VideoDecoder::Software(d) => d.spec_height(),
            VideoDecoder::Hardware(d) => d.spec_height(),
        }
    }

    /// The number of bytes of every frame this decoder hands out.
    pub open spec fn spec_frame_size(&self) -> nat {
        match self {
            VideoDecoder::Software(d) => d.spec_output_buffer().len(),
            VideoDecoder::Hardware(d) => d.spec_buffer_size() as nat,
        }
    }

    /// Frames have three bytes for each pixel of the video.
    pub open spec fn wf(&self) -> bool {
        self.spec_frame_size() == 3 * self.spec_width() * self.spec_height()
    }

    pub fn width(&self) -> (w: usize)
        ensures
            w == self.spec_width() as usize,
    {
        match self {
            VideoDecoder::Software(d) => d.width(),
            VideoDecoder::Hardware(d) => d.width(),
        }
    }

    pub fn height(&self) -> (h: usize)
        ensures
            h == self.spec_height() as usize,
    {
        match self {
            VideoDecoder::Software(d) => d.height(),
            VideoDecoder::Hardware(d) => d.height(),
        }
    }

    /// The number of bytes of every frame this decoder hands out.
    pub fn frame_size(&self) -> (n: usize)
        ensures
            n == self.spec_frame_size(),
    {
        match self {
            VideoDecoder::Software(d) => d.output_size(),
            VideoDecoder::Hardware(d) => d.buffer_size(),
        }
    }

    /// The frames decoded from one packet, given whether the packet was
    /// accepted and, for each frame produced, its RGB image (`None` where a
    /// hardware frame could not be transferred to memory). Every frame handed
    /// out has the decoder's frame size.
    pub fn decode(&mut self, sent: bool, frames: Vec<Option<Vec<u8>>>) -> (out: Vec<Vec<u8>>)
        requires
            images_fit(frames@, old(self).spec_frame_size()),
            *old(self) is Software ==> forall|i: int| 0 <= i < frames@.len() ==> #[trigger] frames@[i] is Some,
        ensures
            match (*old(self), *final(self)) {
                (VideoDecoder::Software(d0), VideoDecoder::Software(d1)) => {
                    &&& d1.spec_width() == d0.spec_width()
                    &&& d1.spec_height() == d0.spec_height()
                    &&& frame_views(out@) == if sent {
                        software::sw_output(d0.spec_output_buffer(), images(frames@))
                    } else {
                        Seq::<Seq<u8>>::empty()
                    }
                    &&& d1.spec_output_buffer() == if sent {
                        software::sw_buffer_after(d0.spec_output_buffer(), images(frames@))
                    } else {
                        d0.spec_output_buffer()
                    }
                },
                (VideoDecoder::Hardware(d0), VideoDecoder::Hardware(d1)) => {
                    &&& d1 == d0
                    &&& frame_views(out@) == if sent {
                        hardware::hw_output(frames@, d0.spec_buffer_size() as nat)
                    } else {
                        Seq::<Seq<u8>>::empty()
                    }
                },
                _ => false,
            },
            final(self).spec_frame_size() == old(self).spec_frame_size(),
            old(self).wf() ==> final(self).wf(),
            forall|k: int| 0 <= k < out@.len() ==> #[trigger] out@[k]@.len() == old(self).spec_frame_size(),
    {
        match self {
            VideoDecoder::Software(d) => {
                let ghost buf = d.spec_output_buffer();
                let mut imgs: Vec<Vec<u8>> = Vec::new();
                let n = frames.len();
                for i in 0..n
                    invariant
                        n == frames@.len(),
                        forall|j: int| 0 <= j < frames@.len() ==> #[trigger] frames@[j] is Some,
                        frame_views(imgs@) == images(frames@).take(i as int),
                {
                    match &frames[i] {
                        Some(img) => {
                            let c = img.clone();
                            assert(c@ =~= img@);
                            assert(images(frames@)[i as int] == c@);
                            assert(images(frames@).take(i + 1) =~= images(frames@).take(i as int).push(c@));
                            imgs.push(c);
                            assert(frame_views(imgs@) =~= images(frames@).take(i + 1));
                        },
                        None => {},
                    }
                }
                assert(images(frames@).take(n as int) =~= images(frames@));
                assert forall|j: int| 0 <= j < imgs@.len() implies #[trigger] imgs@[j]@.len() <= buf.len() by {
                    assert(frame_views(imgs@)[j] == imgs@[j]@);
                    assert(images(frames@)[j] == frames@[j].unwrap()@);
                }
                let ghost fv = frame_views(imgs@);
                let out = d.decode(sent, imgs);
                assert(frame_views(out@) == if sent { software::sw_output(buf, fv) } else { Seq::<Seq<u8>>::empty() });
                proof {
                    assert forall|j: int| 0 <= j < fv.len() implies #[trigger] fv[j].len() <= buf.len() by {
                        assert(fv[j] == imgs@[j]@);
                    }
                    software::lemma_sw_sizes(buf, fv);
                    assert forall|k: int| 0 <= k < out@.len() implies #[trigger] out@[k]@.len() == buf.len() by {
                        assert(frame_views(out@)[k] == out@[k]@);
                        if sent {
                            assert(frame_views(out@)[k] == software::sw_output(buf, fv)[k]);
                        }
                    }
                }
                out
            },
            VideoDecoder::Hardware(d) => {
                let ghost fr = frames@;
                let ghost size = d.spec_buffer_size() as nat;
                let out = d.decode(sent, frames);
                assert(frame_views(out@) == if sent { hardware::hw_output(fr, size) } else { Seq::<Seq<u8>>::empty() });
                proof {
                    hardware::lemma_hw_output_sizes(fr, size);
                    assert forall|k: int| 0 <= k < out@.len() implies #[trigger] out@[k]@.len() == size by {
                        assert(frame_views(out@)[k] == out@[k]@);
                        if sent {
                            assert(frame_views(out@)[k] == hardware::hw_output(fr, size)[k]);
                        }
                    }
                }
                out
            },
        }
    }
}

} // verus!
