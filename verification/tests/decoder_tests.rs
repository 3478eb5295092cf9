use ez_video_capture_core::decoder::hardware::{HardwareDecoder, HwConfig, HwDeviceType};
use ez_video_capture_core::decoder::software::SoftwareDecoder;
use ez_video_capture_core::decoder::{
    select_backend, DecoderBackend, HardwareAcceleration, HardwareType, Platform, VideoDecoder,
};
use ez_video_capture_core::Error;

#[test]
fn software_on_every_platform() {
    for p in [Platform::MacOs, Platform::Linux, Platform::Windows, Platform::Other] {
        assert_eq!(select_backend(HardwareAcceleration::Disabled, p), Ok(DecoderBackend::Software));
    }
}

#[test]
fn hardware_by_platform() {
    assert_eq!(
        select_backend(HardwareAcceleration::VideoToolbox, Platform::MacOs),
        Ok(DecoderBackend::Hardware(HwDeviceType::VideoToolbox))
    );
    assert_eq!(select_backend(HardwareAcceleration::VideoToolbox, Platform::Linux), Err(Error::UnsupportedPlatform));
    assert_eq!(select_backend(HardwareAcceleration::VAAPI, Platform::Linux), Ok(DecoderBackend::Hardware(HwDeviceType::Vaapi)));
    assert_eq!(select_backend(HardwareAcceleration::VAAPI, Platform::Windows), Err(Error::UnsupportedPlatform));
    assert_eq!(select_backend(HardwareAcceleration::D3D11VA, Platform::Windows), Ok(DecoderBackend::Hardware(HwDeviceType::D3d11va)));
    assert_eq!(select_backend(HardwareAcceleration::D3D12VA, Platform::Windows), Ok(DecoderBackend::Hardware(HwDeviceType::D3d12va)));
    assert_eq!(select_backend(HardwareAcceleration::D3D12VA, Platform::MacOs), Err(Error::UnsupportedPlatform));
    assert_eq!(select_backend(HardwareAcceleration::CUDA, Platform::Linux), Ok(DecoderBackend::Hardware(HwDeviceType::Cuda)));
    assert_eq!(select_backend(HardwareAcceleration::CUDA, Platform::Windows), Ok(DecoderBackend::Hardware(HwDeviceType::Cuda)));
    assert_eq!(select_backend(HardwareAcceleration::CUDA, Platform::MacOs), Err(Error::UnsupportedPlatform));
    assert_eq!(select_backend(HardwareAcceleration::Vulkan, Platform::Linux), Ok(DecoderBackend::Hardware(HwDeviceType::Vulkan)));
    assert_eq!(select_backend(HardwareAcceleration::Vulkan, Platform::Other), Err(Error::UnsupportedPlatform));
}

#[test]
fn python_choice_maps_to_acceleration() {
    assert_eq!(HardwareAcceleration::from(HardwareType::VAAPI), HardwareAcceleration::VAAPI);
    assert_eq!(HardwareAcceleration::from(HardwareType::VideoToolbox), HardwareAcceleration::VideoToolbox);
    assert_eq!(HardwareAcceleration::from(HardwareType::D3D11VA), HardwareAcceleration::D3D11VA);
    assert_eq!(HardwareAcceleration::from(HardwareType::D3D12VA), HardwareAcceleration::D3D12VA);
    assert_eq!(HardwareAcceleration::from(HardwareType::CUDA), HardwareAcceleration::CUDA);
    assert_eq!(HardwareAcceleration::from(HardwareType::Vulkan), HardwareAcceleration::Vulkan);
}

#[test]
fn hw_config_needs_device_and_context_method() {
    let configs = vec![
        HwConfig { device_type: HwDeviceType::Cuda, methods: 1 },
        HwConfig { device_type: HwDeviceType::Vaapi, methods: 2 },
    ];
    assert_eq!(HardwareDecoder::find_hw_config(&configs, HwDeviceType::Cuda), Ok(()));
    assert_eq!(HardwareDecoder::find_hw_config(&configs, HwDeviceType::Vaapi), Err(Error::NoHwConfig));
    assert_eq!(HardwareDecoder::find_hw_config(&configs, HwDeviceType::Vulkan), Err(Error::NoHwConfig));
    assert_eq!(HardwareDecoder::find_hw_config(&vec![], HwDeviceType::Cuda), Err(Error::NoHwConfig));
    let mixed = vec![HwConfig { device_type: HwDeviceType::Vaapi, methods: 3 }];
    assert_eq!(HardwareDecoder::find_hw_config(&mixed, HwDeviceType::Vaapi), Ok(()));
}

#[test]
fn hardware_decode_skips_failed_transfers_and_pads() {
    let mut d = HardwareDecoder::new(2, 1);
    assert_eq!((d.width(), d.height()), (2, 1));
    let out = d.decode(true, vec![Some(vec![1, 2, 3, 4, 5, 6]), None, Some(vec![7, 8])]);
    assert_eq!(out, vec![vec![1, 2, 3, 4, 5, 6], vec![7, 8, 0, 0, 0, 0]]);
}

#[test]
fn refused_packet_gives_no_frames() {
    let mut d = HardwareDecoder::new(1, 1);
    assert!(d.decode(false, vec![Some(vec![1, 2, 3])]).is_empty());
    let mut s = SoftwareDecoder::new(1, 1);
    assert!(s.decode(false, vec![vec![1, 2, 3]]).is_empty());
}

#[test]
fn software_decode_reuses_output_buffer() {
    let mut d = SoftwareDecoder::new(1, 2);
    assert_eq!((d.width(), d.height()), (1, 2));
    let out = d.decode(true, vec![vec![1, 1, 1, 1, 1, 1], vec![2, 2]]);
    assert_eq!(out, vec![vec![1, 1, 1, 1, 1, 1], vec![2, 2, 1, 1, 1, 1]]);
}

#[test]
fn video_decoder_frames_have_three_bytes_a_pixel() {
    let mut d = VideoDecoder::new(DecoderBackend::Hardware(HwDeviceType::Cuda), 2, 2);
    assert_eq!((d.width(), d.height()), (2, 2));
    let out = d.decode(true, vec![Some(vec![5; 12]), Some(vec![]), None]);
    assert_eq!(out.len(), 2);
    assert!(out.iter().all(|f| f.len() == 12));
    let mut s = VideoDecoder::new(DecoderBackend::Software, 3, 1);
    let out = s.decode(true, vec![Some(vec![1, 2, 3])]);
    assert_eq!(out, vec![vec![1, 2, 3, 0, 0, 0, 0, 0, 0]]);
}
