use crtcam::error::CamError;
use crtcam::layout::RenderPipeline;
use crtcam::negotiate::{CaptureFormat, PixelEncoding};
use crtcam::pixel::convert_frame;
use crtcam::session::process_frame;
use crtcam::source::{FailurePolicy, FrameSource};

fn format_4x2() -> CaptureFormat {
    CaptureFormat {
        width: 4,
        height: 2,
        encoding: PixelEncoding::PackedLumaChroma422,
        rate_num: 30,
        rate_den: 1,
    }
}

fn streaming_source() -> FrameSource {
    let mut s = FrameSource::open(format_4x2(), FailurePolicy::FailFast);
    s.start();
    s
}

#[test]
fn one_cycle_uploads_the_converted_frame() {
    let src = streaming_source();
    let mut pipe = RenderPipeline::initialize(&format_4x2());
    // A 4x2 frame: 16 raw bytes, alternating dark and bright pairs.
    let raw: Vec<u8> = vec![
        16, 128, 16, 128, 235, 128, 235, 128, 128, 255, 128, 0, 90, 128, 200, 128,
    ];
    assert!(process_frame(&src, &mut pipe, &raw).is_ok());
    assert_eq!(pipe.texture, convert_frame(&raw));
    assert_eq!(pipe.texture.len(), 4 * 2 * 3);
}

#[test]
fn wrong_raw_length_leaves_texture_untouched() {
    let src = streaming_source();
    let mut pipe = RenderPipeline::initialize(&format_4x2());
    let short = vec![16u8; 15];
    assert_eq!(process_frame(&src, &mut pipe, &short), Err(CamError::SizeMismatch));
    assert!(pipe.texture.iter().all(|&b| b == 0));
    let long = vec![16u8; 20];
    assert_eq!(process_frame(&src, &mut pipe, &long), Err(CamError::SizeMismatch));
    assert!(pipe.texture.iter().all(|&b| b == 0));
}

#[test]
fn cycles_overwrite_prior_contents() {
    let src = streaming_source();
    let mut pipe = RenderPipeline::initialize(&format_4x2());
    let first = vec![235u8, 128, 235, 128, 235, 128, 235, 128, 235, 128, 235, 128, 235, 128, 235, 128];
    let second = vec![16u8, 128, 16, 128, 16, 128, 16, 128, 16, 128, 16, 128, 16, 128, 16, 128];
    assert!(process_frame(&src, &mut pipe, &first).is_ok());
    assert_eq!(pipe.texture, vec![235u8; 24]);
    assert!(process_frame(&src, &mut pipe, &second).is_ok());
    assert_eq!(pipe.texture, vec![16u8; 24]);
}
