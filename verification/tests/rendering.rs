use crtcam::error::CamError;
use crtcam::layout::{LetterboxRect, RenderPipeline, letterbox};
use crtcam::negotiate::{CaptureFormat, PixelEncoding};

fn format_640x480() -> CaptureFormat {
    CaptureFormat {
        width: 640,
        height: 480,
        encoding: PixelEncoding::PackedLumaChroma422,
        rate_num: 30,
        rate_den: 1,
    }
}

#[test]
fn four_by_three_in_sixteen_by_nine_pillarboxes() {
    // A 4:3 source in a 16:9 viewport of height 720 draws at full
    // height, width 720 * 640/480 = 960, centered horizontally.
    let r = letterbox(640, 480, 1280, 720);
    assert_eq!(
        r,
        LetterboxRect { x: 160, y: 0, width: 960, height: 720 }
    );
}

#[test]
fn tall_source_pillarboxes_harder() {
    let r = letterbox(480, 640, 1280, 720);
    assert_eq!(
        r,
        LetterboxRect { x: 370, y: 0, width: 540, height: 720 }
    );
}

#[test]
fn wide_source_letterboxes_top_and_bottom() {
    // 1920:800 is wider than 16:9, so the drawn height shrinks to
    // 800 * 1280/1920 = 533 and centers vertically.
    let r = letterbox(1920, 800, 1280, 720);
    assert_eq!(
        r,
        LetterboxRect { x: 0, y: 93, width: 1280, height: 533 }
    );
}

#[test]
fn matching_aspect_fills_the_viewport() {
    let r = letterbox(1280, 720, 1280, 720);
    assert_eq!(
        r,
        LetterboxRect { x: 0, y: 0, width: 1280, height: 720 }
    );
}

#[test]
fn initialize_sizes_texture_to_format() {
    let p = RenderPipeline::initialize(&format_640x480());
    assert_eq!(p.width, 640);
    assert_eq!(p.height, 480);
    assert_eq!(p.texture.len(), 640 * 480 * 3);
    assert!(p.texture.iter().all(|&b| b == 0));
}

#[test]
fn upload_replaces_texture_contents() {
    let mut p = RenderPipeline::initialize(&format_640x480());
    let frame = vec![7u8; 640 * 480 * 3];
    assert!(p.upload(frame.clone()).is_ok());
    assert_eq!(p.texture, frame);
}

#[test]
fn upload_of_wrong_length_is_size_mismatch() {
    let mut p = RenderPipeline::initialize(&format_640x480());
    let short = vec![7u8; 640 * 480 * 3 - 1];
    assert_eq!(p.upload(short), Err(CamError::SizeMismatch));
    assert!(p.texture.iter().all(|&b| b == 0));
    let long = vec![7u8; 640 * 480 * 3 + 4];
    assert_eq!(p.upload(long), Err(CamError::SizeMismatch));
    assert_eq!(p.texture.len(), 640 * 480 * 3);
}
