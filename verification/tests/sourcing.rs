use crtcam::error::CamError;
use crtcam::negotiate::{CaptureFormat, PixelEncoding};
use crtcam::source::{ErrorAction, FailurePolicy, FrameSource, StreamState};

fn format_640x480() -> CaptureFormat {
    CaptureFormat {
        width: 640,
        height: 480,
        encoding: PixelEncoding::PackedLumaChroma422,
        rate_num: 30,
        rate_den: 1,
    }
}

#[test]
fn lifecycle_runs_closed_to_closed() {
    let mut s = FrameSource::open(format_640x480(), FailurePolicy::FailFast);
    assert_eq!(s.state, StreamState::Opened);
    s.start();
    assert_eq!(s.state, StreamState::Streaming);
    s.close();
    assert_eq!(s.state, StreamState::Closed);
    assert_eq!(s.format, format_640x480());
}

#[test]
fn expected_raw_len_is_two_bytes_per_pixel() {
    let s = FrameSource::open(format_640x480(), FailurePolicy::FailFast);
    assert_eq!(s.expected_raw_len(), 640 * 480 * 2);
}

#[test]
fn accept_frame_of_negotiated_length() {
    let mut s = FrameSource::open(format_640x480(), FailurePolicy::FailFast);
    s.start();
    assert!(s.accept_frame(640 * 480 * 2).is_ok());
}

#[test]
fn accept_frame_rejects_other_lengths() {
    let mut s = FrameSource::open(format_640x480(), FailurePolicy::FailFast);
    s.start();
    assert_eq!(s.accept_frame(0), Err(CamError::SizeMismatch));
    assert_eq!(s.accept_frame(640 * 480 * 2 - 1), Err(CamError::SizeMismatch));
    assert_eq!(s.accept_frame(640 * 480 * 3), Err(CamError::SizeMismatch));
}

#[test]
fn fail_fast_aborts_on_frame_error() {
    let mut s = FrameSource::open(format_640x480(), FailurePolicy::FailFast);
    s.start();
    assert_eq!(s.on_frame_error(), ErrorAction::Abort);
}

#[test]
fn skip_frame_continues_on_frame_error() {
    let mut s = FrameSource::open(format_640x480(), FailurePolicy::SkipFrame);
    s.start();
    assert_eq!(s.on_frame_error(), ErrorAction::Continue);
}
