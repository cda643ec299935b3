//! The frame source: the state machine of the open device and its
//! stream, and the decisions the capture loop takes. The device I/O
//! itself (opening, blocking reads) lives with the caller; this module
//! pins the legal transitions `Closed -> Opened -> Streaming -> Closed`,
//! the length a raw frame must have, and the continuation policy on a
//! frame-read failure.

use vstd::prelude::*;
use vstd::arithmetic::mul::lemma_mul_upper_bound;
use crate::error::CamError;
use crate::negotiate::CaptureFormat;

verus! {

/// Lifecycle of the capture stream.
#[derive(Clone, Copy, Debug, PartialEq, Eq, Structural)]
pub enum StreamState {
    Closed,
    Opened,
    Streaming,
}

/// What to do when a single frame read fails: abort the session (the
/// default fail-fast policy — every error is fatal) or skip the frame
/// and continue.
#[derive(Clone, Copy, Debug, PartialEq, Eq, Structural)]
pub enum FailurePolicy {
    FailFast,
    SkipFrame,
}

/// The action the capture loop takes after a failed frame read.
#[derive(Clone, Copy, Debug, PartialEq, Eq, Structural)]
pub enum ErrorAction {
    Abort,
    Continue,
}

/// The session's frame source: the negotiated format, the stream state,
/// and the continuation policy. The format never changes while the
/// source exists — no mid-session resolution change is supported.
pub struct FrameSource {
    pub format: CaptureFormat,
    pub state: StreamState,
    pub policy: FailurePolicy,
}

impl FrameSource {
    /// Take ownership of a device whose format was applied and confirmed:
    /// the source starts in `Opened`.
    pub fn open(format: CaptureFormat, policy: FailurePolicy) -> (s: Self)
        ensures
            s.state is Opened,
            s.format == format,
            s.policy == policy,
    {
        FrameSource { format, state: StreamState::Opened, policy }
    }

    /// Start streaming. Valid only on a freshly opened source.
    pub fn start(&mut self)
        requires
            old(self).state is Opened,
        ensures
            final(self).state is Streaming,
            final(self).format == old(self).format,
            final(self).policy == old(self).policy,
    {
        self.state = StreamState::Streaming;
    }

    /// The byte length every raw frame of the negotiated format must
    /// have: two bytes per pixel of the packed 4:2:2 encoding.
    pub fn expected_raw_len(&self) -> (n: u128)
        ensures
            n == 2 * self.format.width * self.format.height,
    {
        proof {
            lemma_mul_upper_bound(
                self.format.width as int,
                0xffff_ffff as int,
                self.format.height as int,
                0xffff_ffff as int,
            );
            assert(2 * (self.format.width as int) * (self.format.height as int)
                == 2 * ((self.format.width as int) * (self.format.height as int))) by (nonlinear_arith);
        }
        let pixels: u64 = (self.format.width as u64) * (self.format.height as u64);
        2 * (pixels as u128)
    }

    /// Judge one delivered frame buffer. Valid only while streaming;
    /// a buffer of any length other than the negotiated frame length
    /// breaks the session invariant and is `SizeMismatch`.
    pub fn accept_frame(&self, len: u64) -> (r: Result<(), CamError>)
        requires
            self.state is Streaming,
        ensures
            r is Ok <==> len == 2 * self.format.width * self.format.height,
            r matches Err(e) ==> e == CamError::SizeMismatch,
    {
        let expected = self.expected_raw_len();
        if (len as u128) == expected {
            Ok(())
        } else {
            Err(CamError::SizeMismatch)
        }
    }

    /// The loop's decision after a failed frame read, per the configured
    /// policy: fail-fast aborts the session, skip-frame continues.
    pub fn on_frame_error(&self) -> (a: ErrorAction)
        requires
            self.state is Streaming,
        ensures
            a is Abort <==> self.policy is FailFast,
    {
        match self.policy {
            FailurePolicy::FailFast => ErrorAction::Abort,
            FailurePolicy::SkipFrame => ErrorAction::Continue,
        }
    }

    /// Close the stream; the source leaves `Streaming` for good.
    pub fn close(&mut self)
        ensures
            final(self).state is Closed,
            final(self).format == old(self).format,
            final(self).policy == old(self).policy,
    {
        self.state = StreamState::Closed;
    }
}

/// Law: the session stays mutually consistent — for an even pixel count
/// (the packed 4:2:2 encoding pairs pixels horizontally), a raw frame of
/// the negotiated length `w*h*2` converts to exactly the `w*h*3` RGB
/// bytes the display texture of the same format expects.
pub proof fn lemma_session_consistency(w: int, h: int)
    requires
        w >= 0,
        h >= 0,
        (w * h) % 2 == 0,
    ensures
        ((2 * (w * h)) / 4) * 6 == 3 * (w * h),
{
    let m = w * h;
    let q = m / 2;
    assert(m == 2 * q);
    assert((2 * m) / 4 == q);
}

} // verus!
