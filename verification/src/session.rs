//! One iteration of the capture-to-display cycle: judge the raw frame's
//! length, convert it, and upload the result — in that order, with the
//! session invariant (format dimensions, raw length, RGB length and
//! texture size mutually consistent) carried through the whole step.

use vstd::prelude::*;
use crate::error::CamError;
use crate::layout::{pipeline_wf, RenderPipeline};
use crate::pixel::{convert_frame, group_matches};
use crate::source::{lemma_session_consistency, FrameSource};

verus! {

/// Process one captured frame: accept it only at the negotiated raw
/// length, convert it to RGB, and upload it into the display texture.
/// On success the texture holds exactly the converted frame; a frame of
/// any other length is `SizeMismatch` and leaves the texture untouched.
pub fn process_frame(src: &FrameSource, pipe: &mut RenderPipeline, raw: &Vec<u8>) -> (r: Result<
    (),
    CamError,
>)
    requires
        src.state is Streaming,
        pipeline_wf(*old(pipe)),
        old(pipe).width == src.format.width,
        old(pipe).height == src.format.height,
        (src.format.width * src.format.height) % 2 == 0,
    ensures
        pipeline_wf(*final(pipe)),
        final(pipe).width == old(pipe).width,
        final(pipe).height == old(pipe).height,
        match r {
            Ok(()) => {
                &&& raw@.len() == 2 * src.format.width * src.format.height
                &&& final(pipe).texture@.len() == 3 * src.format.width * src.format.height
                &&& forall|g: int|
                    0 <= g < raw@.len() / 4 ==> #[trigger] group_matches(
                        raw@,
                        final(pipe).texture@,
                        g,
                    )
            },
            Err(e) => {
                &&& e == CamError::SizeMismatch
                &&& raw@.len() != 2 * src.format.width * src.format.height
                &&& final(pipe).texture@ == old(pipe).texture@
            },
        },
{
    let accepted = src.accept_frame(raw.len() as u64);
    match accepted {
        Err(e) => Err(e),
        Ok(()) => {
            let rgb = convert_frame(raw);
            proof {
                let w = src.format.width as int;
                let h = src.format.height as int;
                assert(2 * w * h == 2 * (w * h) && 3 * w * h == 3 * (w * h)) by (nonlinear_arith);
                lemma_session_consistency(w, h);
            }
            let uploaded = pipe.upload(rgb);
            match uploaded {
                Ok(()) => Ok(()),
                Err(e) => {
                    proof {
                        assert(false);
                    }
                    Err(e)
                }
            }
        }
    }
}

} // verus!
