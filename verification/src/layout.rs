//! Render-pipeline bookkeeping: the display texture model, the
//! byte-length check a frame upload must pass, and the letterbox
//! placement that preserves the source aspect ratio centered in the
//! output viewport.

use vstd::prelude::*;
use vstd::arithmetic::mul::lemma_mul_upper_bound;
use vstd::arithmetic::div_mod::lemma_div_is_ordered;
use crate::error::CamError;
use crate::negotiate::CaptureFormat;

verus! {

/// The placement of the drawn source inside the output viewport.
#[derive(Clone, Copy, Debug, PartialEq, Eq, Structural)]
pub struct LetterboxRect {
    pub x: u32,
    pub y: u32,
    pub width: u32,
    pub height: u32,
}

/// What a correct letterbox placement of a `sw` by `sh` source in a
/// `vw` by `vh` viewport is: the drawn rectangle fills the limiting
/// dimension, scales the other by the source aspect ratio, and centers
/// the slack evenly.
pub open spec fn letterbox_ok(sw: int, sh: int, vw: int, vh: int, r: LetterboxRect) -> bool {
    if sw * vh <= vw * sh {
        &&& r.height == vh
        &&& r.width == (sw * vh) / sh
        &&& r.y == 0
        &&& r.x == (vw - r.width) / 2
    } else {
        &&& r.width == vw
        &&& r.height == (sh * vw) / sw
        &&& r.x == 0
        &&& r.y == (vh - r.height) / 2
    }
}

/// Compute the letterboxed placement of the source in the viewport:
/// full viewport height with pillars left and right when the source
/// aspect is no wider than the viewport's, full width with bars above
/// and below otherwise; the slack is split evenly to center the image.
pub fn letterbox(src_width: u32, src_height: u32, view_width: u32, view_height: u32) -> (r: LetterboxRect)
    requires
        src_width >= 1,
        src_height >= 1,
        view_width >= 1,
        view_height >= 1,
    ensures
        letterbox_ok(src_width as int, src_height as int, view_width as int, view_height as int, r),
        r.width <= view_width,
        r.height <= view_height,
{
    let sw = src_width as u64;
    let sh = src_height as u64;
    let vw = view_width as u64;
    let vh = view_height as u64;
    proof {
        lemma_mul_upper_bound(sw as int, 0xffff_ffff as int, vh as int, 0xffff_ffff as int);
        lemma_mul_upper_bound(vw as int, 0xffff_ffff as int, sh as int, 0xffff_ffff as int);
        lemma_mul_upper_bound(sh as int, 0xffff_ffff as int, vw as int, 0xffff_ffff as int);
    }
    if sw * vh <= vw * sh {
        let drawn: u64 = (sw * vh) / sh;
        proof {
            lemma_div_is_ordered((sw * vh) as int, (vw * sh) as int, sh as int);
            assert((vw * sh) as int / (sh as int) == vw) by (nonlinear_arith)
                requires
                    sh >= 1,
            ;
        }
        let w32 = drawn as u32;
        LetterboxRect { x: (view_width - w32) / 2, y: 0, width: w32, height: view_height }
    } else {
        let drawn: u64 = (sh * vw) / sw;
        proof {
            assert((sh * vw) as int <= (vh * sw) as int) by (nonlinear_arith)
                requires
                    vw * sh < sw * vh,
            ;
            lemma_div_is_ordered((sh * vw) as int, (vh * sw) as int, sw as int);
            assert((vh * sw) as int / (sw as int) == vh) by (nonlinear_arith)
                requires
                    sw >= 1,
            ;
        }
        let h32 = drawn as u32;
        LetterboxRect { x: 0, y: (view_height - h32) / 2, width: view_width, height: h32 }
    }
}

/// A 4:3 source aspect is no wider than a 16:9 viewport aspect, so such
/// a source letterboxes at full viewport height.
proof fn lemma_aspect_4_3_pillarboxes(sw: int, sh: int, vw: int, vh: int)
    by (nonlinear_arith)
    requires
        sw >= 1,
        sh >= 1,
        vw >= 1,
        vh >= 1,
        3 * sw == 4 * sh,
        9 * vw == 16 * vh,
    ensures
        sw * vh <= vw * sh,
{
}

/// Law: a 4:3 source rendered into a 16:9 viewport of height `vh` draws
/// at full viewport height, its width is the source aspect ratio scaled
/// to that height, and it is horizontally centered with no vertical
/// offset.
pub proof fn lemma_letterbox_4_3_in_16_9(sw: int, sh: int, vw: int, vh: int, r: LetterboxRect)
    requires
        sw >= 1,
        sh >= 1,
        vw >= 1,
        vh >= 1,
        3 * sw == 4 * sh,
        9 * vw == 16 * vh,
        letterbox_ok(sw, sh, vw, vh, r),
    ensures
        r.height == vh,
        r.width == (sw * vh) / sh,
        r.x == (vw - r.width) / 2,
        r.y == 0,
{
    lemma_aspect_4_3_pillarboxes(sw, sh, vw, vh);
}

/// The display texture model: dimensions fixed at initialization to the
/// negotiated format, contents overwritten by each frame upload.
pub struct RenderPipeline {
    pub width: u32,
    pub height: u32,
    pub texture: Vec<u8>,
}

/// The session invariant on the pipeline: the texture always holds one
/// RGB byte triplet per pixel of the negotiated size.
pub open spec fn pipeline_wf(p: RenderPipeline) -> bool {
    p.texture@.len() == 3 * p.width * p.height
}

impl RenderPipeline {
    /// Create the display texture sized to the negotiated format, filled
    /// with black until the first upload.
    pub fn initialize(format: &CaptureFormat) -> (p: Self)
        requires
            3 * format.width * format.height <= usize::MAX,
        ensures
            pipeline_wf(p),
            p.width == format.width,
            p.height == format.height,
            p.texture@ == Seq::new((3 * format.width * format.height) as nat, |i: int| 0u8),
    {
        proof {
            lemma_mul_upper_bound(
                format.width as int,
                0xffff_ffff as int,
                format.height as int,
                0xffff_ffff as int,
            );
        }
        proof {
            assert(3 * (format.width as int) * (format.height as int)
                == 3 * ((format.width as int) * (format.height as int))) by (nonlinear_arith);
        }
        let pixels: u64 = (format.width as u64) * (format.height as u64);
        let len: usize = 3 * (pixels as usize);
        let mut texture: Vec<u8> = Vec::new();
        let mut i: usize = 0;
        while i < len
            invariant
                i <= len,
                texture@.len() == i,
                forall|j: int| 0 <= j < i ==> texture@[j] == 0u8,
            decreases len - i,
        {
            texture.push(0u8);
            i = i + 1;
        }
        proof {
            assert(texture@ =~= Seq::new((3 * format.width * format.height) as nat, |i: int| 0u8));
        }
        RenderPipeline { width: format.width, height: format.height, texture }
    }

    /// Upload one converted frame into the texture. The buffer must hold
    /// exactly three bytes per pixel of the negotiated size; a mismatch
    /// is `SizeMismatch` and leaves the texture untouched.
    pub fn upload(&mut self, rgb: Vec<u8>) -> (r: Result<(), CamError>)
        requires
            pipeline_wf(*old(self)),
        ensures
            pipeline_wf(*final(self)),
            final(self).width == old(self).width,
            final(self).height == old(self).height,
            match r {
                Ok(()) => {
                    &&& rgb@.len() == 3 * old(self).width * old(self).height
                    &&& final(self).texture@ == rgb@
                },
                Err(e) => {
                    &&& e == CamError::SizeMismatch
                    &&& rgb@.len() != 3 * old(self).width * old(self).height
                    &&& final(self).texture@ == old(self).texture@
                },
            },
    {
        proof {
            lemma_mul_upper_bound(
                self.width as int,
                0xffff_ffff as int,
                self.height as int,
                0xffff_ffff as int,
            );
        }
        proof {
            assert(3 * (self.width as int) * (self.height as int)
                == 3 * ((self.width as int) * (self.height as int))) by (nonlinear_arith);
        }
        let pixels: u64 = (self.width as u64) * (self.height as u64);
        let expected: u128 = 3 * (pixels as u128);
        if (rgb.len() as u128) == expected {
            self.texture = rgb;
            Ok(())
        } else {
            Err(CamError::SizeMismatch)
        }
    }
}

} // verus!
