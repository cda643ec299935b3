//! Error taxonomy of the pipeline. Every variant is fatal for a
//! session: the design performs no retries and no partial recovery.

use vstd::prelude::*;

verus! {

#[derive(Clone, Copy, Debug, PartialEq, Eq, Structural)]
pub enum CamError {
    /// The device exposes no discrete format of the supported encoding.
    NoCompatibleFormat,
    /// The device, asked to apply a format, reported a different encoding.
    FormatMismatch,
    /// Opening the device or creating its stream failed.
    DeviceError,
    /// Reading a frame from an open stream failed.
    StreamError,
    /// A buffer's length does not match the negotiated dimensions.
    SizeMismatch,
    /// The post-processing shader failed to compile.
    ShaderCompileError,
    /// The display texture could not be created.
    TextureCreateError,
}

} // verus!
