//! The error taxonomy of the rendering core.
//!
//! Shader construction failures are unrecoverable at the point where the
//! shader is built; geometry and graphic validation failures are local and
//! recoverable.  No error is ever retried.

use vstd::prelude::*;

verus! {

/// A shader stage whose compilation can fail.
#[derive(Clone, Copy, Debug, PartialEq, Eq, Structural)]
pub enum ShaderStage {
    Vertex,
    Fragment,
}

/// A uniform that a capability flag promises the compiled program exposes.
#[derive(Clone, Copy, Debug, PartialEq, Eq, Structural)]
pub enum UniformName {
    /// The camera/projection matrix uniform, owed when depth is enabled.
    Camera,
    /// The global tint uniform, owed when tinting is enabled.
    Tint,
}

/// Every failure the rendering core can report.
#[derive(Clone, Copy, Debug, PartialEq, Eq, Structural)]
pub enum RenderError {
    /// A shader stage failed to compile.
    ShaderCompileError { stage: ShaderStage },
    /// The two compiled stages failed to link into a program.
    ShaderLinkError,
    /// The configuration declared a capability whose uniform the compiled
    /// program does not expose.
    MissingUniform { name: UniformName },
    /// Vertex data whose length does not fit the layout the shader expects.
    MalformedVertexData { expected_stride: u32, actual_len: usize },
    /// A pixel buffer too short for the stated dimensions, or a zero
    /// dimension.
    MalformedGraphicData { width: u32, height: u32, actual_len: usize },
    /// A vertex push or a second completion on an already finished geometry.
    GeometryAlreadyFinished,
    /// An opaque failure of the underlying device, passed through by the
    /// caller that drives the device.
    UnderlyingDeviceError,
}

} // verus!
