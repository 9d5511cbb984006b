//! Shader descriptors: capability flags, the vertex layout they imply, and
//! the validation of a compiled program against its declared capabilities.
//!
//! Compiling and linking the two shader stages is device work and happens
//! outside the core; the device's answers come back as a [`ProgramReport`],
//! and [`Shader::new`] turns a report into a descriptor or into the exact
//! error the report forces.

use vstd::prelude::*;

use crate::error::RenderError;
use crate::error::ShaderStage;
use crate::error::UniformName;

verus! {

/// The declarative capability record a shader is built from, together with
/// the source text of its two stages.
#[derive(Clone, Copy)]
pub struct ShaderBuilder {
    /// Whether shapes for this shader have a global tint uniform.
    pub tint: bool,
    /// Whether vertices carry per-vertex colors.
    pub gradient: bool,
    /// Whether vertices carry texture coordinates and a texture is bound.
    pub graphic: bool,
    /// Whether depth test and a camera/projection uniform are enabled.
    pub depth: bool,
    /// Whether blending is enabled (colors then carry an alpha component).
    pub blend: bool,
    /// Source text of the fragment stage.
    pub opengl_frag: &'static str,
    /// Source text of the vertex stage.
    pub opengl_vert: &'static str,
}

/// A vertex attribute array, in the fixed order position, color, texture
/// coordinate.
#[derive(Clone, Copy, Debug, PartialEq, Eq, Structural)]
pub enum Attrib {
    Position,
    Color,
    TexCoord,
}

/// What the device reports after compiling, linking and resolving one
/// program: a status of zero means the step failed, and a resolved uniform
/// location below zero means the uniform does not exist.
#[derive(Clone, Copy)]
pub struct ProgramReport {
    /// The program handle the device allocated.
    pub program: u32,
    /// Compile status of the fragment stage.
    pub fragment_status: i32,
    /// Compile status of the vertex stage.
    pub vertex_status: i32,
    /// Link status of the program.
    pub link_status: i32,
    /// Resolved location of the camera/projection uniform.
    pub camera_location: i32,
    /// Resolved location of the tint uniform.
    pub tint_location: i32,
}

/// The number of position coordinates per vertex: three with depth, two
/// without.
pub open spec fn spec_dims(has_depth: bool) -> u32 {
    if has_depth {
        3
    } else {
        2
    }
}

/// The number of color components per vertex: none without a gradient,
/// four with blending, three otherwise.
pub open spec fn spec_components(has_gradient: bool, blend: bool) -> u32 {
    if has_gradient {
        if blend {
            4
        } else {
            3
        }
    } else {
        0
    }
}

/// The number of texture coordinates per vertex: two with a graphic, none
/// without.
pub open spec fn spec_tex_dims(has_graphic: bool) -> u32 {
    if has_graphic {
        2
    } else {
        0
    }
}

/// The number of scalars per vertex record.
pub open spec fn spec_stride(has_depth: bool, has_gradient: bool, has_graphic: bool, blend: bool) -> u32 {
    (spec_dims(has_depth) + spec_components(has_gradient, blend) + spec_tex_dims(has_graphic)) as u32
}

/// The mathematical content of a shader descriptor.
pub struct ShaderView {
    pub program: u32,
    pub gradient: bool,
    pub graphic: bool,
    /// The camera uniform location when depth is enabled.
    pub depth: Option<i32>,
    /// The tint uniform location when tinting is enabled.
    pub tint: Option<i32>,
    pub blending: bool,
}

/// A compiled shader descriptor: the program handle and the capability
/// record every draw call consults.  Immutable once constructed.
#[derive(Debug)]
pub struct Shader {
    program: u32,
    gradient: bool,
    graphic: bool,
    depth: Option<i32>,
    tint: Option<i32>,
    blending: bool,
}

impl View for Shader {
    type V = ShaderView;

    closed spec fn view(&self) -> ShaderView {
        ShaderView {
            program: self.program,
            gradient: self.gradient,
            graphic: self.graphic,
            depth: self.depth,
            tint: self.tint,
            blending: self.blending,
        }
    }
}

impl Shader {
    /// Resolved uniform locations exist on the device side.
    pub open spec fn wf(&self) -> bool {
        &&& (self@.depth matches Some(l) ==> l >= 0)
        &&& (self@.tint matches Some(l) ==> l >= 0)
    }

    /// The scalars per vertex record this descriptor implies.
    pub open spec fn stride_spec(&self) -> u32 {
        spec_stride(self@.depth is Some, self@.gradient, self@.graphic, self@.blending)
    }

    /// The position coordinates per vertex this descriptor implies.
    pub open spec fn dims_spec(&self) -> u32 {
        spec_dims(self@.depth is Some)
    }

    /// The color components per vertex this descriptor implies.
    pub open spec fn components_spec(&self) -> u32 {
        spec_components(self@.gradient, self@.blending)
    }

    /// Validate a device report against the declared capabilities.
    ///
    /// Fails exactly when a stage did not compile, the program did not
    /// link, or a uniform a capability promises was not resolved; otherwise
    /// the descriptor carries the program handle, the capability flags and
    /// the resolved locations.
    pub fn new(builder: ShaderBuilder, report: ProgramReport) -> (r: Result<Shader, RenderError>)
        ensures
            report.fragment_status == 0 ==> r == Err::<Shader, RenderError>(
                RenderError::ShaderCompileError { stage: ShaderStage::Fragment },
            ),
            report.fragment_status != 0 && report.vertex_status == 0 ==> r == Err::<
                Shader,
                RenderError,
            >(RenderError::ShaderCompileError { stage: ShaderStage::Vertex }),
            report.fragment_status != 0 && report.vertex_status != 0 && report.link_status == 0
                ==> r == Err::<Shader, RenderError>(RenderError::ShaderLinkError),
            report.fragment_status != 0 && report.vertex_status != 0 && report.link_status != 0
                && builder.depth && report.camera_location < 0 ==> r == Err::<Shader, RenderError>(
                RenderError::MissingUniform { name: UniformName::Camera },
            ),
            report.fragment_status != 0 && report.vertex_status != 0 && report.link_status != 0
                && !(builder.depth && report.camera_location < 0) && builder.tint
                && report.tint_location < 0 ==> r == Err::<Shader, RenderError>(
                RenderError::MissingUniform { name: UniformName::Tint },
            ),
            (report.fragment_status != 0 && report.vertex_status != 0 && report.link_status != 0
                && !(builder.depth && report.camera_location < 0) && !(builder.tint
                && report.tint_location < 0)) <==> r is Ok,
            r matches Ok(s) ==> {
                &&& s@.program == report.program
                &&& s@.gradient == builder.gradient
                &&& s@.graphic == builder.graphic
                &&& s@.blending == builder.blend
                &&& s@.depth == (if builder.depth {
                    Some(report.camera_location)
                } else {
                    None::<i32>
                })
                &&& s@.tint == (if builder.tint {
                    Some(report.tint_location)
                } else {
                    None::<i32>
                })
                &&& s.wf()
            },
    {
        if report.fragment_status == 0 {
            return Err(RenderError::ShaderCompileError { stage: ShaderStage::Fragment });
        }
        if report.vertex_status == 0 {
            return Err(RenderError::ShaderCompileError { stage: ShaderStage::Vertex });
        }
        if report.link_status == 0 {
            return Err(RenderError::ShaderLinkError);
        }
        if builder.depth && report.camera_location < 0 {
            return Err(RenderError::MissingUniform { name: UniformName::Camera });
        }
        if builder.tint && report.tint_location < 0 {
            return Err(RenderError::MissingUniform { name: UniformName::Tint });
        }
        Ok(
            Shader {
                program: report.program,
                gradient: builder.gradient,
                graphic: builder.graphic,
                depth: if builder.depth {
                    Some(report.camera_location)
                } else {
                    None
                },
                tint: if builder.tint {
                    Some(report.tint_location)
                } else {
                    None
                },
                blending: builder.blend,
            },
        )
    }

    /// The program handle.
    pub fn program(&self) -> (r: u32)
        ensures
            r == self@.program,
    {
        self.program
    }

    /// Whether vertices carry per-vertex colors.
    pub fn gradient(&self) -> (r: bool)
        ensures
            r == self@.gradient,
    {
        self.gradient
    }

    /// Whether vertices carry texture coordinates.
    pub fn graphic(&self) -> (r: bool)
        ensures
            r == self@.graphic,
    {
        self.graphic
    }

    /// Whether blending is enabled.
    pub fn blending(&self) -> (r: bool)
        ensures
            r == self@.blending,
    {
        self.blending
    }

    /// The camera uniform location, present exactly when depth is enabled.
    pub fn depth(&self) -> (r: Option<i32>)
        ensures
            r == self@.depth,
    {
        self.depth
    }

    /// The tint uniform location, present exactly when tinting is enabled.
    pub fn tint(&self) -> (r: Option<i32>)
        ensures
            r == self@.tint,
    {
        self.tint
    }

    /// The position coordinates per vertex.
    pub fn dims(&self) -> (r: u32)
        ensures
            r == self.dims_spec(),
    {
        if self.depth.is_some() {
            3
        } else {
            2
        }
    }

    /// The color components per vertex.
    pub fn components(&self) -> (r: u32)
        ensures
            r == self.components_spec(),
    {
        if self.gradient {
            if self.blending {
                4
            } else {
                3
            }
        } else {
            0
        }
    }

    /// The scalars per vertex record: position coordinates, then color
    /// components, then texture coordinates.
    pub fn stride(&self) -> (r: u32)
        ensures
            r == self.stride_spec(),
    {
        let tex: u32 = if self.graphic {
            2
        } else {
            0
        };
        self.dims() + self.components() + tex
    }
}

/// The attribute arrays a capability record binds, in the fixed order and
/// at the fixed slots: position at 0 always, color at 1 only with a
/// gradient, texture coordinates at 2 only with a graphic.
pub open spec fn spec_attrib_bindings(gradient: bool, graphic: bool) -> Seq<(Attrib, u32)> {
    seq![(Attrib::Position, 0u32)] + (if gradient {
        seq![(Attrib::Color, 1u32)]
    } else {
        Seq::<(Attrib, u32)>::empty()
    }) + (if graphic {
        seq![(Attrib::TexCoord, 2u32)]
    } else {
        Seq::<(Attrib, u32)>::empty()
    })
}

/// The attribute arrays to bind before linking a program built from this
/// capability record.
pub fn attrib_bindings(builder: &ShaderBuilder) -> (v: Vec<(Attrib, u32)>)
    ensures
        v@ == spec_attrib_bindings(builder.gradient, builder.graphic),
{
    let mut v: Vec<(Attrib, u32)> = Vec::new();
    v.push((Attrib::Position, 0));
    if builder.gradient {
        v.push((Attrib::Color, 1));
    }
    if builder.graphic {
        v.push((Attrib::TexCoord, 2));
    }
    proof {
        assert(v@ =~= spec_attrib_bindings(builder.gradient, builder.graphic));
    }
    v
}

} // verus!
