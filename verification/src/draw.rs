//! The draw-state cache: per-draw device state transitions, emitted as
//! symbolic commands.
//!
//! The cache tracks what the device currently has bound and emits, for
//! every request, exactly the state-changing commands that transition the
//! device from the cached state to the requested one — at most one command
//! per distinguishable transition.  The caller executes the commands
//! against the real device in order.

use vstd::prelude::*;

use crate::graphic::Graphic;
use crate::group::Group;
use crate::group::GroupView;
use crate::group::bind_ops;
use crate::group::bound_group;
use crate::shader::Attrib;
use crate::shader::Shader;
use crate::shader::ShaderView;
use crate::shader::spec_components;
use crate::shader::spec_dims;
use crate::shader::spec_stride;

verus! {

/// A symbolic device command.  The cache decides; the caller executes.
#[derive(Clone, Copy, Debug, PartialEq, Eq, Structural)]
pub enum RenderOp {
    /// Clear the color and depth buffers.
    Clear,
    /// Enable one vertex attribute array.
    EnableAttribArray { attrib: Attrib },
    /// Disable one vertex attribute array.
    DisableAttribArray { attrib: Attrib },
    /// Bind a program.
    UseProgram { program: u32 },
    /// Enable blending.
    EnableBlend,
    /// Disable blending.
    DisableBlend,
    /// Enable the depth test.
    EnableDepthTest,
    /// Disable the depth test.
    DisableDepthTest,
    /// Reallocate a vertex buffer to `len` scalars and upload them.
    ResizeVertexBuffer { buffer: u32, len: usize },
    /// Overwrite the first `len` scalars of a vertex buffer.
    WriteVertexBuffer { buffer: u32, len: usize },
    /// Reallocate an index buffer to `len` indices and upload them.
    ResizeIndexBuffer { buffer: u32, len: usize },
    /// Overwrite the first `len` indices of an index buffer.
    WriteIndexBuffer { buffer: u32, len: usize },
    /// Bind an index buffer.
    BindIndexBuffer { buffer: u32 },
    /// Bind a vertex buffer.
    BindVertexBuffer { buffer: u32 },
    /// Describe one attribute array inside the interleaved vertex buffer.
    AttribPointer { attrib: Attrib, size: u32, stride_bytes: u32, offset_bytes: u32 },
    /// Bind a texture.
    BindTexture { texture: u32 },
    /// Upload the camera/projection matrix to a uniform location.
    LoadCamera { location: i32 },
    /// Upload the tint color to a uniform location.
    LoadTint { location: i32 },
    /// Draw `count` indexed triangle vertices.
    DrawTriangles { count: usize },
    /// Present the frame.
    Swap,
}

/// The sentinel a frame starts with: no geometry bound.
pub const NO_GROUP: u32 = 0xffff_ffff;

/// The mathematical content of the draw-state cache: what the device
/// currently has bound.
pub struct DrawStateView {
    pub program: u32,
    pub group: u32,
    pub texture: u32,
    pub blending: bool,
    pub depth: bool,
    pub vaa_col: bool,
    pub vaa_tex: bool,
}

/// The commands a program request emits: nothing when the program is
/// already bound; otherwise the bind, followed by enabling or disabling
/// the color and texture-coordinate arrays exactly where the new
/// program's capabilities differ from the arrays currently enabled.
pub open spec fn program_ops(st: DrawStateView, sh: ShaderView) -> Seq<RenderOp> {
    if sh.program != st.program {
        seq![RenderOp::UseProgram { program: sh.program }] + (if !st.vaa_col && sh.gradient {
            seq![RenderOp::EnableAttribArray { attrib: Attrib::Color }]
        } else {
            Seq::<RenderOp>::empty()
        }) + (if !st.vaa_tex && sh.graphic {
            seq![RenderOp::EnableAttribArray { attrib: Attrib::TexCoord }]
        } else {
            Seq::<RenderOp>::empty()
        }) + (if st.vaa_col && !sh.gradient {
            seq![RenderOp::DisableAttribArray { attrib: Attrib::Color }]
        } else {
            Seq::<RenderOp>::empty()
        }) + (if st.vaa_tex && !sh.graphic {
            seq![RenderOp::DisableAttribArray { attrib: Attrib::TexCoord }]
        } else {
            Seq::<RenderOp>::empty()
        })
    } else {
        Seq::<RenderOp>::empty()
    }
}

/// The cache after a program request: the program bound and the arrays
/// matching its capabilities; untouched when it was already bound.
pub open spec fn program_next(st: DrawStateView, sh: ShaderView) -> DrawStateView {
    if sh.program != st.program {
        DrawStateView { program: sh.program, vaa_col: sh.gradient, vaa_tex: sh.graphic, ..st }
    } else {
        st
    }
}

/// The blend and depth-test toggles a geometry change emits: one command
/// per flag whose cached value differs from the shader's.
pub open spec fn blend_depth_ops(st: DrawStateView, sh: ShaderView) -> Seq<RenderOp> {
    (if sh.blending && !st.blending {
        seq![RenderOp::EnableBlend]
    } else if !sh.blending && st.blending {
        seq![RenderOp::DisableBlend]
    } else {
        Seq::<RenderOp>::empty()
    }) + (if sh.depth is Some && !st.depth {
        seq![RenderOp::EnableDepthTest]
    } else if sh.depth is None && st.depth {
        seq![RenderOp::DisableDepthTest]
    } else {
        Seq::<RenderOp>::empty()
    })
}

/// The attribute-pointer commands for a shader's layout, in the fixed
/// component order: the position, then the colors if any, then the
/// texture coordinates if any, with byte offsets derived from the
/// stride.
pub open spec fn pointer_ops(sh: ShaderView) -> Seq<RenderOp> {
    let dims = spec_dims(sh.depth is Some);
    let comps = spec_components(sh.gradient, sh.blending);
    let strb = (4 * spec_stride(sh.depth is Some, sh.gradient, sh.graphic, sh.blending)) as u32;
    seq![
        RenderOp::AttribPointer {
            attrib: Attrib::Position,
            size: dims,
            stride_bytes: strb,
            offset_bytes: 0,
        },
    ] + (if sh.gradient {
        seq![
            RenderOp::AttribPointer {
                attrib: Attrib::Color,
                size: comps,
                stride_bytes: strb,
                offset_bytes: (4 * dims) as u32,
            },
        ]
    } else {
        Seq::<RenderOp>::empty()
    }) + (if sh.graphic {
        seq![
            RenderOp::AttribPointer {
                attrib: Attrib::TexCoord,
                size: 2,
                stride_bytes: strb,
                offset_bytes: (4 * (dims + comps)) as u32,
            },
        ]
    } else {
        Seq::<RenderOp>::empty()
    })
}

/// Every command one draw request emits: the program transition, then —
/// only when the geometry differs from the bound one — the blend/depth
/// toggles, the buffer uploads and binds, and the attribute pointers,
/// and finally the one indexed draw.
pub open spec fn draw_ops(st: DrawStateView, sh: ShaderView, g: GroupView) -> Seq<RenderOp> {
    let st1 = program_next(st, sh);
    program_ops(st, sh) + (if g.index_buffer != st1.group {
        blend_depth_ops(st1, sh) + bind_ops(g) + pointer_ops(sh)
    } else {
        Seq::<RenderOp>::empty()
    }) + seq![RenderOp::DrawTriangles { count: g.indices.len() as usize }]
}

/// The cache after one draw request.
pub open spec fn draw_next(st: DrawStateView, sh: ShaderView, g: GroupView) -> DrawStateView {
    let st1 = program_next(st, sh);
    if g.index_buffer != st1.group {
        DrawStateView {
            group: g.index_buffer,
            blending: sh.blending,
            depth: sh.depth is Some,
            ..st1
        }
    } else {
        st1
    }
}

/// The number of program binds in a command list.
pub open spec fn program_bind_count(ops: Seq<RenderOp>) -> int
    decreases ops.len(),
{
    if ops.len() == 0 {
        0
    } else {
        (if ops[0] is UseProgram {
            1int
        } else {
            0int
        }) + program_bind_count(ops.drop_first())
    }
}

proof fn lemma_bind_count_concat(a: Seq<RenderOp>, b: Seq<RenderOp>)
    ensures
        program_bind_count(a + b) == program_bind_count(a) + program_bind_count(b),
    decreases a.len(),
{
    if a.len() == 0 {
        assert(a + b =~= b);
    } else {
        assert((a + b).drop_first() =~= a.drop_first() + b);
        lemma_bind_count_concat(a.drop_first(), b);
    }
}

proof fn lemma_bind_count_single(op: RenderOp)
    ensures
        program_bind_count(seq![op]) == (if op is UseProgram {
            1int
        } else {
            0int
        }),
{
    assert(program_bind_count(Seq::<RenderOp>::empty()) == 0);
    assert(seq![op].drop_first() =~= Seq::<RenderOp>::empty());
    assert(seq![op].len() == 1);
}

/// A program request binds a program exactly when the program changes;
/// the array toggles that follow bind none.
proof fn lemma_program_ops_count(st: DrawStateView, sh: ShaderView)
    ensures
        program_bind_count(program_ops(st, sh)) == (if sh.program != st.program {
            1int
        } else {
            0int
        }),
{
    if sh.program != st.program {
        let p0 = seq![RenderOp::UseProgram { program: sh.program }];
        let c1 = if !st.vaa_col && sh.gradient {
            seq![RenderOp::EnableAttribArray { attrib: Attrib::Color }]
        } else {
            Seq::<RenderOp>::empty()
        };
        let c2 = if !st.vaa_tex && sh.graphic {
            seq![RenderOp::EnableAttribArray { attrib: Attrib::TexCoord }]
        } else {
            Seq::<RenderOp>::empty()
        };
        let c3 = if st.vaa_col && !sh.gradient {
            seq![RenderOp::DisableAttribArray { attrib: Attrib::Color }]
        } else {
            Seq::<RenderOp>::empty()
        };
        let c4 = if st.vaa_tex && !sh.graphic {
            seq![RenderOp::DisableAttribArray { attrib: Attrib::TexCoord }]
        } else {
            Seq::<RenderOp>::empty()
        };
        lemma_bind_count_single(RenderOp::UseProgram { program: sh.program });
        lemma_bind_count_single(RenderOp::EnableAttribArray { attrib: Attrib::Color });
        lemma_bind_count_single(RenderOp::EnableAttribArray { attrib: Attrib::TexCoord });
        lemma_bind_count_single(RenderOp::DisableAttribArray { attrib: Attrib::Color });
        lemma_bind_count_single(RenderOp::DisableAttribArray { attrib: Attrib::TexCoord });
        lemma_bind_count_concat(p0, c1);
        lemma_bind_count_concat(p0 + c1, c2);
        lemma_bind_count_concat(p0 + c1 + c2, c3);
        lemma_bind_count_concat(p0 + c1 + c2 + c3, c4);
    }
}

/// The geometry transition — blend and depth toggles, buffer uploads
/// and binds, attribute pointers — binds no program.
proof fn lemma_geometry_ops_count(st: DrawStateView, sh: ShaderView, g: GroupView)
    ensures
        program_bind_count(blend_depth_ops(st, sh) + bind_ops(g) + pointer_ops(sh)) == 0,
{
    let b1 = if sh.blending && !st.blending {
        seq![RenderOp::EnableBlend]
    } else if !sh.blending && st.blending {
        seq![RenderOp::DisableBlend]
    } else {
        Seq::<RenderOp>::empty()
    };
    let b2 = if sh.depth is Some && !st.depth {
        seq![RenderOp::EnableDepthTest]
    } else if sh.depth is None && st.depth {
        seq![RenderOp::DisableDepthTest]
    } else {
        Seq::<RenderOp>::empty()
    };
    lemma_bind_count_single(RenderOp::EnableBlend);
    lemma_bind_count_single(RenderOp::DisableBlend);
    lemma_bind_count_single(RenderOp::EnableDepthTest);
    lemma_bind_count_single(RenderOp::DisableDepthTest);
    lemma_bind_count_concat(b1, b2);
    assert(program_bind_count(blend_depth_ops(st, sh)) == 0);
    let u1 = if g.vertices.len() > g.gpu_vertex_len {
        seq![RenderOp::ResizeVertexBuffer { buffer: g.vertex_buffer, len: g.vertices.len() as usize }]
    } else {
        seq![RenderOp::WriteVertexBuffer { buffer: g.vertex_buffer, len: g.vertices.len() as usize }]
    };
    let u2 = if g.indices.len() > g.gpu_index_len {
        seq![RenderOp::ResizeIndexBuffer { buffer: g.index_buffer, len: g.indices.len() as usize }]
    } else {
        seq![RenderOp::WriteIndexBuffer { buffer: g.index_buffer, len: g.indices.len() as usize }]
    };
    let binds = seq![
        RenderOp::BindIndexBuffer { buffer: g.index_buffer },
        RenderOp::BindVertexBuffer { buffer: g.vertex_buffer },
    ];
    lemma_bind_count_single(u1[0]);
    lemma_bind_count_single(u2[0]);
    assert(u1 =~= seq![u1[0]]);
    assert(u2 =~= seq![u2[0]]);
    assert(binds =~= seq![binds[0]] + seq![binds[1]]);
    lemma_bind_count_single(binds[0]);
    lemma_bind_count_single(binds[1]);
    lemma_bind_count_concat(seq![binds[0]], seq![binds[1]]);
    if g.dirty {
        lemma_bind_count_concat(u1, u2);
        lemma_bind_count_concat(u1 + u2, binds);
        assert(bind_ops(g) == (u1 + u2) + binds);
    } else {
        assert(bind_ops(g) =~= binds);
    }
    assert(program_bind_count(bind_ops(g)) == 0);
    let dims = spec_dims(sh.depth is Some);
    let comps = spec_components(sh.gradient, sh.blending);
    let strb = (4 * spec_stride(sh.depth is Some, sh.gradient, sh.graphic, sh.blending)) as u32;
    let p1 = seq![
        RenderOp::AttribPointer {
            attrib: Attrib::Position,
            size: dims,
            stride_bytes: strb,
            offset_bytes: 0,
        },
    ];
    let p2 = if sh.gradient {
        seq![
            RenderOp::AttribPointer {
                attrib: Attrib::Color,
                size: comps,
                stride_bytes: strb,
                offset_bytes: (4 * dims) as u32,
            },
        ]
    } else {
        Seq::<RenderOp>::empty()
    };
    let p3 = if sh.graphic {
        seq![
            RenderOp::AttribPointer {
                attrib: Attrib::TexCoord,
                size: 2,
                stride_bytes: strb,
                offset_bytes: (4 * (dims + comps)) as u32,
            },
        ]
    } else {
        Seq::<RenderOp>::empty()
    };
    lemma_bind_count_single(p1[0]);
    if sh.gradient {
        lemma_bind_count_single(p2[0]);
        assert(p2 =~= seq![p2[0]]);
    }
    if sh.graphic {
        lemma_bind_count_single(p3[0]);
        assert(p3 =~= seq![p3[0]]);
    }
    assert(p1 =~= seq![p1[0]]);
    lemma_bind_count_concat(p1, p2);
    lemma_bind_count_concat(p1 + p2, p3);
    assert(program_bind_count(pointer_ops(sh)) == 0);
    lemma_bind_count_concat(blend_depth_ops(st, sh), bind_ops(g));
    lemma_bind_count_concat(blend_depth_ops(st, sh) + bind_ops(g), pointer_ops(sh));
}

/// One draw request binds a program exactly when the requested program
/// differs from the bound one.
proof fn lemma_draw_ops_count(st: DrawStateView, sh: ShaderView, g: GroupView)
    ensures
        program_bind_count(draw_ops(st, sh, g)) == (if sh.program != st.program {
            1int
        } else {
            0int
        }),
{
    let st1 = program_next(st, sh);
    let geo = if g.index_buffer != st1.group {
        blend_depth_ops(st1, sh) + bind_ops(g) + pointer_ops(sh)
    } else {
        Seq::<RenderOp>::empty()
    };
    let tail = seq![RenderOp::DrawTriangles { count: g.indices.len() as usize }];
    lemma_program_ops_count(st, sh);
    lemma_geometry_ops_count(st1, sh, g);
    lemma_bind_count_single(RenderOp::DrawTriangles { count: g.indices.len() as usize });
    lemma_bind_count_concat(program_ops(st, sh), geo);
    lemma_bind_count_concat(program_ops(st, sh) + geo, tail);
}

/// Law: over the draw sequence S1, S1, S2, S1 — four draws against any
/// geometries, starting from a cache not bound to the first shader's
/// program, with the two shaders' programs distinct — the emitted
/// commands bind a program exactly three times: once per program
/// transition, never redundantly.
pub proof fn lemma_state_cache_minimality(
    st0: DrawStateView,
    s1: ShaderView,
    s2: ShaderView,
    g1: GroupView,
    g2: GroupView,
    g3: GroupView,
    g4: GroupView,
)
    requires
        st0.program != s1.program,
        s1.program != s2.program,
    ensures
        ({
            let o1 = draw_ops(st0, s1, g1);
            let st1 = draw_next(st0, s1, g1);
            let o2 = draw_ops(st1, s1, g2);
            let st2 = draw_next(st1, s1, g2);
            let o3 = draw_ops(st2, s2, g3);
            let st3 = draw_next(st2, s2, g3);
            let o4 = draw_ops(st3, s1, g4);
            program_bind_count(o1 + o2 + o3 + o4) == 3
        }),
{
    let o1 = draw_ops(st0, s1, g1);
    let st1 = draw_next(st0, s1, g1);
    let o2 = draw_ops(st1, s1, g2);
    let st2 = draw_next(st1, s1, g2);
    let o3 = draw_ops(st2, s2, g3);
    let st3 = draw_next(st2, s2, g3);
    let o4 = draw_ops(st3, s1, g4);
    assert(st1.program == s1.program);
    assert(st2.program == s1.program);
    assert(st3.program == s2.program);
    lemma_draw_ops_count(st0, s1, g1);
    lemma_draw_ops_count(st1, s1, g2);
    lemma_draw_ops_count(st2, s2, g3);
    lemma_draw_ops_count(st3, s1, g4);
    lemma_bind_count_concat(o1, o2);
    lemma_bind_count_concat(o1 + o2, o3);
    lemma_bind_count_concat(o1 + o2 + o3, o4);
}

/// The draw-state cache: what the device currently has bound, mutated
/// strictly in draw-call order by the one renderer that owns it.
#[derive(Debug)]
pub struct DrawState {
    program: u32,
    group: u32,
    texture: u32,
    blending: bool,
    depth: bool,
    vaa_col: bool,
    vaa_tex: bool,
}

impl View for DrawState {
    type V = DrawStateView;

    closed spec fn view(&self) -> DrawStateView {
        DrawStateView {
            program: self.program,
            group: self.group,
            texture: self.texture,
            blending: self.blending,
            depth: self.depth,
            vaa_col: self.vaa_col,
            vaa_tex: self.vaa_tex,
        }
    }
}

impl DrawState {
    /// A fresh cache: nothing bound, every toggle off.
    pub fn new() -> (st: DrawState)
        ensures
            st@ == (DrawStateView {
                program: 0,
                group: NO_GROUP,
                texture: 0,
                blending: false,
                depth: false,
                vaa_col: false,
                vaa_tex: false,
            }),
    {
        DrawState {
            program: 0,
            group: NO_GROUP,
            texture: 0,
            blending: false,
            depth: false,
            vaa_col: false,
            vaa_tex: false,
        }
    }

    /// Start a frame: clear the buffers, enable the always-required
    /// position array, and forget the bound geometry.
    pub fn begin_frame(&mut self) -> (ops: Vec<RenderOp>)
        ensures
            ops@ == seq![
                RenderOp::Clear,
                RenderOp::EnableAttribArray { attrib: Attrib::Position },
            ],
            final(self)@ == (DrawStateView { group: NO_GROUP, ..old(self)@ }),
    {
        self.group = NO_GROUP;
        let mut ops: Vec<RenderOp> = Vec::new();
        ops.push(RenderOp::Clear);
        ops.push(RenderOp::EnableAttribArray { attrib: Attrib::Position });
        proof {
            assert(ops@ =~= seq![
                RenderOp::Clear,
                RenderOp::EnableAttribArray { attrib: Attrib::Position },
            ]);
        }
        ops
    }

    /// Bind a program if it is not the bound one, and align the color
    /// and texture-coordinate arrays with its capabilities.
    fn apply_program(&mut self, shader: &Shader) -> (ops: Vec<RenderOp>)
        ensures
            ops@ == program_ops(old(self)@, shader@),
            final(self)@ == program_next(old(self)@, shader@),
    {
        let mut ops: Vec<RenderOp> = Vec::new();
        if shader.program() != self.program {
            ops.push(RenderOp::UseProgram { program: shader.program() });
            self.program = shader.program();
            if !self.vaa_col && shader.gradient() {
                ops.push(RenderOp::EnableAttribArray { attrib: Attrib::Color });
                self.vaa_col = true;
            }
            if !self.vaa_tex && shader.graphic() {
                ops.push(RenderOp::EnableAttribArray { attrib: Attrib::TexCoord });
                self.vaa_tex = true;
            }
            if self.vaa_col && !shader.gradient() {
                ops.push(RenderOp::DisableAttribArray { attrib: Attrib::Color });
                self.vaa_col = false;
            }
            if self.vaa_tex && !shader.graphic() {
                ops.push(RenderOp::DisableAttribArray { attrib: Attrib::TexCoord });
                self.vaa_tex = false;
            }
        }
        proof {
            assert(ops@ =~= program_ops(old(self)@, shader@));
        }
        ops
    }

    /// Toggle blend and depth test exactly where the cached flags differ
    /// from the shader's.
    fn apply_blend_depth(&mut self, shader: &Shader) -> (ops: Vec<RenderOp>)
        ensures
            ops@ == blend_depth_ops(old(self)@, shader@),
            final(self)@ == (DrawStateView {
                blending: shader@.blending,
                depth: shader@.depth is Some,
                ..old(self)@
            }),
    {
        let mut ops: Vec<RenderOp> = Vec::new();
        if shader.blending() && !self.blending {
            ops.push(RenderOp::EnableBlend);
        } else if !shader.blending() && self.blending {
            ops.push(RenderOp::DisableBlend);
        }
        self.blending = shader.blending();
        if shader.depth().is_some() && !self.depth {
            ops.push(RenderOp::EnableDepthTest);
        } else if shader.depth().is_none() && self.depth {
            ops.push(RenderOp::DisableDepthTest);
        }
        self.depth = shader.depth().is_some();
        proof {
            assert(ops@ =~= blend_depth_ops(old(self)@, shader@));
        }
        ops
    }

    /// The attribute-pointer commands for a shader's layout.
    fn pointers(shader: &Shader) -> (ops: Vec<RenderOp>)
        ensures
            ops@ == pointer_ops(shader@),
    {
        let mut ops: Vec<RenderOp> = Vec::new();
        let dims = shader.dims();
        let comps = shader.components();
        let strb = 4 * shader.stride();
        ops.push(
            RenderOp::AttribPointer {
                attrib: Attrib::Position,
                size: dims,
                stride_bytes: strb,
                offset_bytes: 0,
            },
        );
        if shader.gradient() {
            ops.push(
                RenderOp::AttribPointer {
                    attrib: Attrib::Color,
                    size: comps,
                    stride_bytes: strb,
                    offset_bytes: 4 * dims,
                },
            );
        }
        if shader.graphic() {
            ops.push(
                RenderOp::AttribPointer {
                    attrib: Attrib::TexCoord,
                    size: 2,
                    stride_bytes: strb,
                    offset_bytes: 4 * (dims + comps),
                },
            );
        }
        proof {
            assert(ops@ =~= pointer_ops(shader@));
        }
        ops
    }

    /// Submit one draw call: transition exactly the state that differs —
    /// program and arrays, then blend/depth, buffers and pointers when
    /// the geometry changed — and issue the indexed draw.
    #[verifier::rlimit(100)]
    pub fn draw(&mut self, shader: &Shader, group: &mut Group) -> (ops: Vec<RenderOp>)
        ensures
            ops@ == draw_ops(old(self)@, shader@, old(group)@),
            final(self)@ == draw_next(old(self)@, shader@, old(group)@),
            final(group)@ == (if old(group)@.index_buffer != program_next(
                old(self)@,
                shader@,
            ).group {
                bound_group(old(group)@)
            } else {
                old(group)@
            }),
            old(group).wf() ==> final(group).wf(),
    {
        let mut ops = self.apply_program(shader);
        let ghost st1 = self@;
        let gid = group.id();
        if gid != self.group {
            let mut bops = self.apply_blend_depth(shader);
            ops.append(&mut bops);
            let mut gops = group.bind();
            ops.append(&mut gops);
            let mut pops = Self::pointers(shader);
            ops.append(&mut pops);
            self.group = gid;
            proof {
                assert(ops@ =~= program_ops(old(self)@, shader@) + (blend_depth_ops(st1, shader@)
                    + bind_ops(old(group)@) + pointer_ops(shader@)));
            }
        }
        ops.push(RenderOp::DrawTriangles { count: group.len() });
        proof {
            assert(ops@ =~= draw_ops(old(self)@, shader@, old(group)@));
        }
        ops
    }

    /// Bind a texture only if it is not the bound one.
    pub fn bind_graphic(&mut self, graphic: &Graphic) -> (ops: Vec<RenderOp>)
        ensures
            ops@ == (if graphic@.id != old(self)@.texture {
                seq![RenderOp::BindTexture { texture: graphic@.id }]
            } else {
                Seq::<RenderOp>::empty()
            }),
            final(self)@ == (DrawStateView { texture: graphic@.id, ..old(self)@ }),
    {
        let mut ops: Vec<RenderOp> = Vec::new();
        if graphic.id() != self.texture {
            ops.push(RenderOp::BindTexture { texture: graphic.id() });
            self.texture = graphic.id();
        }
        proof {
            assert(ops@ =~= (if graphic@.id != old(self)@.texture {
                seq![RenderOp::BindTexture { texture: graphic@.id }]
            } else {
                Seq::<RenderOp>::empty()
            }));
        }
        ops
    }

    /// Upload the camera matrix for a shader that has one: bind its
    /// program if needed, then load the uniform.  A shader without depth
    /// has no camera, and nothing is emitted.
    pub fn camera(&mut self, shader: &Shader) -> (ops: Vec<RenderOp>)
        ensures
            shader@.depth matches Some(loc) ==> ops@ == program_ops(old(self)@, shader@) + seq![
                RenderOp::LoadCamera { location: loc },
            ] && final(self)@ == program_next(old(self)@, shader@),
            shader@.depth is None ==> ops@ == Seq::<RenderOp>::empty() && *final(self) == *old(
                self,
            ),
    {
        match shader.depth() {
            Some(loc) => {
                let mut ops = self.apply_program(shader);
                ops.push(RenderOp::LoadCamera { location: loc });
                ops
            },
            None => Vec::new(),
        }
    }

    /// Upload the tint for a shader that has one: bind its program if
    /// needed, then load the uniform.  A shader without a tint uniform
    /// emits nothing.
    pub fn tint(&mut self, shader: &Shader) -> (ops: Vec<RenderOp>)
        ensures
            shader@.tint matches Some(loc) ==> ops@ == program_ops(old(self)@, shader@) + seq![
                RenderOp::LoadTint { location: loc },
            ] && final(self)@ == program_next(old(self)@, shader@),
            shader@.tint is None ==> ops@ == Seq::<RenderOp>::empty() && *final(self) == *old(
                self,
            ),
    {
        match shader.tint() {
            Some(loc) => {
                let mut ops = self.apply_program(shader);
                ops.push(RenderOp::LoadTint { location: loc });
                ops
            },
            None => Vec::new(),
        }
    }

    /// End a frame: disable whatever arrays are still enabled, then the
    /// position array, and present.
    pub fn finish_frame(&mut self) -> (ops: Vec<RenderOp>)
        ensures
            ops@ == (if old(self)@.vaa_col {
                seq![RenderOp::DisableAttribArray { attrib: Attrib::Color }]
            } else {
                Seq::<RenderOp>::empty()
            }) + (if old(self)@.vaa_tex {
                seq![RenderOp::DisableAttribArray { attrib: Attrib::TexCoord }]
            } else {
                Seq::<RenderOp>::empty()
            }) + seq![
                RenderOp::DisableAttribArray { attrib: Attrib::Position },
                RenderOp::Swap,
            ],
            final(self)@ == (DrawStateView { vaa_col: false, vaa_tex: false, ..old(self)@ }),
    {
        let mut ops: Vec<RenderOp> = Vec::new();
        if self.vaa_col {
            ops.push(RenderOp::DisableAttribArray { attrib: Attrib::Color });
            self.vaa_col = false;
        }
        if self.vaa_tex {
            ops.push(RenderOp::DisableAttribArray { attrib: Attrib::TexCoord });
            self.vaa_tex = false;
        }
        ops.push(RenderOp::DisableAttribArray { attrib: Attrib::Position });
        ops.push(RenderOp::Swap);
        proof {
            assert(ops@ =~= (if old(self)@.vaa_col {
                seq![RenderOp::DisableAttribArray { attrib: Attrib::Color }]
            } else {
                Seq::<RenderOp>::empty()
            }) + (if old(self)@.vaa_tex {
                seq![RenderOp::DisableAttribArray { attrib: Attrib::TexCoord }]
            } else {
                Seq::<RenderOp>::empty()
            }) + seq![
                RenderOp::DisableAttribArray { attrib: Attrib::Position },
                RenderOp::Swap,
            ]);
        }
        ops
    }
}

} // verus!
