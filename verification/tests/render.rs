use window::Attrib;
use window::DrawState;
use window::ExactMath;
use window::Graphic;
use window::Group;
use window::MipLevel;
use window::ProgramReport;
use window::RenderError;
use window::RenderOp;
use window::Shader;
use window::ShaderBuilder;
use window::ShaderStage;
use window::ShapeBuilder;
use window::UniformName;
use window::attrib_bindings;

fn builder(depth: bool, gradient: bool, graphic: bool, blend: bool, tint: bool) -> ShaderBuilder {
    ShaderBuilder {
        tint,
        gradient,
        graphic,
        depth,
        blend,
        opengl_frag: "",
        opengl_vert: "",
    }
}

fn report(program: u32) -> ProgramReport {
    ProgramReport {
        program,
        fragment_status: 1,
        vertex_status: 1,
        link_status: 1,
        camera_location: 3,
        tint_location: 4,
    }
}

#[test]
fn shader_reports_fragment_failure_first() {
    let mut r = report(1);
    r.fragment_status = 0;
    r.vertex_status = 0;
    let e = Shader::new(builder(false, false, false, false, false), r).unwrap_err();
    assert_eq!(e, RenderError::ShaderCompileError { stage: ShaderStage::Fragment });
}

#[test]
fn shader_reports_vertex_failure() {
    let mut r = report(1);
    r.vertex_status = 0;
    let e = Shader::new(builder(false, false, false, false, false), r).unwrap_err();
    assert_eq!(e, RenderError::ShaderCompileError { stage: ShaderStage::Vertex });
}

#[test]
fn shader_reports_link_failure() {
    let mut r = report(1);
    r.link_status = 0;
    let e = Shader::new(builder(false, false, false, false, false), r).unwrap_err();
    assert_eq!(e, RenderError::ShaderLinkError);
}

#[test]
fn shader_requires_camera_uniform_with_depth() {
    let mut r = report(1);
    r.camera_location = -1;
    let e = Shader::new(builder(true, false, false, false, false), r).unwrap_err();
    assert_eq!(e, RenderError::MissingUniform { name: UniformName::Camera });
    // Without depth the same report is fine.
    let mut r = report(1);
    r.camera_location = -1;
    assert!(Shader::new(builder(false, false, false, false, false), r).is_ok());
}

#[test]
fn shader_requires_tint_uniform_with_tint() {
    let mut r = report(1);
    r.tint_location = -1;
    let e = Shader::new(builder(false, false, false, false, true), r).unwrap_err();
    assert_eq!(e, RenderError::MissingUniform { name: UniformName::Tint });
}

#[test]
fn shader_keeps_program_and_locations() {
    let s = Shader::new(builder(true, true, true, true, true), report(9)).unwrap();
    assert_eq!(s.program(), 9);
    assert!(s.gradient());
    assert!(s.graphic());
    assert!(s.blending());
    assert_eq!(s.depth(), Some(3));
    assert_eq!(s.tint(), Some(4));
}

#[test]
fn attrib_bindings_follow_capabilities() {
    let v = attrib_bindings(&builder(false, false, false, false, false));
    assert_eq!(v, vec![(Attrib::Position, 0)]);
    let v = attrib_bindings(&builder(false, true, true, false, false));
    assert_eq!(v, vec![(Attrib::Position, 0), (Attrib::Color, 1), (Attrib::TexCoord, 2)]);
}

fn quad_group(vbuf: u32, ibuf: u32, shader: &Shader) -> Group {
    let mut b = ShapeBuilder::new(shader);
    let quad = [0.0f32, 0.0, 1.0, 0.0, 0.0, 1.0, 1.0, 0.0, 0.0, 1.0, 1.0, 1.0];
    let v: Vec<u32> = quad.iter().map(|x| x.to_bits()).collect();
    b.vert(&v).unwrap();
    b.face(&ExactMath).unwrap();
    let shape = b.finish().unwrap();
    let mut g = Group::new(vbuf, ibuf);
    g.push(&shape, &ExactMath).unwrap();
    g
}

fn count_program_binds(ops: &[RenderOp]) -> usize {
    ops.iter().filter(|op| matches!(op, RenderOp::UseProgram { .. })).count()
}

#[test]
fn alternating_shaders_bind_three_programs() {
    let s1 = Shader::new(builder(false, false, false, false, false), report(1)).unwrap();
    let s2 = Shader::new(builder(false, false, false, false, false), report(2)).unwrap();
    let mut g = quad_group(10, 11, &s1);
    let mut st = DrawState::new();
    let mut recorded: Vec<RenderOp> = Vec::new();
    recorded.extend(st.begin_frame());
    let before = count_program_binds(&recorded);
    assert_eq!(before, 0);
    recorded.extend(st.draw(&s1, &mut g));
    recorded.extend(st.draw(&s1, &mut g));
    recorded.extend(st.draw(&s2, &mut g));
    recorded.extend(st.draw(&s1, &mut g));
    recorded.extend(st.finish_frame());
    assert_eq!(count_program_binds(&recorded), 3);
}

#[test]
fn redundant_draw_changes_no_state() {
    let s1 = Shader::new(builder(false, false, false, false, false), report(1)).unwrap();
    let mut g = quad_group(10, 11, &s1);
    let mut st = DrawState::new();
    st.begin_frame();
    st.draw(&s1, &mut g);
    // Same shader, same geometry: only the draw call itself remains.
    let ops = st.draw(&s1, &mut g);
    assert_eq!(ops, vec![RenderOp::DrawTriangles { count: 6 }]);
}

#[test]
fn draw_emits_pointers_for_layout() {
    let s = Shader::new(builder(true, true, true, false, false), report(5)).unwrap();
    // Layout: 3 position, 3 color, 2 texture = stride 8, 32 bytes.
    let mut b = ShapeBuilder::new(&s);
    let mut g = Group::new(20, 21);
    b.face(&ExactMath).unwrap();
    let shape = b.finish().unwrap();
    g.push(&shape, &ExactMath).unwrap();
    let mut st = DrawState::new();
    st.begin_frame();
    let ops = st.draw(&s, &mut g);
    assert!(ops.contains(&RenderOp::AttribPointer {
        attrib: Attrib::Position,
        size: 3,
        stride_bytes: 32,
        offset_bytes: 0,
    }));
    assert!(ops.contains(&RenderOp::AttribPointer {
        attrib: Attrib::Color,
        size: 3,
        stride_bytes: 32,
        offset_bytes: 12,
    }));
    assert!(ops.contains(&RenderOp::AttribPointer {
        attrib: Attrib::TexCoord,
        size: 2,
        stride_bytes: 32,
        offset_bytes: 24,
    }));
}

#[test]
fn texture_bind_is_idempotent() {
    let (g, _) = Graphic::new(7, vec![0u8; 64], 4, 4).unwrap();
    let mut st = DrawState::new();
    let ops = st.bind_graphic(&g);
    assert_eq!(ops, vec![RenderOp::BindTexture { texture: 7 }]);
    let ops = st.bind_graphic(&g);
    assert_eq!(ops, vec![]);
}

#[test]
fn camera_goes_through_depth_location() {
    let with_depth = Shader::new(builder(true, false, false, false, false), report(1)).unwrap();
    let without = Shader::new(builder(false, false, false, false, false), report(2)).unwrap();
    let mut st = DrawState::new();
    let ops = st.camera(&with_depth);
    assert_eq!(
        ops,
        vec![RenderOp::UseProgram { program: 1 }, RenderOp::LoadCamera { location: 3 }],
    );
    let ops = st.camera(&without);
    assert_eq!(ops, vec![]);
    let ops = st.tint(&with_depth);
    assert_eq!(ops, vec![]);
}

#[test]
fn frame_brackets_position_array() {
    let mut st = DrawState::new();
    let ops = st.begin_frame();
    assert_eq!(
        ops,
        vec![RenderOp::Clear, RenderOp::EnableAttribArray { attrib: Attrib::Position }],
    );
    let ops = st.finish_frame();
    assert_eq!(
        ops,
        vec![RenderOp::DisableAttribArray { attrib: Attrib::Position }, RenderOp::Swap],
    );
}

#[test]
fn graphic_upload_plan_walks_the_mip_chain() {
    // 4x4 base (64 bytes) + 2x2 (16) + 1x1 (4) = 84 bytes.
    let (g, plan) = Graphic::new(1, vec![0u8; 84], 4, 4).unwrap();
    assert_eq!(
        plan,
        vec![
            MipLevel { level: 0, width: 4, height: 4, offset: 0 },
            MipLevel { level: 1, width: 2, height: 2, offset: 64 },
            MipLevel { level: 2, width: 1, height: 1, offset: 80 },
        ],
    );
    assert_eq!(g.width(), 4);
    assert_eq!(g.height(), 5);  // the mirror keeps the mip tail too
}

#[test]
fn graphic_without_mip_data_uploads_base_only() {
    let (g, plan) = Graphic::new(1, vec![0u8; 64], 4, 4).unwrap();
    assert_eq!(plan, vec![MipLevel { level: 0, width: 4, height: 4, offset: 0 }]);
    assert_eq!(g.height(), 4);
}

#[test]
fn graphic_rejects_short_buffer_and_zero_dimension() {
    let e = Graphic::new(1, vec![0u8; 63], 4, 4).unwrap_err();
    assert_eq!(e, RenderError::MalformedGraphicData { width: 4, height: 4, actual_len: 63 });
    let e = Graphic::new(1, vec![0u8; 64], 0, 4).unwrap_err();
    assert_eq!(e, RenderError::MalformedGraphicData { width: 0, height: 4, actual_len: 64 });
}

#[test]
fn resize_rederives_height() {
    let (mut g, _) = Graphic::new(1, vec![0u8; 64], 4, 4).unwrap();
    g.resize(vec![9u8; 16], 2).unwrap();
    assert_eq!(g.width(), 2);
    assert_eq!(g.pixels().len(), 16);
    assert_eq!(g.height(), 2);
    let e = g.resize(vec![9u8; 16], 0).unwrap_err();
    assert_eq!(e, RenderError::MalformedGraphicData { width: 0, height: 0, actual_len: 16 });
}

#[test]
fn update_keeps_dimensions() {
    let (mut g, _) = Graphic::new(1, vec![0u8; 64], 4, 4).unwrap();
    g.update(vec![255u8; 64]).unwrap();
    assert_eq!(g.pixels(), &vec![255u8; 64]);
    assert_eq!(g.width(), 4);
    let e = g.update(vec![255u8; 60]).unwrap_err();
    assert_eq!(e, RenderError::MalformedGraphicData { width: 4, height: 0, actual_len: 60 });
}
