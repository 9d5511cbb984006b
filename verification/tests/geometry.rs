use window::ExactMath;
use window::Group;
use window::ProgramReport;
use window::RenderError;
use window::RenderOp;
use window::Shader;
use window::ShaderBuilder;
use window::ShapeBuilder;

fn builder(depth: bool, gradient: bool, graphic: bool, blend: bool) -> ShaderBuilder {
    ShaderBuilder {
        tint: false,
        gradient,
        graphic,
        depth,
        blend,
        opengl_frag: "",
        opengl_vert: "",
    }
}

fn ok_report(program: u32) -> ProgramReport {
    ProgramReport {
        program,
        fragment_status: 1,
        vertex_status: 1,
        link_status: 1,
        camera_location: 3,
        tint_location: 4,
    }
}

fn shader(depth: bool, gradient: bool, graphic: bool, blend: bool) -> Shader {
    Shader::new(builder(depth, gradient, graphic, blend), ok_report(1)).unwrap()
}

fn bits(v: &[f32]) -> Vec<u32> {
    v.iter().map(|x| x.to_bits()).collect()
}

/// A quad: two triangles sharing four unique positions, position-only
/// layout, identity placement.
const QUAD: [f32; 12] = [0.0, 0.0, 1.0, 0.0, 0.0, 1.0, 1.0, 0.0, 0.0, 1.0, 1.0, 1.0];

#[test]
fn quad_dedups_to_four_slots() {
    let sh = shader(false, false, false, false);
    let mut b = ShapeBuilder::new(&sh);
    b.vert(&bits(&QUAD)).unwrap();
    b.face(&ExactMath).unwrap();
    let shape = b.finish().unwrap();
    assert_eq!(shape.indices().len(), 6);
    assert_eq!(shape.stride(), 2);
    assert_eq!(shape.vertices().len() / shape.stride() as usize, 4);
    assert_eq!(shape.indices(), &vec![0u32, 1, 2, 1, 2, 3]);
}

#[test]
fn same_face_twice_adds_no_vertices() {
    let sh = shader(false, false, false, false);
    let mut b = ShapeBuilder::new(&sh);
    b.vert(&bits(&QUAD)).unwrap();
    b.face(&ExactMath).unwrap();
    b.face(&ExactMath).unwrap();
    let shape = b.finish().unwrap();
    assert_eq!(shape.indices().len(), 12);
    assert_eq!(shape.vertices().len() / shape.stride() as usize, 4);
    assert_eq!(shape.indices()[..6], shape.indices()[6..]);
}

#[test]
fn stride_follows_capability_flags() {
    for &depth in &[false, true] {
        for &gradient in &[false, true] {
            for &graphic in &[false, true] {
                for &blend in &[false, true] {
                    let sh = shader(depth, gradient, graphic, blend);
                    let dims = if depth { 3 } else { 2 };
                    let comps = if gradient {
                        if blend { 4 } else { 3 }
                    } else {
                        0
                    };
                    let tex = if graphic { 2 } else { 0 };
                    assert_eq!(sh.stride(), dims + comps + tex);
                    assert_eq!(sh.dims(), dims);
                    assert_eq!(sh.components(), comps);
                }
            }
        }
    }
}

#[test]
fn indivisible_vertex_data_is_malformed() {
    let sh = shader(false, false, false, false);
    let mut b = ShapeBuilder::new(&sh);
    b.vert(&bits(&[0.0, 0.0, 1.0])).unwrap();
    let e = b.face(&ExactMath).unwrap_err();
    assert_eq!(e, RenderError::MalformedVertexData { expected_stride: 2, actual_len: 3 });
}

#[test]
fn pass_through_components_are_kept() {
    // Gradient layout: two position coordinates, then three colors.
    let sh = shader(false, true, false, false);
    assert_eq!(sh.stride(), 5);
    let mut b = ShapeBuilder::new(&sh);
    let v = [0.5f32, 0.25, 0.1, 0.2, 0.3];
    b.vert(&bits(&v)).unwrap();
    b.face(&ExactMath).unwrap();
    let shape = b.finish().unwrap();
    assert_eq!(shape.vertices(), &bits(&v));
    assert_eq!(shape.indices(), &vec![0u32]);
}

#[test]
fn distinct_bit_patterns_take_distinct_slots() {
    // Exact matching tells 0.0 and -0.0 apart: two slots, not one.
    let sh = shader(false, false, false, false);
    let mut b = ShapeBuilder::new(&sh);
    b.vert(&bits(&[0.0, 0.0, -0.0, 0.0])).unwrap();
    b.face(&ExactMath).unwrap();
    let shape = b.finish().unwrap();
    assert_eq!(shape.indices(), &vec![0u32, 1]);
    assert_eq!(shape.vertices().len(), 4);
}

#[test]
fn finished_builder_refuses_more_work() {
    let sh = shader(false, false, false, false);
    let mut b = ShapeBuilder::new(&sh);
    b.vert(&bits(&QUAD)).unwrap();
    b.face(&ExactMath).unwrap();
    b.finish().unwrap();
    assert_eq!(b.finish().unwrap_err(), RenderError::GeometryAlreadyFinished);
    assert_eq!(b.vert(&bits(&QUAD)).unwrap_err(), RenderError::GeometryAlreadyFinished);
    assert_eq!(b.face(&ExactMath).unwrap_err(), RenderError::GeometryAlreadyFinished);
}

#[test]
fn empty_face_is_fine() {
    let sh = shader(false, false, false, false);
    let mut b = ShapeBuilder::new(&sh);
    b.face(&ExactMath).unwrap();
    let shape = b.finish().unwrap();
    assert_eq!(shape.indices().len(), 0);
    assert_eq!(shape.vertices().len(), 0);
}

fn quad_shape() -> window::Shape {
    let sh = shader(false, false, false, false);
    let mut b = ShapeBuilder::new(&sh);
    b.vert(&bits(&QUAD)).unwrap();
    b.face(&ExactMath).unwrap();
    b.finish().unwrap()
}

#[test]
fn group_offsets_second_shape() {
    let shape = quad_shape();
    let mut g = Group::new(10, 11);
    g.push(&shape, &ExactMath).unwrap();
    g.push(&shape, &ExactMath).unwrap();
    assert_eq!(g.len(), 12);
    assert_eq!(
        g.indices(),
        &vec![0u32, 1, 2, 1, 2, 3, 4, 5, 6, 5, 6, 7],
    );
    // No deduplication across shapes: both copies are stored.
    assert_eq!(g.vertices().len(), 16);
}

#[test]
fn group_rejects_mismatched_layout() {
    let shape = quad_shape();
    let sh3 = shader(true, false, false, false);
    let mut b = ShapeBuilder::new(&sh3);
    b.vert(&bits(&[0.0, 0.0, 0.0])).unwrap();
    b.face(&ExactMath).unwrap();
    let shape3 = b.finish().unwrap();
    let mut g = Group::new(10, 11);
    g.push(&shape, &ExactMath).unwrap();
    let e = g.push(&shape3, &ExactMath).unwrap_err();
    assert_eq!(
        e,
        RenderError::MalformedVertexData { expected_stride: 2, actual_len: 3 },
    );
}

#[test]
fn bind_reallocates_only_on_growth() {
    let shape = quad_shape();
    let mut g = Group::new(10, 11);
    g.push(&shape, &ExactMath).unwrap();
    let ops = g.bind();
    assert_eq!(
        ops,
        vec![
            RenderOp::ResizeVertexBuffer { buffer: 10, len: 8 },
            RenderOp::ResizeIndexBuffer { buffer: 11, len: 6 },
            RenderOp::BindIndexBuffer { buffer: 11 },
            RenderOp::BindVertexBuffer { buffer: 10 },
        ],
    );
    // Unchanged data: just the binds.
    let ops = g.bind();
    assert_eq!(
        ops,
        vec![
            RenderOp::BindIndexBuffer { buffer: 11 },
            RenderOp::BindVertexBuffer { buffer: 10 },
        ],
    );
    assert_eq!(g.id(), 11);
}
