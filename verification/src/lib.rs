//! The verified core of a minimal window-and-rendering toolkit.
//!
//! The library holds the parts of a renderer that are worth proving: the
//! shader-capability record and the vertex layout (stride) it implies, the
//! geometry compiler that deduplicates vertex records into shared
//! vertex/index buffers, the mip-chain arithmetic of the texture manager,
//! and the draw-state cache that emits at most one state-changing command
//! per distinguishable transition.
//!
//! The core performs no device calls itself.  Vertex scalars are carried as
//! IEEE-754 single-precision bit patterns (`u32`); the floating-point
//! arithmetic on them, like the device commands, is supplied by the caller:
//! transforms enter through the [`VertexMath`] trait, and every device
//! decision leaves as a list of symbolic commands ([`RenderOp`]) for the
//! caller to execute.

mod draw;
mod error;
mod graphic;
mod group;
mod shader;
mod shape;
mod vertex;

pub use draw::DrawState;
pub use draw::DrawStateView;
pub use draw::NO_GROUP;
pub use draw::RenderOp;
pub use draw::blend_depth_ops;
pub use draw::draw_next;
pub use draw::draw_ops;
pub use draw::pointer_ops;
pub use draw::program_next;
pub use draw::program_ops;
pub use draw::program_bind_count;
pub use draw::lemma_state_cache_minimality;
pub use error::RenderError;
pub use graphic::Graphic;
pub use graphic::GraphicView;
pub use graphic::MipLevel;
pub use graphic::RasterId;
pub use graphic::lemma_mip_plan_halves;
pub use graphic::lemma_mip_plan_in_bounds;
pub use graphic::mip_plan;
pub use graphic::mip_tail;
pub use group::Group;
pub use group::GroupView;
pub use group::bind_ops;
pub use group::bound_group;
pub use group::grouped_rec;
pub use group::grouped_records;
pub use group::offset_indices;
pub use error::ShaderStage;
pub use error::UniformName;
pub use shader::Attrib;
pub use shader::ProgramReport;
pub use shader::Shader;
pub use shader::ShaderBuilder;
pub use shader::ShaderView;
pub use shader::attrib_bindings;
pub use shape::Shape;
pub use shape::ShapeBuilder;
pub use shape::ShapeBuilderView;
pub use shape::ShapeView;
pub use shape::dedup_indices;
pub use shape::dedup_records;
pub use shape::first_match;
pub use shape::insert_record;
pub use shape::lemma_dedup_idempotent;
pub use shape::placed_rec;
pub use shape::placed_records;
pub use shape::rec_matches;
pub use shape::slot_for;
pub use shape::to_records;
pub use vertex::ExactMath;
pub use vertex::TexRemap;
pub use vertex::VertexMath;
