//! Shared vertex/index buffers: many shapes batched into one draw call.
//!
//! A group owns one vertex and one index buffer on the device.  Pushing a
//! shape places its records once more (so one shape can be stamped into a
//! group at several placements), remaps its texture coordinates into an
//! atlas region, and appends its indices offset by the records already
//! stored — no deduplication across shapes.  Uploading is deferred:
//! [`Group::bind`] emits a reallocation when the buffer grew and a plain
//! overwrite otherwise.

use vstd::prelude::*;

use crate::draw::RenderOp;
use crate::error::RenderError;
use crate::shape::Shape;
use crate::shape::to_records;
use crate::vertex::TexRemap;
use crate::vertex::VertexMath;
use crate::vertex::ZERO_BITS;

verus! {

/// The record a group stores for record `i` of a shape's vertex buffer:
/// the placed position, the color components unchanged, and the remapped
/// texture coordinates when the layout carries any.
pub open spec fn grouped_rec<T: VertexMath, M: TexRemap>(
    t: T,
    m: M,
    sverts: Seq<u32>,
    dims: nat,
    comps: nat,
    stride: nat,
    i: int,
) -> Seq<u32>
    recommends
        dims == 2 || dims == 3,
        stride == dims + comps || stride == dims + comps + 2,
        0 <= i,
        (i + 1) * stride <= sverts.len(),
{
    let base = i * (stride as int);
    let pos = if dims == 2 {
        let p = t.map_spec(sverts[base], sverts[base + 1], ZERO_BITS);
        seq![p.0, p.1]
    } else {
        let p = t.map_spec(sverts[base], sverts[base + 1], sverts[base + 2]);
        seq![p.0, p.1, p.2]
    };
    let colors = sverts.subrange(base + dims as int, base + dims as int + comps as int);
    if stride == dims + comps + 2 {
        let uv = m.remap_spec(
            sverts[base + dims as int + comps as int],
            sverts[base + dims as int + comps as int + 1],
        );
        pos + colors + seq![uv.0, uv.1]
    } else {
        pos + colors
    }
}

/// Every record of a shape's vertex buffer, placed and remapped.
pub open spec fn grouped_records<T: VertexMath, M: TexRemap>(
    t: T,
    m: M,
    sverts: Seq<u32>,
    dims: nat,
    comps: nat,
    stride: nat,
) -> Seq<Seq<u32>>
    recommends
        stride > 0,
{
    Seq::new(sverts.len() / stride, |i: int| grouped_rec::<T, M>(t, m, sverts, dims, comps, stride, i))
}

/// A shape's indices, shifted past the records a group already stores.
pub open spec fn offset_indices(inds: Seq<u32>, off: u32) -> Seq<u32> {
    inds.map_values(|x: u32| ((x + off) as u32))
}

/// The mathematical content of a group.
pub struct GroupView {
    pub vertex_buffer: u32,
    pub index_buffer: u32,
    /// Layout of the stored records; zero until the first push fixes it.
    pub dimensions: u32,
    pub components: u32,
    pub stride: u32,
    pub indices: Seq<u32>,
    pub vertices: Seq<u32>,
    /// Scalars the device-side vertex buffer has room for.
    pub gpu_vertex_len: usize,
    /// Indices the device-side index buffer has room for.
    pub gpu_index_len: usize,
    /// Whether the stored data is newer than the device's copy.
    pub dirty: bool,
}

/// A shared vertex/index buffer many shapes are batched into.
#[derive(Debug)]
pub struct Group {
    vertex_buffer: u32,
    index_buffer: u32,
    dimensions: u32,
    components: u32,
    stride: u32,
    indices: Vec<u32>,
    vertices: Vec<u32>,
    gpu_vertex_len: usize,
    gpu_index_len: usize,
    dirty: bool,
}

impl View for Group {
    type V = GroupView;

    closed spec fn view(&self) -> GroupView {
        GroupView {
            vertex_buffer: self.vertex_buffer,
            index_buffer: self.index_buffer,
            dimensions: self.dimensions,
            components: self.components,
            stride: self.stride,
            indices: self.indices@,
            vertices: self.vertices@,
            gpu_vertex_len: self.gpu_vertex_len,
            gpu_index_len: self.gpu_index_len,
            dirty: self.dirty,
        }
    }
}

/// The commands that bring the device's two buffers up to date and bind
/// them: on changed data a reallocation where the buffer grew past what
/// the device has room for and a plain overwrite otherwise, then the two
/// binds.
pub open spec fn bind_ops(g: GroupView) -> Seq<RenderOp> {
    (if g.dirty {
        (if g.vertices.len() > g.gpu_vertex_len {
            seq![RenderOp::ResizeVertexBuffer { buffer: g.vertex_buffer, len: g.vertices.len() as usize }]
        } else {
            seq![RenderOp::WriteVertexBuffer { buffer: g.vertex_buffer, len: g.vertices.len() as usize }]
        }) + (if g.indices.len() > g.gpu_index_len {
            seq![RenderOp::ResizeIndexBuffer { buffer: g.index_buffer, len: g.indices.len() as usize }]
        } else {
            seq![RenderOp::WriteIndexBuffer { buffer: g.index_buffer, len: g.indices.len() as usize }]
        })
    } else {
        Seq::<RenderOp>::empty()
    }) + seq![
        RenderOp::BindIndexBuffer { buffer: g.index_buffer },
        RenderOp::BindVertexBuffer { buffer: g.vertex_buffer },
    ]
}

/// A group's state once [`Group::bind`]'s commands have run: the device
/// holds the data, with room for what a reallocation grew.
pub open spec fn bound_group(g: GroupView) -> GroupView {
    GroupView {
        dirty: false,
        gpu_vertex_len: (if g.dirty && g.vertices.len() > g.gpu_vertex_len {
            g.vertices.len() as usize
        } else {
            g.gpu_vertex_len
        }),
        gpu_index_len: (if g.dirty && g.indices.len() > g.gpu_index_len {
            g.indices.len() as usize
        } else {
            g.gpu_index_len
        }),
        ..g
    }
}

impl Group {
    /// An empty group stores no records and no layout; a non-empty group
    /// stores whole records of one layout, and every index names a
    /// stored record.
    pub open spec fn wf(&self) -> bool {
        &&& (self@.stride == 0 ==> self@.vertices.len() == 0 && self@.indices.len() == 0)
        &&& (self@.stride != 0 ==> {
            &&& (self@.dimensions == 2 || self@.dimensions == 3)
            &&& (self@.components == 0 || self@.components == 3 || self@.components == 4)
            &&& (self@.stride == self@.dimensions + self@.components || self@.stride
                == self@.dimensions + self@.components + 2)
            &&& self@.vertices.len() as int % self@.stride as int == 0
            &&& forall|k: int|
                0 <= k < self@.indices.len() ==> ((#[trigger] self@.indices[k]) as int)
                    < self@.vertices.len() as int / self@.stride as int
        })
    }

    /// The stored vertex records.
    pub open spec fn recs(&self) -> Seq<Seq<u32>> {
        if self@.stride == 0 {
            Seq::<Seq<u32>>::empty()
        } else {
            to_records(self@.vertices, self@.stride as nat)
        }
    }

    /// A fresh, empty group over the two given device buffers.
    pub fn new(vertex_buffer: u32, index_buffer: u32) -> (g: Group)
        ensures
            g.wf(),
            g@ == (GroupView {
                vertex_buffer,
                index_buffer,
                dimensions: 0,
                components: 0,
                stride: 0,
                indices: Seq::<u32>::empty(),
                vertices: Seq::<u32>::empty(),
                gpu_vertex_len: 0,
                gpu_index_len: 0,
                dirty: false,
            }),
    {
        Group {
            vertex_buffer,
            index_buffer,
            dimensions: 0,
            components: 0,
            stride: 0,
            indices: Vec::new(),
            vertices: Vec::new(),
            gpu_vertex_len: 0,
            gpu_index_len: 0,
            dirty: false,
        }
    }

    /// The number of indices to draw.
    pub fn len(&self) -> (r: usize)
        ensures
            r == self@.indices.len(),
    {
        self.indices.len()
    }

    /// The identity of this group, for the draw-state cache.
    pub fn id(&self) -> (r: u32)
        ensures
            r == self@.index_buffer,
    {
        self.index_buffer
    }

    /// The flat vertex buffer, for uploading.
    pub fn vertices(&self) -> (r: &Vec<u32>)
        ensures
            r@ == self@.vertices,
    {
        &self.vertices
    }

    /// The index buffer, for uploading.
    pub fn indices(&self) -> (r: &Vec<u32>)
        ensures
            r@ == self@.indices,
    {
        &self.indices
    }

    /// Push one shape into the group under a placement, remapping its
    /// texture coordinates into an atlas region.
    ///
    /// Fails when the group already stores records of a different
    /// layout.  Otherwise the shape's records are placed and appended
    /// without deduplication, and its indices follow, shifted past the
    /// records the group already stored.  The size bound keeps every
    /// shifted index representable in the device's 32-bit index type.
    #[verifier::loop_isolation(false)]
    #[verifier::rlimit(100)]
    pub fn push_tex<T: VertexMath, M: TexRemap>(
        &mut self,
        shape: &Shape,
        t: &T,
        m: &M,
    ) -> (r: Result<(), RenderError>)
        requires
            old(self).wf(),
            shape.wf(),
            old(self)@.vertices.len() + shape@.vertices.len() <= u32::MAX,
        ensures
            final(self).wf(),
            (old(self)@.stride != 0 && (old(self)@.stride != shape@.stride
                || old(self)@.dimensions != shape@.dimensions || old(self)@.components
                != shape@.components)) ==> r == Err::<(), RenderError>(
                RenderError::MalformedVertexData {
                    expected_stride: old(self)@.stride,
                    actual_len: shape@.vertices.len() as usize,
                },
            ) && *final(self) == *old(self),
            !(old(self)@.stride != 0 && (old(self)@.stride != shape@.stride
                || old(self)@.dimensions != shape@.dimensions || old(self)@.components
                != shape@.components)) ==> ({
                let gr = grouped_records::<T, M>(
                    *t,
                    *m,
                    shape@.vertices,
                    shape@.dimensions as nat,
                    shape@.components as nat,
                    shape@.stride as nat,
                );
                let off = old(self)@.vertices.len() as int / shape@.stride as int;
                &&& r == Ok::<(), RenderError>(())
                &&& final(self).recs() == old(self).recs() + gr
                &&& final(self)@.indices == old(self)@.indices + offset_indices(
                    shape@.indices,
                    off as u32,
                )
                &&& final(self)@.dimensions == shape@.dimensions
                &&& final(self)@.components == shape@.components
                &&& final(self)@.stride == shape@.stride
                &&& final(self)@.vertex_buffer == old(self)@.vertex_buffer
                &&& final(self)@.index_buffer == old(self)@.index_buffer
                &&& final(self)@.gpu_vertex_len == old(self)@.gpu_vertex_len
                &&& final(self)@.gpu_index_len == old(self)@.gpu_index_len
                &&& final(self)@.dirty
            }),
    {
        if self.stride != 0 && (self.stride != shape.stride() || self.dimensions
            != shape.dimensions() || self.components != shape.components()) {
            return Err(
                RenderError::MalformedVertexData {
                    expected_stride: self.stride,
                    actual_len: shape.vertices().len(),
                },
            );
        }
        let ghost started_empty = self@.stride == 0;
        let ghost recs0 = self.recs();
        let ghost inds0 = self@.indices;
        let ghost verts0 = self@.vertices;
        self.dimensions = shape.dimensions();
        self.components = shape.components();
        self.stride = shape.stride();
        let stride: usize = self.stride as usize;
        let dims: usize = self.dimensions as usize;
        let comps: usize = self.components as usize;
        let ghost stride_n = shape@.stride as nat;
        let ghost dims_n = shape@.dimensions as nat;
        let ghost comps_n = shape@.components as nat;
        proof {
            assert(recs0 == self.recs());
            if !started_empty {
                assert(verts0.len() as int % stride as int == 0);
            } else {
                assert(verts0.len() == 0);
                assert(verts0.len() as int % stride as int == 0);
            }
            vstd::arithmetic::div_mod::lemma_fundamental_div_mod(
                verts0.len() as int,
                stride as int,
            );
        }
        let n_slots0: usize = self.vertices.len() / stride;
        let off: u32 = n_slots0 as u32;
        proof {
            assert(n_slots0 * stride == verts0.len()) by (nonlinear_arith)
                requires
                    verts0.len() as int == stride as int * (n_slots0 as int),
            ;
            assert(n_slots0 <= verts0.len()) by (nonlinear_arith)
                requires
                    n_slots0 * stride == verts0.len(),
                    stride >= 1,
            ;
            assert(recs0.len() == n_slots0);
        }
        let ghost gr = grouped_records::<T, M>(
            *t,
            *m,
            shape@.vertices,
            dims_n,
            comps_n,
            stride_n,
        );
        // Shift the shape's indices past the records already stored.
        let sinds: &Vec<u32> = shape.indices();
        let n_i: usize = sinds.len();
        let ghost shape_slots = shape@.vertices.len() as int / shape@.stride as int;
        proof {
            vstd::arithmetic::div_mod::lemma_fundamental_div_mod(
                shape@.vertices.len() as int,
                stride as int,
            );
            assert(shape_slots * stride == shape@.vertices.len()) by (nonlinear_arith)
                requires
                    shape@.vertices.len() as int == stride as int * shape_slots,
            ;
            assert((shape_slots + n_slots0) * stride == shape@.vertices.len() + verts0.len())
                by (nonlinear_arith)
                requires
                    shape_slots * stride == shape@.vertices.len(),
                    n_slots0 * stride == verts0.len(),
            ;
            assert(shape_slots + n_slots0 <= shape@.vertices.len() + verts0.len())
                by (nonlinear_arith)
                requires
                    (shape_slots + n_slots0) * stride == shape@.vertices.len() + verts0.len(),
                    stride >= 1,
            ;
        }
        let mut i: usize = 0;
        while i < n_i
            invariant
                i <= n_i,
                self@.indices == inds0 + offset_indices(shape@.indices.take(i as int), off),
                self@.vertices == verts0,
                self@.dimensions == shape@.dimensions,
                self@.components == shape@.components,
                self@.stride == shape@.stride,
                self@.vertex_buffer == old(self)@.vertex_buffer,
                self@.index_buffer == old(self)@.index_buffer,
                self@.gpu_vertex_len == old(self)@.gpu_vertex_len,
                self@.gpu_index_len == old(self)@.gpu_index_len,
                self@.dirty == old(self)@.dirty,
            decreases n_i - i,
        {
            let v: u32 = sinds[i];
            proof {
                assert((v as int) < shape_slots);
            }
            self.indices.push(v + off);
            proof {
                assert(offset_indices(shape@.indices.take(i as int + 1), off)
                    =~= offset_indices(shape@.indices.take(i as int), off).push(
                    ((shape@.indices[i as int] + off) as u32),
                ));
                assert(self@.indices =~= inds0 + offset_indices(
                    shape@.indices.take(i as int + 1),
                    off,
                ));
            }
            i += 1;
        }
        proof {
            assert(shape@.indices.take(n_i as int) =~= shape@.indices);
        }
        // Append the shape's records, placed and remapped.
        let sverts: &Vec<u32> = shape.vertices();
        let n_r: usize = sverts.len() / stride;
        proof {
            assert(n_r == shape_slots);
            assert(gr.len() == n_r);
        }
        let mut r_i: usize = 0;
        let mut base: usize = 0;
        while r_i < n_r
            invariant
                r_i <= n_r,
                base == r_i * stride,
                self@.vertices.len() == verts0.len() + r_i * stride,
                self@.vertices.len() as int % stride as int == 0,
                to_records(self@.vertices, stride_n) == recs0 + gr.take(r_i as int),
                self@.indices == inds0 + offset_indices(shape@.indices, off),
                self@.dimensions == shape@.dimensions,
                self@.components == shape@.components,
                self@.stride == shape@.stride,
                self@.vertex_buffer == old(self)@.vertex_buffer,
                self@.index_buffer == old(self)@.index_buffer,
                self@.gpu_vertex_len == old(self)@.gpu_vertex_len,
                self@.gpu_index_len == old(self)@.gpu_index_len,
                self@.dirty == old(self)@.dirty,
            decreases n_r - r_i,
        {
            proof {
                assert(base + stride <= n_r * stride) by (nonlinear_arith)
                    requires
                        base == r_i * stride,
                        r_i < n_r,
                ;
                assert((r_i as int + 1) * (stride as int) == base + stride) by (nonlinear_arith)
                    requires
                        base == r_i * stride,
                ;
            }
            let ghost target = grouped_rec::<T, M>(
                *t,
                *m,
                shape@.vertices,
                dims_n,
                comps_n,
                stride_n,
                r_i as int,
            );
            let mut rec: Vec<u32> = Vec::new();
            if dims == 2 {
                let p = t.map_point(sverts[base], sverts[base + 1], ZERO_BITS);
                rec.push(p.0);
                rec.push(p.1);
                proof {
                    assert(target.take(dims as int) =~= seq![p.0, p.1]);
                    assert(rec@ =~= target.take(dims as int));
                }
            } else {
                let p = t.map_point(sverts[base], sverts[base + 1], sverts[base + 2]);
                rec.push(p.0);
                rec.push(p.1);
                rec.push(p.2);
                proof {
                    assert(target.take(dims as int) =~= seq![p.0, p.1, p.2]);
                    assert(rec@ =~= target.take(dims as int));
                }
            }
            let mut k: usize = 0;
            while k < comps
                invariant
                    k <= comps,
                    rec@ == target.take((dims + k) as int),
                decreases comps - k,
            {
                rec.push(sverts[base + dims + k]);
                proof {
                    assert(target[(dims + k) as int] == shape@.vertices[(base + dims + k) as int]);
                    assert(target.take((dims + k + 1) as int) =~= target.take(
                        (dims + k) as int,
                    ).push(target[(dims + k) as int]));
                }
                k += 1;
            }
            if dims + comps + 2 == stride {
                let uv = m.remap(sverts[base + dims + comps], sverts[base + dims + comps + 1]);
                rec.push(uv.0);
                rec.push(uv.1);
                proof {
                    assert(target[(dims + comps) as int] == uv.0);
                    assert(target[(dims + comps + 1) as int] == uv.1);
                    assert(rec@ =~= target);
                }
            } else {
                proof {
                    assert(rec@ =~= target);
                }
            }
            proof {
                assert(rec@.len() == stride);
                assert(gr[r_i as int] == target);
            }
            let ghost vsnap = self@.vertices;
            let mut k3: usize = 0;
            while k3 < stride
                invariant
                    k3 <= stride,
                    self@.vertices == vsnap + rec@.take(k3 as int),
                    self@.indices == inds0 + offset_indices(shape@.indices, off),
                    self@.dimensions == shape@.dimensions,
                    self@.components == shape@.components,
                    self@.stride == shape@.stride,
                    self@.vertex_buffer == old(self)@.vertex_buffer,
                    self@.index_buffer == old(self)@.index_buffer,
                    self@.gpu_vertex_len == old(self)@.gpu_vertex_len,
                    self@.gpu_index_len == old(self)@.gpu_index_len,
                    self@.dirty == old(self)@.dirty,
                decreases stride - k3,
            {
                self.vertices.push(rec[k3]);
                proof {
                    assert(rec@.take(k3 as int + 1) =~= rec@.take(k3 as int).push(rec@[k3 as int]));
                }
                k3 += 1;
            }
            proof {
                assert(self@.vertices =~= vsnap + rec@);
                crate::shape::lemma_to_records_push(vsnap, stride_n, rec@);
                assert(gr.take(r_i as int + 1) =~= gr.take(r_i as int).push(gr[r_i as int]));
                assert(to_records(self@.vertices, stride_n) == recs0 + gr.take(r_i as int + 1));
                assert((r_i as int + 1) * (stride as int) == r_i * stride + stride)
                    by (nonlinear_arith);
                vstd::arithmetic::div_mod::lemma_mod_multiples_vanish(
                    1,
                    vsnap.len() as int,
                    stride as int,
                );
            }
            r_i += 1;
            base += stride;
        }
        self.dirty = true;
        proof {
            assert(gr.take(n_r as int) =~= gr);
            // Well-formedness of the grown group.
            let vl = self@.vertices.len() as int;
            let s = stride as int;
            let n0 = n_slots0 as int;
            let nr = n_r as int;
            let v0l = verts0.len() as int;
            let total = n0 + nr;
            assert(vl == v0l + nr * s);
            assert(v0l == n0 * s);
            assert(vl == s * total) by (nonlinear_arith)
                requires
                    vl == v0l + nr * s,
                    v0l == n0 * s,
                    total == n0 + nr,
            ;
            assert(vl == total * s + 0) by (nonlinear_arith)
                requires
                    vl == s * total,
            ;
            vstd::arithmetic::div_mod::lemma_fundamental_div_mod_converse(
                vl,
                stride as int,
                total,
                0,
            );
            assert(vl % (self@.stride as int) == 0);
            assert(vl / (self@.stride as int) == total);
            assert forall|kk: int|
                0 <= kk < self@.indices.len() implies ((#[trigger] self@.indices[kk]) as int)
                < vl / (self@.stride as int) by {
                if kk < inds0.len() {
                    assert(self@.indices[kk] == inds0[kk]);
                    assert((inds0[kk] as int) < n_slots0 as int);
                } else {
                    let x = shape@.indices[kk - inds0.len()];
                    assert(self@.indices[kk] == ((x + off) as u32));
                    assert((x as int) < shape_slots);
                }
            }
        }
        Ok(())
    }

    /// Push one shape into the group under a placement, with its texture
    /// coordinates kept as they are.
    pub fn push<T: VertexMath>(&mut self, shape: &Shape, t: &T) -> (r: Result<(), RenderError>)
        requires
            old(self).wf(),
            shape.wf(),
            old(self)@.vertices.len() + shape@.vertices.len() <= u32::MAX,
        ensures
            final(self).wf(),
            (old(self)@.stride != 0 && (old(self)@.stride != shape@.stride
                || old(self)@.dimensions != shape@.dimensions || old(self)@.components
                != shape@.components)) ==> r == Err::<(), RenderError>(
                RenderError::MalformedVertexData {
                    expected_stride: old(self)@.stride,
                    actual_len: shape@.vertices.len() as usize,
                },
            ) && *final(self) == *old(self),
            !(old(self)@.stride != 0 && (old(self)@.stride != shape@.stride
                || old(self)@.dimensions != shape@.dimensions || old(self)@.components
                != shape@.components)) ==> ({
                let gr = grouped_records::<T, crate::vertex::ExactMath>(
                    *t,
                    crate::vertex::ExactMath,
                    shape@.vertices,
                    shape@.dimensions as nat,
                    shape@.components as nat,
                    shape@.stride as nat,
                );
                let off = old(self)@.vertices.len() as int / shape@.stride as int;
                &&& r == Ok::<(), RenderError>(())
                &&& final(self).recs() == old(self).recs() + gr
                &&& final(self)@.indices == old(self)@.indices + offset_indices(
                    shape@.indices,
                    off as u32,
                )
                &&& final(self)@.dimensions == shape@.dimensions
                &&& final(self)@.components == shape@.components
                &&& final(self)@.stride == shape@.stride
                &&& final(self)@.vertex_buffer == old(self)@.vertex_buffer
                &&& final(self)@.index_buffer == old(self)@.index_buffer
                &&& final(self)@.gpu_vertex_len == old(self)@.gpu_vertex_len
                &&& final(self)@.gpu_index_len == old(self)@.gpu_index_len
                &&& final(self)@.dirty
            }),
    {
        self.push_tex(shape, t, &crate::vertex::ExactMath)
    }

    /// Bring the device's buffers up to date and bind them.
    pub fn bind(&mut self) -> (ops: Vec<RenderOp>)
        ensures
            ops@ == bind_ops(old(self)@),
            final(self)@ == bound_group(old(self)@),
            old(self).wf() ==> final(self).wf(),
    {
        let mut ops: Vec<RenderOp> = Vec::new();
        if self.dirty {
            if self.vertices.len() > self.gpu_vertex_len {
                ops.push(
                    RenderOp::ResizeVertexBuffer {
                        buffer: self.vertex_buffer,
                        len: self.vertices.len(),
                    },
                );
                self.gpu_vertex_len = self.vertices.len();
            } else {
                ops.push(
                    RenderOp::WriteVertexBuffer {
                        buffer: self.vertex_buffer,
                        len: self.vertices.len(),
                    },
                );
            }
            if self.indices.len() > self.gpu_index_len {
                ops.push(
                    RenderOp::ResizeIndexBuffer {
                        buffer: self.index_buffer,
                        len: self.indices.len(),
                    },
                );
                self.gpu_index_len = self.indices.len();
            } else {
                ops.push(
                    RenderOp::WriteIndexBuffer {
                        buffer: self.index_buffer,
                        len: self.indices.len(),
                    },
                );
            }
            self.dirty = false;
        }
        ops.push(RenderOp::BindIndexBuffer { buffer: self.index_buffer });
        ops.push(RenderOp::BindVertexBuffer { buffer: self.vertex_buffer });
        proof {
            assert(ops@ =~= bind_ops(old(self)@));
        }
        ops
    }
}

} // verus!
