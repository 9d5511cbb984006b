//! The geometry compiler: raw per-vertex scalars plus a placement become a
//! deduplicated vertex/index buffer.
//!
//! A vertex record is `stride` scalars: the position first, then the
//! pass-through components (colors, then texture coordinates) unchanged.
//! Adding a face places every record and then scans the records already
//! stored for this geometry, front to back; the first stored record whose
//! scalars are all equivalent to the candidate's lends its slot, and only
//! a candidate no stored record matches is appended.

use vstd::prelude::*;

use crate::error::RenderError;
use crate::shader::Shader;
use crate::vertex::VertexMath;
use crate::vertex::ZERO_BITS;

verus! {

/// A flat scalar buffer read as consecutive records of `stride` scalars.
pub open spec fn to_records(flat: Seq<u32>, stride: nat) -> Seq<Seq<u32>>
    recommends
        stride > 0,
{
    Seq::new(
        flat.len() / stride,
        |j: int| flat.subrange(j * (stride as int), (j + 1) * (stride as int)),
    )
}

/// A candidate record matches a stored record when they have the same
/// width and every scalar of the candidate is equivalent to the stored
/// scalar in the same place.
pub open spec fn rec_matches<T: VertexMath>(stored: Seq<u32>, rec: Seq<u32>) -> bool {
    stored.len() == rec.len() && (forall|k: int|
        0 <= k < rec.len() ==> #[trigger] T::eq_spec(rec[k], stored[k]))
}

/// The first stored record at or after `j` that the candidate matches;
/// the record count when none does.
pub open spec fn first_match<T: VertexMath>(recs: Seq<Seq<u32>>, rec: Seq<u32>, j: int) -> int
    recommends
        0 <= j <= recs.len(),
    decreases recs.len() - j,
{
    if j < 0 || j >= recs.len() {
        recs.len() as int
    } else if rec_matches::<T>(recs[j], rec) {
        j
    } else {
        first_match::<T>(recs, rec, j + 1)
    }
}

/// The slot a record resolves to: the first match, or the fresh slot just
/// past the stored records.
pub open spec fn slot_for<T: VertexMath>(recs: Seq<Seq<u32>>, rec: Seq<u32>) -> int {
    first_match::<T>(recs, rec, 0)
}

/// The stored records after resolving one candidate: unchanged on a match,
/// extended by the candidate otherwise.
pub open spec fn insert_record<T: VertexMath>(recs: Seq<Seq<u32>>, rec: Seq<u32>) -> Seq<Seq<u32>> {
    if slot_for::<T>(recs, rec) < recs.len() {
        recs
    } else {
        recs.push(rec)
    }
}

/// The stored records after resolving a run of candidates left to right.
pub open spec fn dedup_records<T: VertexMath>(recs: Seq<Seq<u32>>, input: Seq<Seq<u32>>) -> Seq<
    Seq<u32>,
>
    decreases input.len(),
{
    if input.len() == 0 {
        recs
    } else {
        dedup_records::<T>(insert_record::<T>(recs, input[0]), input.drop_first())
    }
}

/// The slots a run of candidates resolves to, in order.
pub open spec fn dedup_indices<T: VertexMath>(recs: Seq<Seq<u32>>, input: Seq<Seq<u32>>) -> Seq<
    u32,
>
    decreases input.len(),
{
    if input.len() == 0 {
        Seq::<u32>::empty()
    } else {
        seq![slot_for::<T>(recs, input[0]) as u32] + dedup_indices::<T>(
            insert_record::<T>(recs, input[0]),
            input.drop_first(),
        )
    }
}

/// The record the compiler stores for input record `i`: the placed
/// position, then the pass-through scalars unchanged.  A two-coordinate
/// position is placed with a zero third coordinate, which is dropped
/// again.
pub open spec fn placed_rec<T: VertexMath>(
    t: T,
    input: Seq<u32>,
    dims: nat,
    stride: nat,
    i: int,
) -> Seq<u32>
    recommends
        dims == 2 || dims == 3,
        dims <= stride,
        0 <= i,
        (i + 1) * stride <= input.len(),
{
    let base = i * (stride as int);
    if dims == 2 {
        let m = t.map_spec(input[base], input[base + 1], ZERO_BITS);
        seq![m.0, m.1] + input.subrange(base + 2, base + (stride as int))
    } else {
        let m = t.map_spec(input[base], input[base + 1], input[base + 2]);
        seq![m.0, m.1, m.2] + input.subrange(base + 3, base + (stride as int))
    }
}

/// Every record of the input, placed.
pub open spec fn placed_records<T: VertexMath>(
    t: T,
    input: Seq<u32>,
    dims: nat,
    stride: nat,
) -> Seq<Seq<u32>>
    recommends
        stride > 0,
{
    Seq::new(input.len() / stride, |i: int| placed_rec::<T>(t, input, dims, stride, i))
}

/// Every record matches itself, because the scalar equivalence relates
/// every scalar to itself.
proof fn lemma_rec_matches_self<T: VertexMath>(rec: Seq<u32>)
    ensures
        rec_matches::<T>(rec, rec),
{
    assert forall|k: int| 0 <= k < rec.len() implies #[trigger] T::eq_spec(rec[k], rec[k]) by {
        T::eq_spec_reflexive(rec[k]);
    }
}

/// What `first_match` returns, from any starting point `j`: the first
/// matching slot in `[j, recs.len())`, or the record count when that range
/// holds no match.
proof fn lemma_first_match_from<T: VertexMath>(recs: Seq<Seq<u32>>, rec: Seq<u32>, j: int, m: int)
    requires
        0 <= j <= m <= recs.len(),
        forall|jj: int| j <= jj < m ==> !rec_matches::<T>(recs[jj], rec),
        m < recs.len() ==> rec_matches::<T>(recs[m], rec),
    ensures
        first_match::<T>(recs, rec, j) == m,
    decreases m - j,
{
    if j < m {
        lemma_first_match_from::<T>(recs, rec, j + 1, m);
    }
}

/// The characterization of `first_match` from the start: it is in range,
/// nothing before it matches, and it matches unless it is the record
/// count.
proof fn lemma_first_match_spec<T: VertexMath>(recs: Seq<Seq<u32>>, rec: Seq<u32>, j: int)
    requires
        0 <= j <= recs.len(),
    ensures
        j <= first_match::<T>(recs, rec, j) <= recs.len(),
        first_match::<T>(recs, rec, j) < recs.len() ==> rec_matches::<T>(
            recs[first_match::<T>(recs, rec, j)],
            rec,
        ),
        forall|jj: int|
            j <= jj < first_match::<T>(recs, rec, j) ==> !rec_matches::<T>(recs[jj], rec),
    decreases recs.len() - j,
{
    if j < recs.len() && !rec_matches::<T>(recs[j], rec) {
        lemma_first_match_spec::<T>(recs, rec, j + 1);
    }
}

/// Resolving a run of candidates only ever appends: the old records stay
/// in place, and at most one record per candidate is added.
proof fn lemma_dedup_records_extends<T: VertexMath>(recs: Seq<Seq<u32>>, input: Seq<Seq<u32>>)
    ensures
        recs.len() <= dedup_records::<T>(recs, input).len() <= recs.len() + input.len(),
        forall|k: int| 0 <= k < recs.len() ==> dedup_records::<T>(recs, input)[k] == recs[k],
    decreases input.len(),
{
    if input.len() > 0 {
        let recs1 = insert_record::<T>(recs, input[0]);
        lemma_dedup_records_extends::<T>(recs1, input.drop_first());
        assert forall|k: int| 0 <= k < recs.len() implies dedup_records::<T>(recs, input)[k]
            == recs[k] by {
            assert(recs1[k] == recs[k]);
            assert(dedup_records::<T>(recs1, input.drop_first())[k] == recs1[k]);
        }
    }
}

/// A run of candidates resolves to one slot each.
proof fn lemma_dedup_indices_len<T: VertexMath>(recs: Seq<Seq<u32>>, input: Seq<Seq<u32>>)
    ensures
        dedup_indices::<T>(recs, input).len() == input.len(),
    decreases input.len(),
{
    if input.len() > 0 {
        lemma_dedup_indices_len::<T>(insert_record::<T>(recs, input[0]), input.drop_first());
    }
}

/// Resolving a run and then one more candidate is resolving the run
/// extended by that candidate.
proof fn lemma_dedup_snoc<T: VertexMath>(recs: Seq<Seq<u32>>, input: Seq<Seq<u32>>, x: Seq<u32>)
    ensures
        dedup_records::<T>(recs, input.push(x)) == insert_record::<T>(
            dedup_records::<T>(recs, input),
            x,
        ),
        dedup_indices::<T>(recs, input.push(x)) == dedup_indices::<T>(recs, input).push(
            slot_for::<T>(dedup_records::<T>(recs, input), x) as u32,
        ),
    decreases input.len(),
{
    let snoc = input.push(x);
    assert(snoc.len() == input.len() + 1);
    if input.len() == 0 {
        assert(snoc[0] == x);
        assert(snoc.drop_first() =~= Seq::<Seq<u32>>::empty());
        let recs1 = insert_record::<T>(recs, x);
        assert(dedup_records::<T>(recs, snoc) == dedup_records::<T>(recs1, snoc.drop_first()));
        assert(dedup_records::<T>(recs1, snoc.drop_first()) == recs1);
        assert(dedup_records::<T>(recs, input) == recs);
        assert(dedup_indices::<T>(recs, snoc) == seq![slot_for::<T>(recs, x) as u32]
            + dedup_indices::<T>(recs1, snoc.drop_first()));
        assert(dedup_indices::<T>(recs1, snoc.drop_first()) =~= Seq::<u32>::empty());
        assert(dedup_indices::<T>(recs, input) =~= Seq::<u32>::empty());
        assert(dedup_indices::<T>(recs, snoc) =~= dedup_indices::<T>(recs, input).push(
            slot_for::<T>(dedup_records::<T>(recs, input), x) as u32,
        ));
    } else {
        let recs1 = insert_record::<T>(recs, input[0]);
        assert(snoc[0] == input[0]);
        assert(snoc.drop_first() =~= input.drop_first().push(x));
        assert(dedup_records::<T>(recs, snoc) == dedup_records::<T>(
            recs1,
            input.drop_first().push(x),
        ));
        assert(dedup_indices::<T>(recs, snoc) == seq![slot_for::<T>(recs, input[0]) as u32]
            + dedup_indices::<T>(recs1, input.drop_first().push(x)));
        lemma_dedup_snoc::<T>(recs1, input.drop_first(), x);
        assert(dedup_records::<T>(recs, input) == dedup_records::<T>(recs1, input.drop_first()));
        assert(dedup_indices::<T>(recs, input) == seq![slot_for::<T>(recs, input[0]) as u32]
            + dedup_indices::<T>(recs1, input.drop_first()));
        assert(dedup_indices::<T>(recs, snoc) =~= dedup_indices::<T>(recs, input).push(
            slot_for::<T>(dedup_records::<T>(recs, input), x) as u32,
        ));
    }
}

/// Replaying a run of candidates against the records the run itself
/// produced changes nothing and resolves to the same slots.
proof fn lemma_dedup_replay<T: VertexMath>(recs0: Seq<Seq<u32>>, input: Seq<Seq<u32>>)
    ensures
        dedup_records::<T>(dedup_records::<T>(recs0, input), input) == dedup_records::<T>(
            recs0,
            input,
        ),
        dedup_indices::<T>(dedup_records::<T>(recs0, input), input) == dedup_indices::<T>(
            recs0,
            input,
        ),
    decreases input.len(),
{
    if input.len() > 0 {
        let x = input[0];
        let rest = input.drop_first();
        let recs1 = insert_record::<T>(recs0, x);
        let full = dedup_records::<T>(recs0, input);
        assert(full == dedup_records::<T>(recs1, rest));
        let j0 = slot_for::<T>(recs0, x);
        lemma_first_match_spec::<T>(recs0, x, 0);
        lemma_dedup_records_extends::<T>(recs1, rest);
        assert forall|k: int| 0 <= k < recs0.len() implies full[k] == recs0[k] by {
            assert(recs1[k] == recs0[k]);
            assert(full[k] == recs1[k]);
        }
        if j0 < recs0.len() {
            assert(rec_matches::<T>(full[j0], x));
            lemma_first_match_from::<T>(full, x, 0, j0);
        } else {
            assert(recs1 == recs0.push(x));
            lemma_rec_matches_self::<T>(x);
            assert(full[j0] == recs1[j0]);
            assert(rec_matches::<T>(full[j0], x));
            lemma_first_match_from::<T>(full, x, 0, j0);
        }
        assert(slot_for::<T>(full, x) == j0);
        assert(j0 < full.len());
        assert(insert_record::<T>(full, x) == full);
        lemma_dedup_replay::<T>(recs1, rest);
        assert(dedup_records::<T>(full, input) == dedup_records::<T>(full, rest));
        assert(dedup_records::<T>(full, rest) == full);
        assert(dedup_indices::<T>(full, input) =~= dedup_indices::<T>(recs0, input));
    }
}

/// Law: resolving the same input records twice against a fresh geometry is
/// idempotent.  The first run stores at most one record per input record;
/// the second run stores nothing new and resolves every input record to
/// the same slot as the first run, so after both runs the index list is
/// the first run's list twice over, referencing only the first run's
/// slots.
pub proof fn lemma_dedup_idempotent<T: VertexMath>(input: Seq<Seq<u32>>)
    ensures
        ({
            let recs = dedup_records::<T>(Seq::<Seq<u32>>::empty(), input);
            let inds = dedup_indices::<T>(Seq::<Seq<u32>>::empty(), input);
            &&& dedup_records::<T>(recs, input) == recs
            &&& dedup_indices::<T>(recs, input) == inds
            &&& recs.len() <= input.len()
            &&& inds.len() == input.len()
        }),
{
    lemma_dedup_replay::<T>(Seq::<Seq<u32>>::empty(), input);
    lemma_dedup_records_extends::<T>(Seq::<Seq<u32>>::empty(), input);
    lemma_dedup_indices_len::<T>(Seq::<Seq<u32>>::empty(), input);
}

/// Appending one whole record to a flat buffer of whole records appends
/// one record to its record reading.
pub proof fn lemma_to_records_push(flat: Seq<u32>, stride: nat, rec: Seq<u32>)
    requires
        stride > 0,
        flat.len() as int % (stride as int) == 0,
        rec.len() == stride,
    ensures
        to_records(flat + rec, stride) == to_records(flat, stride).push(rec),
{
    let s = stride as int;
    let q = flat.len() as int / s;
    vstd::arithmetic::div_mod::lemma_fundamental_div_mod(flat.len() as int, s);
    assert(flat.len() == s * q);
    assert(s * (q + 1) == s * q + s) by (nonlinear_arith);
    vstd::arithmetic::div_mod::lemma_div_multiples_vanish(q + 1, s);
    assert((flat + rec).len() as int / s == q + 1);
    let lhs = to_records(flat + rec, stride);
    let rhs = to_records(flat, stride).push(rec);
    assert(lhs.len() == q + 1);
    assert(rhs.len() == q + 1);
    assert forall|jj: int| 0 <= jj < q + 1 implies lhs[jj] == rhs[jj] by {
        assert(0 <= jj * s && jj * s <= (jj + 1) * s && (jj + 1) * s <= s * (q + 1))
            by (nonlinear_arith)
            requires
                0 <= jj < q + 1,
                s > 0,
        ;
        assert(s * (q + 1) == (flat + rec).len());
        let sub = (flat + rec).subrange(jj * s, (jj + 1) * s);
        assert(lhs[jj] == sub);
        if jj < q {
            assert((jj + 1) * s <= s * q) by (nonlinear_arith)
                requires
                    jj + 1 <= q,
                    s > 0,
            ;
            let sub0 = flat.subrange(jj * s, (jj + 1) * s);
            assert forall|k: int| 0 <= k < s implies sub[k] == sub0[k] by {
                assert(jj * s + s == (jj + 1) * s) by (nonlinear_arith);
                assert(jj * s + k < flat.len());
                assert((flat + rec)[jj * s + k] == flat[jj * s + k]);
            }
            assert(sub =~= sub0);
            assert(rhs[jj] == sub0);
        } else {
            assert(jj * s == s * q) by (nonlinear_arith)
                requires
                    jj == q,
            ;
            assert(jj * s == flat.len());
            assert((jj + 1) * s == flat.len() + s) by (nonlinear_arith)
                requires
                    jj * s == flat.len(),
            ;
            assert forall|k: int| 0 <= k < s implies sub[k] == rec[k] by {
                assert((flat + rec)[flat.len() + k] == rec[k]);
                assert(jj * s + k == flat.len() + k);
            }
            assert(sub =~= rec);
        }
    }
    assert(lhs =~= rhs);
}

/// The mathematical content of a finished geometry.
pub struct ShapeView {
    pub dimensions: u32,
    pub components: u32,
    pub stride: u32,
    pub indices: Seq<u32>,
    pub vertices: Seq<u32>,
}

/// A finished geometry: deduplicated vertex records and indices into
/// their slots, with the layout frozen at completion.
#[derive(Debug)]
pub struct Shape {
    dimensions: u32,
    components: u32,
    stride: u32,
    indices: Vec<u32>,
    vertices: Vec<u32>,
}

impl View for Shape {
    type V = ShapeView;

    closed spec fn view(&self) -> ShapeView {
        ShapeView {
            dimensions: self.dimensions,
            components: self.components,
            stride: self.stride,
            indices: self.indices@,
            vertices: self.vertices@,
        }
    }
}

impl Shape {
    /// The layout is one the capability flags can produce.
    pub open spec fn layout_wf(&self) -> bool {
        &&& (self@.dimensions == 2 || self@.dimensions == 3)
        &&& (self@.components == 0 || self@.components == 3 || self@.components == 4)
        &&& (self@.stride == self@.dimensions + self@.components || self@.stride == self@.dimensions
            + self@.components + 2)
    }

    /// The scalars form whole records and every index names a stored
    /// record.
    pub open spec fn wf(&self) -> bool {
        &&& self.layout_wf()
        &&& self@.vertices.len() as int % self@.stride as int == 0
        &&& forall|k: int|
            0 <= k < self@.indices.len() ==> ((#[trigger] self@.indices[k]) as int)
                < self@.vertices.len() as int / self@.stride as int
    }

    /// The stored vertex records.
    pub open spec fn recs(&self) -> Seq<Seq<u32>> {
        to_records(self@.vertices, self@.stride as nat)
    }

    /// The index buffer.
    pub fn indices(&self) -> (r: &Vec<u32>)
        ensures
            r@ == self@.indices,
    {
        &self.indices
    }

    /// The flat vertex buffer.
    pub fn vertices(&self) -> (r: &Vec<u32>)
        ensures
            r@ == self@.vertices,
    {
        &self.vertices
    }

    /// The position coordinates per record.
    pub fn dimensions(&self) -> (r: u32)
        ensures
            r == self@.dimensions,
    {
        self.dimensions
    }

    /// The color components per record.
    pub fn components(&self) -> (r: u32)
        ensures
            r == self@.components,
    {
        self.components
    }

    /// The scalars per record.
    pub fn stride(&self) -> (r: u32)
        ensures
            r == self@.stride,
    {
        self.stride
    }
}

/// The mathematical content of a geometry under construction.
pub struct ShapeBuilderView {
    pub dimensions: u32,
    pub components: u32,
    pub stride: u32,
    pub indices: Seq<u32>,
    pub vertices: Seq<u32>,
    pub temp: Seq<u32>,
    pub finished: bool,
}

/// A geometry under construction for one shader: raw vertex scalars are
/// staged with [`ShapeBuilder::vert`], compiled by [`ShapeBuilder::face`],
/// and frozen by [`ShapeBuilder::finish`].
#[derive(Debug)]
pub struct ShapeBuilder {
    dimensions: u32,
    components: u32,
    stride: u32,
    indices: Vec<u32>,
    vertices: Vec<u32>,
    temp: Vec<u32>,
    finished: bool,
}

impl View for ShapeBuilder {
    type V = ShapeBuilderView;

    closed spec fn view(&self) -> ShapeBuilderView {
        ShapeBuilderView {
            dimensions: self.dimensions,
            components: self.components,
            stride: self.stride,
            indices: self.indices@,
            vertices: self.vertices@,
            temp: self.temp@,
            finished: self.finished,
        }
    }
}

impl ShapeBuilder {
    /// The layout is one the capability flags can produce.
    pub open spec fn layout_wf(&self) -> bool {
        &&& (self@.dimensions == 2 || self@.dimensions == 3)
        &&& (self@.components == 0 || self@.components == 3 || self@.components == 4)
        &&& (self@.stride == self@.dimensions + self@.components || self@.stride == self@.dimensions
            + self@.components + 2)
    }

    /// The scalars form whole records and every index names a stored
    /// record.
    pub open spec fn wf(&self) -> bool {
        &&& self.layout_wf()
        &&& self@.vertices.len() as int % self@.stride as int == 0
        &&& forall|k: int|
            0 <= k < self@.indices.len() ==> ((#[trigger] self@.indices[k]) as int)
                < self@.vertices.len() as int / self@.stride as int
    }

    /// The stored vertex records.
    pub open spec fn recs(&self) -> Seq<Seq<u32>> {
        to_records(self@.vertices, self@.stride as nat)
    }

    /// A fresh builder whose layout is the one the shader's capability
    /// flags imply.
    pub fn new(shader: &Shader) -> (b: ShapeBuilder)
        ensures
            b.wf(),
            !b@.finished,
            b@.dimensions == shader.dims_spec(),
            b@.components == shader.components_spec(),
            b@.stride == shader.stride_spec(),
            b@.indices == Seq::<u32>::empty(),
            b@.vertices == Seq::<u32>::empty(),
            b@.temp == Seq::<u32>::empty(),
    {
        let b = ShapeBuilder {
            dimensions: shader.dims(),
            components: shader.components(),
            stride: shader.stride(),
            indices: Vec::new(),
            vertices: Vec::new(),
            temp: Vec::new(),
            finished: false,
        };
        proof {
            assert(b@.vertices.len() == 0);
            assert(b@.stride >= 2);
            assert(b@.vertices.len() as int % b@.stride as int == 0);
        }
        b
    }

    /// Stage raw vertex scalars for the next face.
    pub fn vert(&mut self, v: &[u32]) -> (r: Result<(), RenderError>)
        ensures
            old(self)@.finished ==> r == Err::<(), RenderError>(
                RenderError::GeometryAlreadyFinished,
            ) && *final(self) == *old(self),
            !old(self)@.finished ==> r == Ok::<(), RenderError>(()) && final(self)@
                == (ShapeBuilderView { temp: v@, ..old(self)@ }),
    {
        if self.finished {
            return Err(RenderError::GeometryAlreadyFinished);
        }
        self.temp = vstd::slice::slice_to_vec(v);
        Ok(())
    }

    /// Compile the staged scalars into the geometry under the given
    /// placement.
    ///
    /// Fails on a finished geometry, and with `MalformedVertexData` when
    /// the staged scalars do not form whole records.  Otherwise every
    /// staged record is placed and resolved front to back against the
    /// records already stored: the first stored record whose scalars are
    /// all equivalent lends its slot, a record nothing matches is
    /// appended, and the resolved slot is pushed onto the index list.
    ///
    /// The size bound keeps every slot index representable in the
    /// device's 32-bit index type.
    #[verifier::loop_isolation(false)]
    pub fn face<T: VertexMath>(&mut self, t: &T) -> (r: Result<(), RenderError>)
        requires
            old(self).wf(),
            old(self)@.vertices.len() + old(self)@.temp.len() <= u32::MAX,
        ensures
            final(self).wf(),
            old(self)@.finished ==> r == Err::<(), RenderError>(
                RenderError::GeometryAlreadyFinished,
            ) && *final(self) == *old(self),
            !old(self)@.finished && old(self)@.temp.len() as int % old(self)@.stride as int != 0
                ==> r == Err::<(), RenderError>(
                RenderError::MalformedVertexData {
                    expected_stride: old(self)@.stride,
                    actual_len: old(self)@.temp.len() as usize,
                },
            ) && *final(self) == *old(self),
            !old(self)@.finished && old(self)@.temp.len() as int % old(self)@.stride as int == 0
                ==> ({
                let placed = placed_records::<T>(
                    *t,
                    old(self)@.temp,
                    old(self)@.dimensions as nat,
                    old(self)@.stride as nat,
                );
                &&& r == Ok::<(), RenderError>(())
                &&& final(self).recs() == dedup_records::<T>(old(self).recs(), placed)
                &&& final(self)@.indices == old(self)@.indices + dedup_indices::<T>(
                    old(self).recs(),
                    placed,
                )
                &&& final(self)@.dimensions == old(self)@.dimensions
                &&& final(self)@.components == old(self)@.components
                &&& final(self)@.stride == old(self)@.stride
                &&& final(self)@.temp == old(self)@.temp
                &&& final(self)@.finished == old(self)@.finished
            }),
    {
        if self.finished {
            return Err(RenderError::GeometryAlreadyFinished);
        }
        let stride: usize = self.stride as usize;
        let dims: usize = self.dimensions as usize;
        if self.temp.len() % stride != 0 {
            return Err(
                RenderError::MalformedVertexData {
                    expected_stride: self.stride,
                    actual_len: self.temp.len(),
                },
            );
        }
        let ghost dims_n = self@.dimensions as nat;
        let ghost stride_n = self@.stride as nat;
        let ghost placed = placed_records::<T>(*t, self@.temp, dims_n, stride_n);
        let ghost recs0 = self.recs();
        let ghost inds0 = self@.indices;
        let n_in: usize = self.temp.len() / stride;
        proof {
            vstd::arithmetic::div_mod::lemma_fundamental_div_mod(
                self.temp@.len() as int,
                stride as int,
            );
            assert(n_in * stride == self@.temp.len()) by (nonlinear_arith)
                requires
                    self@.temp.len() as int == stride as int * (n_in as int),
            ;
            assert(placed.len() == n_in);
        }
        let mut i: usize = 0;
        let mut base: usize = 0;
        while i < n_in
            invariant
                i <= n_in,
                base == i * stride,
                self.wf(),
                self@.dimensions == old(self)@.dimensions,
                self@.components == old(self)@.components,
                self@.stride == old(self)@.stride,
                self@.temp == old(self)@.temp,
                self@.finished == old(self)@.finished,
                self@.vertices.len() + (n_in - i) * stride <= u32::MAX,
                self.recs() == dedup_records::<T>(recs0, placed.take(i as int)),
                self@.indices == inds0 + dedup_indices::<T>(recs0, placed.take(i as int)),
            decreases n_in - i,
        {
            proof {
                assert(base + stride <= n_in * stride) by (nonlinear_arith)
                    requires
                        base == i * stride,
                        i < n_in,
                ;
                assert((i as int + 1) * (stride as int) == base + stride) by (nonlinear_arith)
                    requires
                        base == i * stride,
                ;
            }
            // Build the placed record: position first, then the
            // pass-through scalars unchanged.
            let mut rec: Vec<u32> = Vec::new();
            if dims == 2 {
                let m = t.map_point(self.temp[base], self.temp[base + 1], ZERO_BITS);
                rec.push(m.0);
                rec.push(m.1);
                proof {
                    assert(placed_rec::<T>(*t, self@.temp, dims_n, stride_n, i as int).take(
                        dims as int,
                    ) =~= seq![m.0, m.1]);
                    assert(rec@ =~= placed_rec::<T>(*t, self@.temp, dims_n, stride_n, i as int).take(
                        dims as int,
                    ));
                }
            } else {
                let m = t.map_point(
                    self.temp[base],
                    self.temp[base + 1],
                    self.temp[base + 2],
                );
                rec.push(m.0);
                rec.push(m.1);
                rec.push(m.2);
                proof {
                    assert(placed_rec::<T>(*t, self@.temp, dims_n, stride_n, i as int).take(
                        dims as int,
                    ) =~= seq![m.0, m.1, m.2]);
                    assert(rec@ =~= placed_rec::<T>(*t, self@.temp, dims_n, stride_n, i as int).take(
                        dims as int,
                    ));
                }
            }
            let ghost target = placed_rec::<T>(*t, self@.temp, dims_n, stride_n, i as int);
            let mut k: usize = dims;
            while k < stride
                invariant
                    dims <= k <= stride,
                    rec@ == target.take(dims as int) + self@.temp.subrange(
                        (base + dims) as int,
                        (base + k) as int,
                    ),
                decreases stride - k,
            {
                rec.push(self.temp[base + k]);
                proof {
                    assert(self@.temp.subrange((base + dims) as int, (base + k + 1) as int)
                        =~= self@.temp.subrange((base + dims) as int, (base + k) as int).push(
                        self@.temp[(base + k) as int],
                    ));
                }
                k += 1;
            }
            proof {
                assert(rec@ =~= target);
                assert(placed[i as int] == target);
                assert(rec@.len() == stride);
            }
            // Scan the stored records front to back for the first match.
            let n_slots: usize = self.vertices.len() / stride;
            proof {
                vstd::arithmetic::div_mod::lemma_fundamental_div_mod(
                    self@.vertices.len() as int,
                    stride as int,
                );
                assert(n_slots * stride == self@.vertices.len()) by (nonlinear_arith)
                    requires
                        self@.vertices.len() as int == stride as int * (n_slots as int),
                ;
                assert(self.recs().len() == n_slots);
                assert(n_slots <= self@.vertices.len()) by (nonlinear_arith)
                    requires
                        n_slots * stride == self@.vertices.len(),
                        stride >= 1,
                ;
            }
            let mut j: usize = 0;
            let mut vbase: usize = 0;
            let mut found = false;
            while j < n_slots && !found
                invariant
                    j <= n_slots,
                    vbase == j * stride,
                    found ==> j < n_slots && rec_matches::<T>(self.recs()[j as int], rec@),
                    forall|jj: int| 0 <= jj < j ==> !rec_matches::<T>(self.recs()[jj], rec@),
                decreases 2 * (n_slots - j) + (if found {
                    0int
                } else {
                    1int
                }),
            {
                proof {
                    assert(vbase + stride <= n_slots * stride) by (nonlinear_arith)
                        requires
                            vbase == j * stride,
                            j < n_slots,
                    ;
                }
                let mut eq = true;
                let mut k2: usize = 0;
                while k2 < stride
                    invariant
                        k2 <= stride,
                        eq <==> (forall|kk: int|
                            0 <= kk < k2 ==> #[trigger] T::eq_spec(
                                rec@[kk],
                                self@.vertices[vbase + kk],
                            )),
                    decreases stride - k2,
                {
                    if !T::scalar_eq(rec[k2], self.vertices[vbase + k2]) {
                        eq = false;
                    }
                    k2 += 1;
                }
                proof {
                    let stored = self.recs()[j as int];
                    assert((j as int + 1) * (stride as int) == vbase + stride) by (nonlinear_arith)
                        requires
                            vbase == j * stride,
                    ;
                    assert(stored =~= self@.vertices.subrange(
                        vbase as int,
                        (vbase + stride) as int,
                    ));
                    assert forall|kk: int| 0 <= kk < stride implies stored[kk] == self@.vertices[
                        vbase + kk
                    ] by {}
                    if eq {
                        assert forall|kk: int| 0 <= kk < stride implies #[trigger] T::eq_spec(
                            rec@[kk],
                            stored[kk],
                        ) by {
                            assert(T::eq_spec(rec@[kk], self@.vertices[vbase + kk]));
                        }
                        assert(rec_matches::<T>(stored, rec@));
                    } else {
                        assert(!rec_matches::<T>(stored, rec@)) by {
                            if rec_matches::<T>(stored, rec@) {
                                assert forall|kk: int| 0 <= kk < stride implies #[trigger] T::eq_spec(
                                    rec@[kk],
                                    self@.vertices[vbase + kk],
                                ) by {
                                    assert(T::eq_spec(rec@[kk], stored[kk]));
                                }
                            }
                        }
                    }
                }
                if eq {
                    found = true;
                } else {
                    j += 1;
                    vbase += stride;
                }
            }
            proof {
                if found {
                    lemma_first_match_from::<T>(self.recs(), rec@, 0, j as int);
                } else {
                    lemma_first_match_from::<T>(self.recs(), rec@, 0, n_slots as int);
                }
                assert(slot_for::<T>(self.recs(), rec@) == j as int);
            }
            let ghost recs_before = self.recs();
            let idx32: u32;
            if found {
                idx32 = j as u32;
            } else {
                let ghost vsnap = self@.vertices;
                let mut k3: usize = 0;
                while k3 < stride
                    invariant
                        k3 <= stride,
                        self@.vertices == vsnap + rec@.take(k3 as int),
                        self@.dimensions == old(self)@.dimensions,
                        self@.components == old(self)@.components,
                        self@.stride == old(self)@.stride,
                        self@.temp == old(self)@.temp,
                        self@.finished == old(self)@.finished,
                        self@.indices == inds0 + dedup_indices::<T>(recs0, placed.take(i as int)),
                    decreases stride - k3,
                {
                    self.vertices.push(rec[k3]);
                    proof {
                        assert(rec@.take(k3 as int + 1) =~= rec@.take(k3 as int).push(
                            rec@[k3 as int],
                        ));
                    }
                    k3 += 1;
                }
                proof {
                    assert(self@.vertices =~= vsnap + rec@);
                    lemma_to_records_push(vsnap, stride_n, rec@);
                    assert(self.recs() == recs_before.push(rec@));
                }
                idx32 = n_slots as u32;
            }
            self.indices.push(idx32);
            proof {
                assert(placed.take(i as int + 1) =~= placed.take(i as int).push(placed[i as int]));
                lemma_dedup_snoc::<T>(recs0, placed.take(i as int), placed[i as int]);
                assert(insert_record::<T>(recs_before, rec@) == self.recs());
                assert(self.recs() == dedup_records::<T>(recs0, placed.take(i as int + 1)));
                assert(self@.indices =~= inds0 + dedup_indices::<T>(
                    recs0,
                    placed.take(i as int + 1),
                ));
                // Well-formedness: the new slot count covers both the old
                // indices and the one just pushed.
                let vl = self@.vertices.len() as int;
                let rc = self.recs().len() as int;
                if found {
                    assert(vl == (stride as int) * rc) by (nonlinear_arith)
                        requires
                            vl == (n_slots as int) * (stride as int),
                            rc == n_slots as int,
                    ;
                } else {
                    assert(vl == (stride as int) * rc) by (nonlinear_arith)
                        requires
                            vl == (n_slots as int) * (stride as int) + stride as int,
                            rc == n_slots as int + 1,
                    ;
                }
                assert(vl == rc * (stride as int) + 0) by (nonlinear_arith)
                    requires
                        vl == (stride as int) * rc,
                ;
                vstd::arithmetic::div_mod::lemma_fundamental_div_mod_converse(
                    vl,
                    stride as int,
                    rc,
                    0,
                );
                assert(self@.vertices.len() as int % self@.stride as int == 0);
                assert(self@.vertices.len() as int / self@.stride as int == self.recs().len());
                assert forall|kk: int|
                    0 <= kk < self@.indices.len() implies ((#[trigger] self@.indices[kk]) as int)
                    < self@.vertices.len() as int / self@.stride as int by {
                    if kk < self@.indices.len() - 1 {
                        assert(self@.indices[kk] == (inds0 + dedup_indices::<T>(
                            recs0,
                            placed.take(i as int),
                        ))[kk]);
                    }
                }
                assert((i + 1) * stride == i * stride + stride) by (nonlinear_arith);
                assert((n_in - (i + 1)) * stride == (n_in - i) * stride - stride)
                    by (nonlinear_arith);
            }
            i += 1;
            base += stride;
        }
        proof {
            assert(placed.take(n_in as int) =~= placed);
        }
        Ok(())
    }

    /// Freeze the geometry: the layout, the stored records and the index
    /// list move into the returned shape, and the builder refuses all
    /// further work.
    pub fn finish(&mut self) -> (r: Result<Shape, RenderError>)
        requires
            old(self).wf(),
        ensures
            old(self)@.finished ==> r == Err::<Shape, RenderError>(
                RenderError::GeometryAlreadyFinished,
            ) && *final(self) == *old(self),
            !old(self)@.finished ==> ({
                &&& final(self)@ == (ShapeBuilderView {
                    indices: Seq::<u32>::empty(),
                    vertices: Seq::<u32>::empty(),
                    temp: Seq::<u32>::empty(),
                    finished: true,
                    ..old(self)@
                })
                &&& final(self).wf()
                &&& r matches Ok(s) && s@ == (ShapeView {
                    dimensions: old(self)@.dimensions,
                    components: old(self)@.components,
                    stride: old(self)@.stride,
                    indices: old(self)@.indices,
                    vertices: old(self)@.vertices,
                }) && s.wf()
            }),
    {
        if self.finished {
            return Err(RenderError::GeometryAlreadyFinished);
        }
        self.finished = true;
        self.temp = Vec::new();
        let mut indices: Vec<u32> = Vec::new();
        let mut vertices: Vec<u32> = Vec::new();
        core::mem::swap(&mut indices, &mut self.indices);
        core::mem::swap(&mut vertices, &mut self.vertices);
        Ok(
            Shape {
                dimensions: self.dimensions,
                components: self.components,
                stride: self.stride,
                indices,
                vertices,
            },
        )
    }
}

} // verus!
