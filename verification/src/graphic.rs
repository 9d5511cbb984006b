//! Graphics: pixel buffers uploaded as mip-mapped textures, with a
//! CPU-side mirror.
//!
//! The core computes the upload plan — which mip level lives at which
//! offset of the pixel buffer, each level half the linear size of its
//! parent, down to one pixel or until the buffer has no room for the next
//! level — and keeps the mirror; the caller performs the uploads.

use vstd::prelude::*;

use vstd::arithmetic::power2::pow2;

use crate::error::RenderError;

verus! {

/// One mip level of an upload plan: `width * height * 4` bytes of the
/// pixel buffer, starting at `offset`.
#[derive(Clone, Copy, Debug, PartialEq, Eq, Structural)]
pub struct MipLevel {
    pub level: u32,
    pub width: u32,
    pub height: u32,
    pub offset: usize,
}

/// The mip levels after the base level: each halves the previous
/// dimensions and follows it in the buffer, and the chain stops at one
/// pixel in either dimension or as soon as the buffer has no room for
/// the next level.
pub open spec fn mip_tail(w: int, h: int, offset: int, total: int, level: int) -> Seq<MipLevel>
    recommends
        w >= 0,
    decreases w,
{
    let w2 = w / 2;
    let h2 = h / 2;
    let sz = w2 * h2 * 4;
    if w > 1 && h > 1 && offset + sz <= total {
        seq![
            MipLevel {
                level: (level + 1) as u32,
                width: w2 as u32,
                height: h2 as u32,
                offset: offset as usize,
            },
        ] + mip_tail(w2, h2, offset + sz, total, level + 1)
    } else {
        Seq::<MipLevel>::empty()
    }
}

/// The whole upload plan of a pixel buffer of `total` bytes: the base
/// level first, then the chain of mip levels from its tail.
pub open spec fn mip_plan(w: int, h: int, total: int) -> Seq<MipLevel> {
    seq![MipLevel { level: 0, width: w as u32, height: h as u32, offset: 0 }] + mip_tail(
        w,
        h,
        w * h * 4,
        total,
        0,
    )
}

/// Every level of the tail reads within the buffer.
proof fn lemma_mip_tail_in_bounds(w: int, h: int, offset: int, total: int, level: int)
    requires
        0 <= offset,
        0 <= w <= u32::MAX,
        0 <= h <= u32::MAX,
        total <= usize::MAX,
    ensures
        forall|k: int|
            0 <= k < mip_tail(w, h, offset, total, level).len() ==> {
                let lv = #[trigger] mip_tail(w, h, offset, total, level)[k];
                lv.offset + lv.width * lv.height * 4 <= total && offset <= lv.offset
            },
    decreases w,
{
    let w2 = w / 2;
    let h2 = h / 2;
    let sz = w2 * h2 * 4;
    if w > 1 && h > 1 && offset + sz <= total {
        lemma_mip_tail_in_bounds(w2, h2, offset + sz, total, level + 1);
        assert forall|k: int|
            0 <= k < mip_tail(w, h, offset, total, level).len() implies {
            let lv = #[trigger] mip_tail(w, h, offset, total, level)[k];
            lv.offset + lv.width * lv.height * 4 <= total && offset <= lv.offset
        } by {
            let head = MipLevel {
                level: (level + 1) as u32,
                width: w2 as u32,
                height: h2 as u32,
                offset: offset as usize,
            };
            if k == 0 {
                assert(mip_tail(w, h, offset, total, level)[k] == head);
                assert(head.offset == offset);
                assert(head.width == w2 && head.height == h2);
            } else {
                let lv = mip_tail(w2, h2, offset + sz, total, level + 1)[k - 1];
                assert(mip_tail(w, h, offset, total, level)[k] == lv);
            }
        }
    }
}

/// Every level of an upload plan whose base level fits the buffer reads
/// within the buffer.
pub proof fn lemma_mip_plan_in_bounds(w: int, h: int, total: int)
    requires
        0 <= w <= u32::MAX,
        0 <= h <= u32::MAX,
        w * h * 4 <= total,
        total <= usize::MAX,
    ensures
        forall|k: int|
            0 <= k < mip_plan(w, h, total).len() ==> {
                let lv = #[trigger] mip_plan(w, h, total)[k];
                lv.offset + lv.width * lv.height * 4 <= total
            },
{
    lemma_mip_tail_in_bounds(w, h, w * h * 4, total, 0);
    assert forall|k: int|
        0 <= k < mip_plan(w, h, total).len() implies {
        let lv = #[trigger] mip_plan(w, h, total)[k];
        lv.offset + lv.width * lv.height * 4 <= total
    } by {
        if k == 0 {
            let head = MipLevel { level: 0, width: w as u32, height: h as u32, offset: 0 };
            assert(mip_plan(w, h, total)[k] == head);
            assert(head.width == w && head.height == h && head.offset == 0);
        } else {
            let lv = mip_tail(w, h, w * h * 4, total, 0)[k - 1];
            assert(mip_plan(w, h, total)[k] == lv);
        }
    }
}

/// Each level of the tail halves the dimensions of the one before it
/// and sits one level deeper; the first halves the given dimensions.
proof fn lemma_mip_tail_halves(w: int, h: int, offset: int, total: int, level: int)
    requires
        0 <= w <= u32::MAX,
        0 <= h <= u32::MAX,
        0 <= level,
        level + w <= u32::MAX,
    ensures
        ({
            let t = mip_tail(w, h, offset, total, level);
            &&& (t.len() > 0 ==> t[0].width == w / 2 && t[0].height == h / 2 && t[0].level == level
                + 1)
            &&& forall|k: int|
                1 <= k < t.len() ==> {
                    let prev = t[k - 1];
                    let cur = #[trigger] t[k];
                    cur.width == prev.width / 2 && cur.height == prev.height / 2 && cur.level
                        == prev.level + 1
                }
        }),
    decreases w,
{
    let t = mip_tail(w, h, offset, total, level);
    let w2 = w / 2;
    let h2 = h / 2;
    let sz = w2 * h2 * 4;
    if w > 1 && h > 1 && offset + sz <= total {
        lemma_mip_tail_halves(w2, h2, offset + sz, total, level + 1);
        let rest = mip_tail(w2, h2, offset + sz, total, level + 1);
        assert forall|k: int|
            1 <= k < t.len() implies {
            let prev = t[k - 1];
            let cur = #[trigger] t[k];
            cur.width == prev.width / 2 && cur.height == prev.height / 2 && cur.level == prev.level
                + 1
        } by {
            assert(t[k] == rest[k - 1]);
            if k == 1 {
                assert(rest.len() > 0);
                assert(rest[0].width == w2 / 2 && rest[0].height == h2 / 2 && rest[0].level
                    == level + 2);
            } else {
                assert(t[k - 1] == rest[k - 2]);
            }
        }
    }
}

/// Law: in an upload plan, every mip level is half the linear
/// dimensions of its parent and one level deeper, starting from the
/// base level.
pub proof fn lemma_mip_plan_halves(w: int, h: int, total: int)
    requires
        0 <= w <= u32::MAX,
        0 <= h <= u32::MAX,
    ensures
        ({
            let plan = mip_plan(w, h, total);
            forall|k: int|
                1 <= k < plan.len() ==> {
                    let prev = plan[k - 1];
                    let cur = #[trigger] plan[k];
                    cur.width == prev.width / 2 && cur.height == prev.height / 2 && cur.level
                        == prev.level + 1
                }
        }),
{
    lemma_mip_tail_halves(w, h, w * h * 4, total, 0);
    let plan = mip_plan(w, h, total);
    let t = mip_tail(w, h, w * h * 4, total, 0);
    assert forall|k: int|
        1 <= k < plan.len() implies {
        let prev = plan[k - 1];
        let cur = #[trigger] plan[k];
        cur.width == prev.width / 2 && cur.height == prev.height / 2 && cur.level == prev.level + 1
    } by {
        assert(plan[k] == t[k - 1]);
        if k == 1 {
            assert(plan[0] == (MipLevel { level: 0, width: w as u32, height: h as u32, offset: 0 }));
            assert(t[0].width == w / 2 && t[0].height == h / 2 && t[0].level == 1);
        } else {
            assert(plan[k - 1] == t[k - 2]);
        }
    }
}

/// The mathematical content of a graphic.
pub struct GraphicView {
    /// The device texture handle.
    pub id: u32,
    /// The CPU-side mirror of the pixel buffer.
    pub pixels: Seq<u8>,
    /// The width of the base level, in pixels.
    pub width: u32,
}

/// A pixel buffer uploaded as a mip-mapped texture, with its CPU-side
/// mirror.  The height is derived from the mirror's length and the
/// width.
#[derive(Debug)]
pub struct Graphic {
    id: u32,
    pixels: Vec<u8>,
    width: u32,
}

/// A raster that has been uploaded to the device.
pub struct RasterId(pub Graphic);

impl View for Graphic {
    type V = GraphicView;

    closed spec fn view(&self) -> GraphicView {
        GraphicView { id: self.id, pixels: self.pixels@, width: self.width }
    }
}

/// Whether the next, halved mip level fits in the `room` bytes left.
fn half_level_fits(w: u32, h: u32, room: usize) -> (r: bool)
    ensures
        r == ((w as int / 2) * (h as int / 2) * 4 <= room as int),
{
    proof {
        assert(((w as int) / 2) * ((h as int) / 2) * 4 <= u64::MAX) by (nonlinear_arith)
            requires
                0 <= w <= u32::MAX,
                0 <= h <= u32::MAX,
        ;
    }
    ((w / 2) as u64) * ((h / 2) as u64) * 4 <= (room as u64)
}

impl Graphic {
    /// The width is never zero, so the height is always derivable.
    pub open spec fn wf(&self) -> bool {
        self@.width >= 1
    }

    /// The derived height of the base level.
    pub open spec fn height_spec(&self) -> int {
        (self@.pixels.len() as int / 4) / self@.width as int
    }

    /// Validate a pixel buffer against its stated dimensions and compute
    /// the upload plan.
    ///
    /// Fails exactly when a dimension is zero or the buffer is shorter
    /// than the base level; otherwise the mirror keeps the whole buffer
    /// (mip tail included) and the plan lists every level to upload, all
    /// reading within the buffer.
    #[verifier::loop_isolation(false)]
    pub fn new(id: u32, pixels: Vec<u8>, width: u32, height: u32) -> (r: Result<
        (Graphic, Vec<MipLevel>),
        RenderError,
    >)
        ensures
            (width == 0 || height == 0 || pixels@.len() < width * height * 4) <==> r is Err,
            r is Err ==> r == Err::<(Graphic, Vec<MipLevel>), RenderError>(
                RenderError::MalformedGraphicData {
                    width,
                    height,
                    actual_len: pixels@.len() as usize,
                },
            ),
            r matches Ok((g, plan)) ==> {
                &&& g@ == (GraphicView { id, pixels: pixels@, width })
                &&& g.wf()
                &&& plan@ == mip_plan(width as int, height as int, pixels@.len() as int)
            },
    {
        let len: usize = pixels.len();
        proof {
            assert((width as int) * (height as int) * 4 < u128::MAX) by (nonlinear_arith)
                requires
                    width <= u32::MAX,
                    height <= u32::MAX,
            ;
        }
        if width == 0 || height == 0 || (width as u128) * (height as u128) * 4 > (len as u128) {
            return Err(RenderError::MalformedGraphicData { width, height, actual_len: len });
        }
        let base: usize = ((width as u128) * (height as u128) * 4) as usize;
        let ghost full = mip_plan(width as int, height as int, len as int);
        let mut plan: Vec<MipLevel> = Vec::new();
        plan.push(MipLevel { level: 0, width, height, offset: 0 });
        let mut w: u32 = width;
        let mut h: u32 = height;
        let mut level: u32 = 0;
        let mut offset: usize = base;
        proof {
            assert(full =~= plan@ + mip_tail(w as int, h as int, offset as int, len as int, 0));
            vstd::arithmetic::power2::lemma2_to64();
            assert(w as nat * pow2(0) <= width as nat);
        }
        while w > 1 && h > 1 && half_level_fits(w, h, len - offset)
            invariant
                1 <= w,
                1 <= h,
                offset <= len,
                w as nat * pow2(level as nat) <= width as nat,
                full == plan@ + mip_tail(w as int, h as int, offset as int, len as int, level as int),
            decreases w,
        {
            let w2: u32 = w / 2;
            let h2: u32 = h / 2;
            proof {
                assert(0 <= (w2 as int) * (h2 as int) && (w2 as int) * (h2 as int) <= (
                w2 as int) * (h2 as int) * 4) by (nonlinear_arith);
            }
            let sz: usize = ((w2 as u64) * (h2 as u64) * 4) as usize;
            proof {
                // The level counter stays far below its type's range: a
                // level of 32 would mean the width had been halved from
                // above the type's range.
                vstd::arithmetic::power2::lemma2_to64();
                if level >= 32 {
                    if level > 32 {
                        vstd::arithmetic::power2::lemma_pow2_strictly_increases(
                            32,
                            level as nat,
                        );
                    }
                    assert(w as nat * pow2(level as nat) >= pow2(level as nat))
                        by (nonlinear_arith)
                        requires
                            w >= 1,
                    ;
                    assert(false);
                }
            }
            let entry = MipLevel { level: level + 1, width: w2, height: h2, offset };
            plan.push(entry);
            proof {
                let tail = mip_tail(w as int, h as int, offset as int, len as int, level as int);
                assert(tail == seq![entry] + mip_tail(
                    w2 as int,
                    h2 as int,
                    offset as int + sz as int,
                    len as int,
                    level as int + 1,
                ));
                assert(plan@ + mip_tail(
                    w2 as int,
                    h2 as int,
                    offset as int + sz as int,
                    len as int,
                    level as int + 1,
                ) =~= full);
                // The halving keeps the width bound on the level counter.
                vstd::arithmetic::power2::lemma_pow2_unfold(level as nat + 1);
                assert(w2 as nat * pow2(level as nat + 1) <= width as nat) by (nonlinear_arith)
                    requires
                        w2 == w / 2,
                        w > 1,
                        pow2(level as nat + 1) == 2 * pow2(level as nat),
                        w as nat * pow2(level as nat) <= width as nat,
                ;
            }
            w = w2;
            h = h2;
            level = level + 1;
            offset = offset + sz;
        }
        proof {
            assert(mip_tail(w as int, h as int, offset as int, len as int, level as int)
                == Seq::<MipLevel>::empty());
            assert(plan@ =~= full);
        }
        Ok((Graphic { id, pixels, width }, plan))
    }

    /// Replace the mirror with a new pixel buffer and width; the height
    /// is re-derived from the buffer's length.  The caller re-uploads
    /// the base level and regenerates the mip levels.
    ///
    /// Fails exactly on a zero width, from which no height could be
    /// derived.
    pub fn resize(&mut self, pixels: Vec<u8>, width: u32) -> (r: Result<(), RenderError>)
        ensures
            (width == 0) <==> r is Err,
            r is Err ==> r == Err::<(), RenderError>(
                RenderError::MalformedGraphicData {
                    width,
                    height: 0,
                    actual_len: pixels@.len() as usize,
                },
            ) && *final(self) == *old(self),
            width != 0 ==> r == Ok::<(), RenderError>(()) && final(self)@ == (GraphicView {
                id: old(self)@.id,
                pixels: pixels@,
                width,
            }) && final(self).wf(),
    {
        if width == 0 {
            return Err(
                RenderError::MalformedGraphicData { width, height: 0, actual_len: pixels.len() },
            );
        }
        self.pixels = pixels;
        self.width = width;
        Ok(())
    }

    /// Overwrite the mirror in place; the dimensions stay as they are.
    /// The caller re-uploads the base level.
    ///
    /// Fails exactly when the new buffer's length differs from the
    /// mirror's, since an in-place edit cannot change the dimensions.
    pub fn update(&mut self, pixels: Vec<u8>) -> (r: Result<(), RenderError>)
        requires
            old(self).wf(),
        ensures
            (pixels@.len() != old(self)@.pixels.len()) <==> r is Err,
            r is Err ==> r == Err::<(), RenderError>(
                RenderError::MalformedGraphicData {
                    width: old(self)@.width,
                    height: 0,
                    actual_len: pixels@.len() as usize,
                },
            ) && *final(self) == *old(self),
            r is Ok ==> final(self)@ == (GraphicView { pixels: pixels@, ..old(self)@ })
                && final(self).wf(),
    {
        if pixels.len() != self.pixels.len() {
            return Err(
                RenderError::MalformedGraphicData {
                    width: self.width,
                    height: 0,
                    actual_len: pixels.len(),
                },
            );
        }
        self.pixels = pixels;
        Ok(())
    }

    /// The device texture handle.
    pub fn id(&self) -> (r: u32)
        ensures
            r == self@.id,
    {
        self.id
    }

    /// The width of the base level, in pixels.
    pub fn width(&self) -> (r: u32)
        ensures
            r == self@.width,
    {
        self.width
    }

    /// The height of the base level, derived from the mirror's length
    /// and the width.
    pub fn height(&self) -> (r: usize)
        requires
            self.wf(),
        ensures
            r == self.height_spec(),
    {
        (self.pixels.len() / 4) / (self.width as usize)
    }

    /// The CPU-side mirror of the pixel buffer.
    pub fn pixels(&self) -> (r: &Vec<u8>)
        ensures
            r@ == self@.pixels,
    {
        &self.pixels
    }
}

} // verus!
