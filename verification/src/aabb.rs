use vstd::prelude::*;
use crate::fx::{Fx, fx_add_s, fx_wf};
use crate::space::Space3D;

verus! {

/// An axis-aligned bounding box that can obstruct the entity's motion.
#[derive(Clone, Copy, Debug, PartialEq, Eq, Structural)]
pub struct AABBBox {
    pub min: Space3D,
    pub max: Space3D,
}

impl AABBBox {
    pub open spec fn wf(self) -> bool {
        self.min.wf() && self.max.wf()
    }

    pub fn new(min: Space3D, max: Space3D) -> (r: AABBBox)
        ensures
            r == (AABBBox { min, max }),
    {
        AABBBox { min, max }
    }
}

/// Every box in the list is well formed.
pub open spec fn boxes_wf(boxes: Seq<AABBBox>) -> bool {
    forall|i: int| 0 <= i < boxes.len() ==> (#[trigger] boxes[i]).wf()
}

/// The axis along which a displacement is being clamped.
#[derive(Clone, Copy, Debug, PartialEq, Eq, Structural)]
pub enum Axis {
    X,
    Y,
    Z,
}

/// The coordinate of a point along an axis, as a raw.
pub open spec fn axis_val(v: Space3D, ax: Axis) -> int {
    match ax {
        Axis::X => v.x.raw as int,
        Axis::Y => v.y.raw as int,
        Axis::Z => v.z.raw as int,
    }
}

/// The point lies within the box's extent on both axes other than `ax`.
pub open spec fn overlaps_other_axes(pos: Space3D, ax: Axis, b: AABBBox) -> bool {
    match ax {
        Axis::X => axis_val(b.min, Axis::Y) <= axis_val(pos, Axis::Y) <= axis_val(b.max, Axis::Y)
            && axis_val(b.min, Axis::Z) <= axis_val(pos, Axis::Z) <= axis_val(b.max, Axis::Z),
        Axis::Y => axis_val(b.min, Axis::X) <= axis_val(pos, Axis::X) <= axis_val(b.max, Axis::X)
            && axis_val(b.min, Axis::Z) <= axis_val(pos, Axis::Z) <= axis_val(b.max, Axis::Z),
        Axis::Z => axis_val(b.min, Axis::X) <= axis_val(pos, Axis::X) <= axis_val(b.max, Axis::X)
            && axis_val(b.min, Axis::Y) <= axis_val(pos, Axis::Y) <= axis_val(b.max, Axis::Y),
    }
}

/// Clamp a displacement along `ax` against one box: motion toward a face the
/// point would cross is shortened to stop at that face.
pub open spec fn box_clamp_s(pos: Space3D, d: int, ax: Axis, b: AABBBox) -> int {
    if overlaps_other_axes(pos, ax, b) {
        let p = axis_val(pos, ax);
        if d > 0 && p <= axis_val(b.min, ax) && fx_add_s(p, d) > axis_val(b.min, ax) {
            axis_val(b.min, ax) - p
        } else if d < 0 && p >= axis_val(b.max, ax) && fx_add_s(p, d) < axis_val(b.max, ax) {
            axis_val(b.max, ax) - p
        } else {
            d
        }
    } else {
        d
    }
}

/// Clamp a displacement against every box in order.
pub open spec fn clamp_axis_s(pos: Space3D, d: int, ax: Axis, boxes: Seq<AABBBox>) -> int
    decreases boxes.len(),
{
    if boxes.len() == 0 {
        d
    } else {
        clamp_axis_s(pos, box_clamp_s(pos, d, ax, boxes[0]), ax, boxes.skip(1))
    }
}

/// A clamped displacement stays between zero and the requested displacement.
pub proof fn lemma_box_clamp_between(pos: Space3D, d: int, ax: Axis, b: AABBBox)
    requires
        fx_wf(d),
        pos.wf(),
        b.wf(),
    ensures
        d >= 0 ==> 0 <= box_clamp_s(pos, d, ax, b) <= d,
        d <= 0 ==> d <= box_clamp_s(pos, d, ax, b) <= 0,
{
}

/// Clamping against a list stays between zero and the requested displacement.
pub proof fn lemma_clamp_axis_between(pos: Space3D, d: int, ax: Axis, boxes: Seq<AABBBox>)
    requires
        fx_wf(d),
        pos.wf(),
        boxes_wf(boxes),
    ensures
        d >= 0 ==> 0 <= clamp_axis_s(pos, d, ax, boxes) <= d,
        d <= 0 ==> d <= clamp_axis_s(pos, d, ax, boxes) <= 0,
        fx_wf(clamp_axis_s(pos, d, ax, boxes)),
    decreases boxes.len(),
{
    if boxes.len() == 0 {
    } else {
        lemma_box_clamp_between(pos, d, ax, boxes[0]);
        assert(boxes_wf(boxes.skip(1)));
        lemma_clamp_axis_between(pos, box_clamp_s(pos, d, ax, boxes[0]), ax, boxes.skip(1));
    }
}

/// Clamping a zero displacement yields zero.
pub proof fn lemma_clamp_axis_zero(pos: Space3D, ax: Axis, boxes: Seq<AABBBox>)
    requires
        pos.wf(),
        boxes_wf(boxes),
    ensures
        clamp_axis_s(pos, 0, ax, boxes) == 0,
{
    lemma_clamp_axis_between(pos, 0, ax, boxes);
}

/// Clamp one displacement component against every box, in list order.
pub fn clamp_axis(pos: Space3D, d: Fx, ax: Axis, boxes: &Vec<AABBBox>) -> (r: Fx)
    requires
        pos.wf(),
        d.wf(),
        boxes_wf(boxes@),
    ensures
        r.raw == clamp_axis_s(pos, d.raw as int, ax, boxes@),
        r.wf(),
{
    let mut cur: Fx = d;
    let mut i: usize = 0;
    proof {
        assert(boxes@.skip(0) =~= boxes@);
    }
    while i < boxes.len()
        invariant
            0 <= i <= boxes.len(),
            pos.wf(),
            cur.wf(),
            boxes_wf(boxes@),
            clamp_axis_s(pos, d.raw as int, ax, boxes@) == clamp_axis_s(
                pos,
                cur.raw as int,
                ax,
                boxes@.skip(i as int),
            ),
        decreases boxes.len() - i,
    {
        let b = boxes[i];
        proof {
            assert(boxes@.skip(i as int)[0] == boxes@[i as int]);
            assert(boxes@.skip(i as int).skip(1) =~= boxes@.skip(i as int + 1));
            lemma_box_clamp_between(pos, cur.raw as int, ax, b);
        }
        let p: i128 = match ax {
            Axis::X => pos.x.raw,
            Axis::Y => pos.y.raw,
            Axis::Z => pos.z.raw,
        };
        let (bmin, bmax): (i128, i128) = match ax {
            Axis::X => (b.min.x.raw, b.max.x.raw),
            Axis::Y => (b.min.y.raw, b.max.y.raw),
            Axis::Z => (b.min.z.raw, b.max.z.raw),
        };
        let overlaps: bool = match ax {
            Axis::X => b.min.y.raw <= pos.y.raw && pos.y.raw <= b.max.y.raw && b.min.z.raw
                <= pos.z.raw && pos.z.raw <= b.max.z.raw,
            Axis::Y => b.min.x.raw <= pos.x.raw && pos.x.raw <= b.max.x.raw && b.min.z.raw
                <= pos.z.raw && pos.z.raw <= b.max.z.raw,
            Axis::Z => b.min.x.raw <= pos.x.raw && pos.x.raw <= b.max.x.raw && b.min.y.raw
                <= pos.y.raw && pos.y.raw <= b.max.y.raw,
        };
        if overlaps {
            let moved = Fx { raw: p }.fadd(cur);
            if cur.raw > 0 && p <= bmin && moved.raw > bmin {
                cur = Fx { raw: bmin - p };
            } else if cur.raw < 0 && p >= bmax && moved.raw < bmax {
                cur = Fx { raw: bmax - p };
            }
        }
        i = i + 1;
    }
    proof {
        assert(boxes@.skip(i as int) =~= Seq::<AABBBox>::empty());
    }
    cur
}

} // verus!
