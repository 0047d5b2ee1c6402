//! Batching the menu overlay: draw order, scissors, pipelines and buffers.
use vstd::prelude::*;

verus! {

pub const INITIAL_VERTEX_CAPACITY: usize = 16384;

pub const VERTEX_SIZE: usize = 52;

/// `capacity` doubled until it holds `required`; what is required itself once
/// doubling would overflow.
pub open spec fn doubled_to(capacity: int, required: int) -> int
    decreases
            if required > capacity {
                required - capacity
            } else {
                0
            },
{
    if capacity <= 0 || capacity >= required {
        capacity
    } else if capacity * 2 > usize::MAX {
        required
    } else {
        doubled_to(capacity * 2, required)
    }
}

/// The capacity a vertex buffer grows to.
pub open spec fn grown(current: int, required: int) -> int {
    doubled_to(
        if current < 1 {
            1
        } else {
            current
        },
        required,
    )
}

pub fn grown_vertex_capacity(current: usize, required: usize) -> (capacity: usize)
    ensures
        capacity == grown(current as int, required as int),
{
    let mut capacity: usize = if current < 1 {
        1
    } else {
        current
    };
    while capacity < required
        invariant
            capacity >= 1,
            doubled_to(capacity as int, required as int) == grown(current as int, required as int),
        decreases
                if required > capacity {
                    required - capacity
                } else {
                    0
                },
    {
        capacity = match capacity.checked_mul(2) {
            Some(twice) => twice,
            None => required,
        };
    }
    capacity
}

/// Growing covers what is asked for, never shrinks, and at most doubles the
/// larger of the two.
pub proof fn law_growth_covers_required(current: int, required: int)
    requires
        0 <= current <= usize::MAX,
        0 <= required <= usize::MAX,
    ensures
        grown(current, required) >= required,
        grown(current, required) >= current,
        grown(current, required) <= usize::MAX,
        grown(current, required) > current && current > 0 ==> grown(current, required) < 2 * required,
        current >= required && current > 0 ==> grown(current, required) == current,
{
    lemma_doubled(
        if current < 1 {
            1
        } else {
            current
        },
        required,
    );
}

proof fn lemma_doubled(capacity: int, required: int)
    requires
        1 <= capacity <= usize::MAX,
        0 <= required <= usize::MAX,
    ensures
        doubled_to(capacity, required) >= required,
        doubled_to(capacity, required) >= capacity,
        doubled_to(capacity, required) <= usize::MAX,
        doubled_to(capacity, required) > capacity ==> doubled_to(capacity, required) < 2 * required,
        capacity >= required ==> doubled_to(capacity, required) == capacity,
    decreases
            if required > capacity {
                required - capacity
            } else {
                0
            },
{
    if capacity < required && capacity * 2 <= usize::MAX {
        lemma_doubled(capacity * 2, required);
    }
}

/// A clipping rectangle in whole units of the caller's choice.
#[derive(Clone, Copy, Debug, PartialEq, Eq, Structural)]
pub struct Rect {
    pub x: i64,
    pub y: i64,
    pub w: i64,
    pub h: i64,
}

impl Rect {
    /// Coordinates far from overflow.
    pub open spec fn wf(self) -> bool {
        &&& -0x1000_0000_0000 <= self.x <= 0x1000_0000_0000
        &&& -0x1000_0000_0000 <= self.y <= 0x1000_0000_0000
        &&& 0 <= self.w <= 0x1000_0000_0000
        &&& 0 <= self.h <= 0x1000_0000_0000
    }

    /// Whether a point is inside.
    pub open spec fn covers(self, px: int, py: int) -> bool {
        self.x <= px < self.x + self.w && self.y <= py < self.y + self.h
    }
}

/// The larger of two numbers.
pub open spec fn larger(a: int, b: int) -> int {
    if a >= b {
        a
    } else {
        b
    }
}

/// The smaller of two numbers.
pub open spec fn smaller(a: int, b: int) -> int {
    if a <= b {
        a
    } else {
        b
    }
}

/// A nested region clipped to the enclosing one.
pub open spec fn clipped(outer: Option<Rect>, inner: Rect) -> Rect {
    match outer {
        Some(o) => {
            let x0 = larger(inner.x as int, o.x as int);
            let y0 = larger(inner.y as int, o.y as int);
            let x1 = smaller(inner.x + inner.w, o.x + o.w);
            let y1 = smaller(inner.y + inner.h, o.y + o.h);
            Rect {
                x: x0 as i64,
                y: y0 as i64,
                w: larger(x1 - x0, 0) as i64,
                h: larger(y1 - y0, 0) as i64,
            }
        },
        None => inner,
    }
}

fn max64(a: i64, b: i64) -> (m: i64)
    ensures
        m == larger(a as int, b as int),
{
    if a >= b {
        a
    } else {
        b
    }
}

fn min64(a: i64, b: i64) -> (m: i64)
    ensures
        m == smaller(a as int, b as int),
{
    if a <= b {
        a
    } else {
        b
    }
}

pub fn clip(outer: Option<Rect>, inner: Rect) -> (rect: Rect)
    requires
        inner.wf(),
        outer is Some ==> outer->0.wf(),
    ensures
        rect == clipped(outer, inner),
        rect.wf(),
{
    match outer {
        Some(o) => {
            let x0: i64 = max64(inner.x, o.x);
            let y0: i64 = max64(inner.y, o.y);
            let x1: i64 = min64(inner.x + inner.w, o.x + o.w);
            let y1: i64 = min64(inner.y + inner.h, o.y + o.h);
            Rect { x: x0, y: y0, w: max64(x1 - x0, 0), h: max64(y1 - y0, 0) }
        },
        None => inner,
    }
}

/// A nested scissor shows exactly what both regions show.
pub proof fn law_nested_scissor_is_the_intersection(outer: Rect, inner: Rect, px: int, py: int)
    requires
        outer.wf(),
        inner.wf(),
    ensures
        clipped(Some(outer), inner).covers(px, py) <==> outer.covers(px, py) && inner.covers(px, py),
{
}

/// What batching needs to know of an element.
#[derive(Clone, Copy, Debug, PartialEq, Eq, Structural)]
pub enum ElementClass {
    Plain,
    /// A text display hidden behind the world.
    OccludedDisplay,
    /// Blended with the inverted backdrop.
    Invert,
    Tooltip,
    ScissorPush(Rect),
    ScissorPop,
}

/// Whether a call draws an element: occluded displays only, all others, or all.
pub open spec fn selected(class: ElementClass, occluded_only: Option<bool>) -> bool {
    match occluded_only {
        Some(only) => only == (class == ElementClass::OccludedDisplay),
        None => true,
    }
}

/// Drawing the hidden displays and then all other elements draws each element once.
pub proof fn law_hidden_displays_are_drawn_apart(class: ElementClass)
    ensures
        selected(class, None),
        selected(class, Some(true)) != selected(class, Some(false)),
{
}

fn is_selected(class: ElementClass, occluded_only: Option<bool>) -> (yes: bool)
    ensures
        yes == selected(class, occluded_only),
{
    match occluded_only {
        Some(only) => {
            let occluded = match class {
                ElementClass::OccludedDisplay => true,
                _ => false,
            };
            only == occluded
        },
        None => true,
    }
}

/// Whether an element puts vertices in the buffer before the tooltips.
pub open spec fn draws_in_place(class: ElementClass) -> bool {
    class == ElementClass::Plain || class == ElementClass::OccludedDisplay || class
        == ElementClass::Invert
}

/// The elements among the first `n` that are drawn in place, in order.
pub open spec fn in_place(classes: Seq<ElementClass>, occluded_only: Option<bool>, n: int) -> Seq<usize>
    decreases n,
{
    if n <= 0 {
        Seq::empty()
    } else if selected(classes[n - 1], occluded_only) && draws_in_place(classes[n - 1]) {
        in_place(classes, occluded_only, n - 1).push((n - 1) as usize)
    } else {
        in_place(classes, occluded_only, n - 1)
    }
}

/// The tooltips among the first `n`, in order.
pub open spec fn tooltips(classes: Seq<ElementClass>, occluded_only: Option<bool>, n: int) -> Seq<usize>
    decreases n,
{
    if n <= 0 {
        Seq::empty()
    } else if selected(classes[n - 1], occluded_only) && classes[n - 1] == ElementClass::Tooltip {
        tooltips(classes, occluded_only, n - 1).push((n - 1) as usize)
    } else {
        tooltips(classes, occluded_only, n - 1)
    }
}

/// The order in which elements make their vertices: tooltips after everything.
pub fn emission_order(classes: &Vec<ElementClass>, occluded_only: Option<bool>) -> (order: Vec<usize>)
    ensures
        order@ == in_place(classes@, occluded_only, classes@.len() as int) + tooltips(
            classes@,
            occluded_only,
            classes@.len() as int,
        ),
{
    let mut order: Vec<usize> = Vec::new();
    let mut i: usize = 0;
    while i < classes.len()
        invariant
            i <= classes@.len(),
            order@ == in_place(classes@, occluded_only, i as int),
        decreases classes@.len() - i,
    {
        let here = match classes[i] {
            ElementClass::Plain | ElementClass::OccludedDisplay | ElementClass::Invert => true,
            _ => false,
        };
        if is_selected(classes[i], occluded_only) && here {
            order.push(i);
        }
        i = i + 1;
    }
    let ghost first = order@;
    i = 0;
    assert(first + tooltips(classes@, occluded_only, 0) =~= first);
    while i < classes.len()
        invariant
            i <= classes@.len(),
            order@ == first + tooltips(classes@, occluded_only, i as int),
        decreases classes@.len() - i,
    {
        let tip = match classes[i] {
            ElementClass::Tooltip => true,
            _ => false,
        };
        if is_selected(classes[i], occluded_only) && tip {
            order.push(i);
        }
        i = i + 1;
        assert(order@ =~= first + tooltips(classes@, occluded_only, i as int));
    }
    order
}

/// One batch of vertices that share clipping and pipeline.
#[derive(Clone, Copy, Debug, PartialEq, Eq, Structural)]
pub struct DrawOp {
    pub start: u32,
    pub count: u32,
    pub scissor: Option<Rect>,
    pub invert: bool,
    pub depth_test: bool,
}

/// The batches so far and the one being filled.
pub struct Batches {
    pub ops: Seq<DrawOp>,
    pub start: int,
    pub end: int,
    pub scissors: Seq<Rect>,
    pub invert: bool,
}

/// The scissor in force.
pub open spec fn top(scissors: Seq<Rect>) -> Option<Rect> {
    if scissors.len() == 0 {
        None
    } else {
        Some(scissors.last())
    }
}

impl Batches {
    /// Ends the current batch, if it has vertices, and starts the next.
    pub open spec fn flush(self, invert: bool, depth_test: bool) -> Batches {
        Batches {
            ops: if self.end > self.start {
                self.ops.push(
                    DrawOp {
                        start: self.start as u32,
                        count: (self.end - self.start) as u32,
                        scissor: top(self.scissors),
                        invert,
                        depth_test,
                    },
                )
            } else {
                self.ops
            },
            start: self.end,
            ..self
        }
    }

    /// One element with `vertices` vertices.
    pub open spec fn element(self, class: ElementClass, vertices: int, depth_test: bool) -> Batches {
        match class {
            ElementClass::Tooltip => self,
            ElementClass::ScissorPush(rect) => {
                let s = self.flush(self.invert, depth_test);
                Batches { scissors: s.scissors.push(clipped(top(s.scissors), rect)), ..s }
            },
            ElementClass::ScissorPop => {
                let s = self.flush(self.invert, depth_test);
                Batches {
                    scissors: if s.scissors.len() > 0 {
                        s.scissors.drop_last()
                    } else {
                        s.scissors
                    },
                    ..s
                }
            },
            _ => {
                let invert = class == ElementClass::Invert;
                let s = if invert != self.invert {
                    Batches { invert, ..self.flush(self.invert, depth_test) }
                } else {
                    self
                };
                Batches { end: s.end + vertices, ..s }
            },
        }
    }
}

/// An element with the number of vertices it makes.
#[derive(Clone, Copy, Debug, PartialEq, Eq, Structural)]
pub struct MenuItem {
    pub class: ElementClass,
    pub vertices: u32,
}

/// The batches after the first `n` elements.
pub open spec fn batches(items: Seq<MenuItem>, occluded_only: Option<bool>, n: int) -> Batches
    decreases n,
{
    if n <= 0 {
        Batches { ops: Seq::empty(), start: 0, end: 0, scissors: Seq::empty(), invert: false }
    } else {
        let s = batches(items, occluded_only, n - 1);
        let item = items[n - 1];
        if selected(item.class, occluded_only) {
            s.element(item.class, item.vertices as int, occluded_only == Some(true))
        } else {
            s
        }
    }
}

/// Vertices of the tooltips among the first `n` elements.
pub open spec fn tooltip_vertices(items: Seq<MenuItem>, occluded_only: Option<bool>, n: int) -> int
    decreases n,
{
    if n <= 0 {
        0
    } else {
        tooltip_vertices(items, occluded_only, n - 1) + (if items[n - 1].class
            == ElementClass::Tooltip && selected(items[n - 1].class, occluded_only) {
            items[n - 1].vertices as int
        } else {
            0
        })
    }
}

/// All batches of a call: the elements in place, then the tooltips, which are
/// never inverted.
pub open spec fn finished(items: Seq<MenuItem>, occluded_only: Option<bool>) -> Batches {
    let s = batches(items, occluded_only, items.len() as int);
    let s = if s.invert {
        Batches { invert: false, ..s.flush(true, false) }
    } else {
        s
    };
    let s = Batches {
        end: s.end + tooltip_vertices(items, occluded_only, items.len() as int),
        ..s
    };
    s.flush(s.invert, occluded_only == Some(true))
}

/// Vertices of the first `n` elements, drawn or not.
pub open spec fn vertex_total(items: Seq<MenuItem>, n: int) -> int
    decreases n,
{
    if n <= 0 {
        0
    } else {
        vertex_total(items, n - 1) + items[n - 1].vertices
    }
}

proof fn lemma_total_monotonic(items: Seq<MenuItem>, a: int, b: int)
    requires
        0 <= a <= b <= items.len(),
    ensures
        0 <= vertex_total(items, a) <= vertex_total(items, b),
    decreases b,
{
    if a < b {
        lemma_total_monotonic(items, a, b - 1);
    } else if a > 0 {
        lemma_total_monotonic(items, a - 1, a - 1);
    }
}

proof fn lemma_batches_bounded(items: Seq<MenuItem>, occluded_only: Option<bool>, n: int)
    requires
        0 <= n <= items.len(),
    ensures
        0 <= batches(items, occluded_only, n).start <= batches(items, occluded_only, n).end,
        batches(items, occluded_only, n).end + tooltip_vertices(items, occluded_only, n)
            <= vertex_total(items, n),
        tooltip_vertices(items, occluded_only, n) >= 0,
    decreases n,
{
    if n > 0 {
        lemma_batches_bounded(items, occluded_only, n - 1);
    }
}

/// A vector's view under one more condition.
pub open spec fn scissors_ok(scissors: Seq<Rect>) -> bool {
    forall|i: int| 0 <= i < scissors.len() ==> (#[trigger] scissors[i]).wf()
}

/// Ends the current batch (if non-empty) and starts the next one at `end`.
pub fn flush_draw_op(
    draw_ops: &mut Vec<DrawOp>,
    cmd_start: &mut u32,
    end: u32,
    scissor: Option<Rect>,
    invert: bool,
    depth_test: bool,
)
    ensures
        *final(cmd_start) == end,
        final(draw_ops)@ == (if end > *old(cmd_start) {
            old(draw_ops)@.push(
                DrawOp {
                    start: *old(cmd_start),
                    count: (end - *old(cmd_start)) as u32,
                    scissor,
                    invert,
                    depth_test,
                },
            )
        } else {
            old(draw_ops)@
        }),
{
    if end > *cmd_start {
        draw_ops.push(
            DrawOp { start: *cmd_start, count: end - *cmd_start, scissor, invert, depth_test },
        );
    }
    *cmd_start = end;
}

fn top_scissor(scissors: &Vec<Rect>) -> (rect: Option<Rect>)
    ensures
        rect == top(scissors@),
{
    if scissors.len() == 0 {
        None
    } else {
        Some(scissors[scissors.len() - 1])
    }
}

/// The batches of one call.
pub struct OverlayPlan {
    pub ops: Vec<DrawOp>,
    pub vertices: u32,
}

/// Splits the elements into batches: a scissor change or a switch of blending
/// ends a batch.
pub fn plan_overlay(items: &Vec<MenuItem>, occluded_only: Option<bool>) -> (plan: OverlayPlan)
    requires
        vertex_total(items@, items@.len() as int) <= u32::MAX,
        forall|i: int|
            0 <= i < items@.len() ==> ((#[trigger] items@[i]).class matches ElementClass::ScissorPush(
                r,
            ) ==> r.wf()),
    ensures
        plan.ops@ == finished(items@, occluded_only).ops,
        plan.vertices == finished(items@, occluded_only).end,
        covers_all(plan.ops@, plan.vertices as int),
{
    let depth_test = match occluded_only {
        Some(only) => only,
        None => false,
    };
    let mut ops: Vec<DrawOp> = Vec::new();
    let mut scissors: Vec<Rect> = Vec::new();
    let mut start: u32 = 0;
    let mut end: u32 = 0;
    let mut invert = false;
    let mut tips: u32 = 0;
    let mut i: usize = 0;
    while i < items.len()
        invariant
            i <= items@.len(),
            vertex_total(items@, items@.len() as int) <= u32::MAX,
            forall|j: int|
                0 <= j < items@.len() ==> ((#[trigger] items@[j]).class matches ElementClass::ScissorPush(
                    r,
                ) ==> r.wf()),
            depth_test == (occluded_only == Some(true)),
            scissors_ok(scissors@),
            batches(items@, occluded_only, i as int) == (Batches {
                ops: ops@,
                start: start as int,
                end: end as int,
                scissors: scissors@,
                invert,
            }),
            tips == tooltip_vertices(items@, occluded_only, i as int),
        decreases items@.len() - i,
    {
        proof {
            lemma_batches_bounded(items@, occluded_only, i as int);
            lemma_batches_bounded(items@, occluded_only, i + 1);
            lemma_total_monotonic(items@, i as int, items@.len() as int);
            lemma_total_monotonic(items@, i + 1, items@.len() as int);
            assert(items@[i as int].class matches ElementClass::ScissorPush(r) ==> r.wf());
        }
        let ghost before = batches(items@, occluded_only, i as int);
        let item = items[i];
        if is_selected(item.class, occluded_only) {
            match item.class {
                ElementClass::Tooltip => {
                    tips = tips + item.vertices;
                },
                ElementClass::ScissorPush(rect) => {
                    let outer = top_scissor(&scissors);
                    flush_draw_op(&mut ops, &mut start, end, outer, invert, depth_test);
                    scissors.push(clip(outer, rect));
                },
                ElementClass::ScissorPop => {
                    let outer = top_scissor(&scissors);
                    flush_draw_op(&mut ops, &mut start, end, outer, invert, depth_test);
                    if scissors.len() > 0 {
                        let ghost all = scissors@;
                        let popped = scissors.pop();
                        assert(scissors@ =~= all.drop_last());
                    }
                },
                _ => {
                    let wants = match item.class {
                        ElementClass::Invert => true,
                        _ => false,
                    };
                    if wants != invert {
                        let outer = top_scissor(&scissors);
                        flush_draw_op(&mut ops, &mut start, end, outer, invert, depth_test);
                        invert = wants;
                    }
                    end = end + item.vertices;
                },
            }
        }
        i = i + 1;
    }
    proof {
        lemma_batches_bounded(items@, occluded_only, items@.len() as int);
    }
    let outer = top_scissor(&scissors);
    if invert {
        flush_draw_op(&mut ops, &mut start, end, outer, true, false);
        invert = false;
    }
    end = end + tips;
    flush_draw_op(&mut ops, &mut start, end, outer, invert, depth_test);
    proof {
        law_batches_cover_every_vertex(items@, occluded_only);
    }
    OverlayPlan { ops, vertices: end }
}

/// `ops` cover the vertices from 0 to `end` in order, without gap or overlap.
pub open spec fn covers_all(ops: Seq<DrawOp>, end: int) -> bool
    decreases ops.len(),
{
    if ops.len() == 0 {
        end == 0
    } else {
        let last = ops.last();
        &&& last.count > 0
        &&& last.start + last.count == end
        &&& covers_all(ops.drop_last(), last.start as int)
    }
}

proof fn lemma_flush_covers(s: Batches, invert: bool, depth_test: bool)
    requires
        covers_all(s.ops, s.start),
        0 <= s.start <= s.end <= u32::MAX,
    ensures
        covers_all(s.flush(invert, depth_test).ops, s.end),
{
    if s.end > s.start {
        let after = s.flush(invert, depth_test).ops;
        assert(after.drop_last() =~= s.ops);
    }
}

proof fn lemma_batches_cover(items: Seq<MenuItem>, occluded_only: Option<bool>, n: int)
    requires
        0 <= n <= items.len(),
        vertex_total(items, items.len() as int) <= u32::MAX,
    ensures
        covers_all(
            batches(items, occluded_only, n).ops,
            batches(items, occluded_only, n).start,
        ),
    decreases n,
{
    if n > 0 {
        lemma_batches_cover(items, occluded_only, n - 1);
        lemma_batches_bounded(items, occluded_only, n - 1);
        lemma_total_monotonic(items, n - 1, items.len() as int);
        let s = batches(items, occluded_only, n - 1);
        lemma_flush_covers(s, s.invert, occluded_only == Some(true));
    }
}

/// Every vertex of a call is in exactly one batch, and batches keep the order in
/// which vertices were made.
pub proof fn law_batches_cover_every_vertex(items: Seq<MenuItem>, occluded_only: Option<bool>)
    requires
        vertex_total(items, items.len() as int) <= u32::MAX,
    ensures
        covers_all(finished(items, occluded_only).ops, finished(items, occluded_only).end),
{
    let n = items.len() as int;
    lemma_batches_cover(items, occluded_only, n);
    lemma_batches_bounded(items, occluded_only, n);
    let s = batches(items, occluded_only, n);
    lemma_flush_covers(s, true, false);
    let s2 = if s.invert {
        Batches { invert: false, ..s.flush(true, false) }
    } else {
        s
    };
    let s3 = Batches { end: s2.end + tooltip_vertices(items, occluded_only, n), ..s2 };
    lemma_flush_covers(s3, s3.invert, occluded_only == Some(true));
}

/// A batch that holds the vertices from `from` to `to` with a given state.
pub open spec fn batch_with(ops: Seq<DrawOp>, from: int, to: int, scissor: Option<Rect>, invert: bool) -> bool {
    exists|k: int|
        0 <= k < ops.len() && (#[trigger] ops[k]).start <= from && to <= ops[k].start + ops[k].count
            && ops[k].scissor == scissor && ops[k].invert == invert
}

/// The state an element is drawn with when it is reached.
pub open spec fn drawn_right(s: Batches, from: int, to: int, scissor: Option<Rect>, invert: bool) -> bool {
    batch_with(s.ops, from, to, scissor, invert) || (s.start <= from && to <= s.end && top(
        s.scissors,
    ) == scissor && s.invert == invert)
}

proof fn lemma_flush_keeps(s: Batches, invert: bool, depth: bool, from: int, to: int, scissor: Option<Rect>)
    requires
        0 <= s.start <= s.end <= u32::MAX,
        from < to,
        drawn_right(s, from, to, scissor, invert),
    ensures
        batch_with(s.flush(s.invert, depth).ops, from, to, scissor, invert),
{
    let after = s.flush(s.invert, depth).ops;
    if batch_with(s.ops, from, to, scissor, invert) {
        let k = choose|k: int|
            0 <= k < s.ops.len() && (#[trigger] s.ops[k]).start <= from && to <= s.ops[k].start
                + s.ops[k].count && s.ops[k].scissor == scissor && s.ops[k].invert == invert;
        assert(after[k] == s.ops[k]);
    } else {
        let k = s.ops.len() as int;
        assert(after[k].start <= from && to <= after[k].start + after[k].count);
    }
}

proof fn lemma_element_keeps(s: Batches, class: ElementClass, vertices: int, depth: bool, from: int, to: int, scissor: Option<Rect>, invert: bool)
    requires
        0 <= s.start <= s.end <= u32::MAX,
        0 <= vertices,
        from < to,
        drawn_right(s, from, to, scissor, invert),
    ensures
        drawn_right(s.element(class, vertices, depth), from, to, scissor, invert),
{
    lemma_flush_keeps(s, invert, depth, from, to, scissor);
}

proof fn lemma_drawn_right_stays(
    items: Seq<MenuItem>,
    occluded_only: Option<bool>,
    i: int,
    n: int,
    from: int,
    to: int,
    scissor: Option<Rect>,
    invert: bool,
)
    requires
        0 <= i <= n <= items.len(),
        vertex_total(items, items.len() as int) <= u32::MAX,
        from < to,
        drawn_right(batches(items, occluded_only, i), from, to, scissor, invert),
    ensures
        drawn_right(batches(items, occluded_only, n), from, to, scissor, invert),
    decreases n - i,
{
    if i < n {
        lemma_drawn_right_stays(items, occluded_only, i, n - 1, from, to, scissor, invert);
        lemma_batches_bounded(items, occluded_only, n - 1);
        lemma_total_monotonic(items, n - 1, items.len() as int);
        lemma_element_keeps(
            batches(items, occluded_only, n - 1),
            items[n - 1].class,
            items[n - 1].vertices as int,
            occluded_only == Some(true),
            from,
            to,
            scissor,
            invert,
        );
    }
}

/// Every element drawn in place ends up in a batch with the scissor that was in
/// force when it was reached and with its own blending.
pub proof fn law_elements_keep_their_state(items: Seq<MenuItem>, occluded_only: Option<bool>, i: int)
    requires
        0 <= i < items.len(),
        vertex_total(items, items.len() as int) <= u32::MAX,
        selected(items[i].class, occluded_only),
        draws_in_place(items[i].class),
        items[i].vertices > 0,
    ensures
        batch_with(
            finished(items, occluded_only).ops,
            batches(items, occluded_only, i).end,
            batches(items, occluded_only, i).end + items[i].vertices,
            top(batches(items, occluded_only, i).scissors),
            items[i].class == ElementClass::Invert,
        ),
{
    let n = items.len() as int;
    let depth = occluded_only == Some(true);
    let s = batches(items, occluded_only, i);
    let from = s.end;
    let to = s.end + items[i].vertices;
    let scissor = top(s.scissors);
    let invert = items[i].class == ElementClass::Invert;
    lemma_batches_bounded(items, occluded_only, i);
    lemma_batches_bounded(items, occluded_only, n);
    assert(drawn_right(batches(items, occluded_only, i + 1), from, to, scissor, invert));
    lemma_drawn_right_stays(items, occluded_only, i + 1, n, from, to, scissor, invert);
    let last = batches(items, occluded_only, n);
    let tips = tooltip_vertices(items, occluded_only, n);
    if last.invert {
        lemma_flush_keeps(last, invert, false, from, to, scissor);
        let mid = Batches { invert: false, ..last.flush(true, false) };
        let end = Batches { end: mid.end + tips, ..mid };
        assert(drawn_right(end, from, to, scissor, invert));
        lemma_flush_keeps(end, invert, depth, from, to, scissor);
    } else {
        let end = Batches { end: last.end + tips, ..last };
        assert(drawn_right(end, from, to, scissor, invert));
        lemma_flush_keeps(end, invert, depth, from, to, scissor);
    }
}

/// The pipelines of the overlay.
#[derive(Clone, Copy, Debug, PartialEq, Eq, Structural)]
pub enum OverlayPipeline {
    Normal,
    Invert,
    Depth,
}

/// One recorded command. A missing scissor is the whole screen.
#[derive(Clone, Copy, Debug, PartialEq, Eq, Structural)]
pub enum OverlayCommand {
    Pipeline(OverlayPipeline),
    Scissor(Option<Rect>),
    Draw { first: u32, count: u32 },
}

/// The pipeline of a batch.
pub open spec fn pipeline_of(op: DrawOp) -> OverlayPipeline {
    if op.depth_test {
        OverlayPipeline::Depth
    } else if op.invert {
        OverlayPipeline::Invert
    } else {
        OverlayPipeline::Normal
    }
}

/// The commands of one batch, given the blending that is bound.
pub open spec fn op_commands(op: DrawOp, bound: Option<bool>, base: int) -> Seq<OverlayCommand> {
    (if bound == Some(op.invert) {
        Seq::empty()
    } else {
        seq![OverlayCommand::Pipeline(pipeline_of(op))]
    }) + seq![
        OverlayCommand::Scissor(op.scissor),
        OverlayCommand::Draw { first: (base + op.start) as u32, count: op.count },
    ]
}

/// The commands of the first `n` batches.
pub open spec fn submit_commands(ops: Seq<DrawOp>, base: int, n: int) -> Seq<OverlayCommand>
    decreases n,
{
    if n <= 0 {
        Seq::empty()
    } else {
        submit_commands(ops, base, n - 1) + op_commands(
            ops[n - 1],
            if n >= 2 {
                Some(ops[n - 2].invert)
            } else {
                None
            },
            base,
        )
    }
}

proof fn lemma_covers_within(ops: Seq<DrawOp>, end: int, i: int)
    requires
        covers_all(ops, end),
        0 <= i < ops.len(),
    ensures
        ops[i].count > 0,
        ops[i].start + ops[i].count <= end,
    decreases ops.len(),
{
    if i < ops.len() - 1 {
        lemma_covers_within(ops.drop_last(), ops.last().start as int, i);
    }
}

/// Records the batches of a plan whose vertices begin at `base` and leaves the
/// whole screen as scissor.
pub fn submit(plan: &OverlayPlan, base: u32) -> (commands: Vec<OverlayCommand>)
    requires
        covers_all(plan.ops@, plan.vertices as int),
        base + plan.vertices <= u32::MAX,
    ensures
        plan.ops@.len() == 0 ==> commands@.len() == 0,
        plan.ops@.len() > 0 ==> commands@ == submit_commands(
            plan.ops@,
            base as int,
            plan.ops@.len() as int,
        ).push(OverlayCommand::Scissor(None)),
{
    let mut commands: Vec<OverlayCommand> = Vec::new();
    if plan.ops.len() == 0 {
        return commands;
    }
    let mut i: usize = 0;
    while i < plan.ops.len()
        invariant
            i <= plan.ops@.len(),
            covers_all(plan.ops@, plan.vertices as int),
            base + plan.vertices <= u32::MAX,
            commands@ == submit_commands(plan.ops@, base as int, i as int),
        decreases plan.ops@.len() - i,
    {
        proof {
            lemma_covers_within(plan.ops@, plan.vertices as int, i as int);
        }
        let ghost before = commands@;
        let op = plan.ops[i];
        if i == 0 || plan.ops[i - 1].invert != op.invert {
            let pipeline = if op.depth_test {
                OverlayPipeline::Depth
            } else if op.invert {
                OverlayPipeline::Invert
            } else {
                OverlayPipeline::Normal
            };
            commands.push(OverlayCommand::Pipeline(pipeline));
        }
        commands.push(OverlayCommand::Scissor(op.scissor));
        commands.push(OverlayCommand::Draw { first: base + op.start, count: op.count });
        i = i + 1;
        assert(commands@ =~= submit_commands(plan.ops@, base as int, i as int));
    }
    commands.push(OverlayCommand::Scissor(None));
    commands
}

/// The first vertex free behind a plan whose vertices begin at `base`, which is `base`
/// itself if nothing is drawn; none if the vertices cannot be counted.
pub fn next_vertex(plan: &OverlayPlan, base: u32) -> (next: Option<u32>)
    ensures
        next == (if plan.ops@.len() == 0 {
            Some(base)
        } else if base + plan.vertices <= u32::MAX {
            Some((base + plan.vertices) as u32)
        } else {
            None
        }),
{
    if plan.ops.len() == 0 {
        Some(base)
    } else {
        base.checked_add(plan.vertices)
    }
}

/// The draws of a plan stay between its first vertex and the next free one, so that what
/// is drawn from there on overlaps none of them.
pub proof fn law_draws_end_before_the_next_vertex(plan: OverlayPlan, base: u32, i: int)
    requires
        covers_all(plan.ops@, plan.vertices as int),
        0 <= i < plan.ops@.len(),
    ensures
        base <= base + plan.ops@[i].start < base + plan.ops@[i].start + plan.ops@[i].count <= base
            + plan.vertices,
{
    lemma_covers_within(plan.ops@, plan.vertices as int, i);
}

/// A vertex buffer that waits for its frame's fence before it is freed.
#[derive(Clone, Copy, Debug, PartialEq, Eq, Structural)]
pub struct RetiredBuffer {
    pub frame: usize,
    pub buffer: u64,
}

/// The vertex buffers of the frames in flight.
pub struct OverlayBuffers {
    pub buffers: Vec<u64>,
    pub capacities: Vec<usize>,
    pub retired: Vec<RetiredBuffer>,
}

impl OverlayBuffers {
    /// One capacity per buffer.
    pub open spec fn wf(self) -> bool {
        self.buffers@.len() == self.capacities@.len()
    }

    /// The capacity a frame's buffer has to grow to, if it has to.
    pub fn needed_capacity(&self, frame: usize, required: usize) -> (capacity: Option<usize>)
        requires
            self.wf(),
            frame < self.capacities@.len(),
        ensures
            capacity == (if required > self.capacities@[frame as int] {
                Some(grown(self.capacities@[frame as int] as int, required as int) as usize)
            } else {
                None
            }),
    {
        if required > self.capacities[frame] {
            Some(grown_vertex_capacity(self.capacities[frame], required))
        } else {
            None
        }
    }

    /// Puts a larger buffer in place and keeps the old one until its frame comes
    /// round again.
    pub fn replace(&mut self, frame: usize, buffer: u64, capacity: usize)
        requires
            old(self).wf(),
            frame < old(self).buffers@.len(),
        ensures
            final(self).wf(),
            final(self).buffers@ == old(self).buffers@.update(frame as int, buffer),
            final(self).capacities@ == old(self).capacities@.update(frame as int, capacity),
            final(self).retired@ == old(self).retired@.push(
                RetiredBuffer { frame, buffer: old(self).buffers@[frame as int] },
            ),
    {
        let old_buffer: u64 = self.buffers[frame];
        self.retired.push(RetiredBuffer { frame, buffer: old_buffer });
        self.buffers[frame] = buffer;
        self.capacities[frame] = capacity;
    }

    /// Hands out the buffers retired in `frame`, whose fence has signalled, and
    /// keeps the others in order.
    pub fn begin_frame(&mut self, frame: usize) -> (freed: Vec<RetiredBuffer>)
        ensures
            freed@ == old(self).retired@.filter(|r: RetiredBuffer| r.frame == frame),
            final(self).retired@ == old(self).retired@.filter(|r: RetiredBuffer| r.frame != frame),
            final(self).buffers == old(self).buffers,
            final(self).capacities == old(self).capacities,
    {
        let ghost all = self.retired@;
        let ghost here = |r: RetiredBuffer| r.frame == frame;
        let ghost elsewhere = |r: RetiredBuffer| r.frame != frame;
        let mut freed: Vec<RetiredBuffer> = Vec::new();
        let mut waiting: Vec<RetiredBuffer> = Vec::new();
        let mut i: usize = 0;
        proof {
            reveal(Seq::filter);
            assert(all.take(0) =~= Seq::empty());
        }
        while i < self.retired.len()
            invariant
                self.retired@ == all,
                self.buffers == old(self).buffers,
                self.capacities == old(self).capacities,
                i <= all.len(),
                here == (|r: RetiredBuffer| r.frame == frame),
                elsewhere == (|r: RetiredBuffer| r.frame != frame),
                freed@ == all.take(i as int).filter(here),
                waiting@ == all.take(i as int).filter(elsewhere),
            decreases all.len() - i,
        {
            proof {
                reveal(Seq::filter);
                assert(all.take(i + 1).drop_last() =~= all.take(i as int));
                assert(all.take(i + 1).last() == all[i as int]);
            }
            let r = self.retired[i];
            if r.frame == frame {
                freed.push(r);
            } else {
                waiting.push(r);
            }
            i = i + 1;
        }
        assert(all.take(all.len() as int) =~= all);
        self.retired = waiting;
        freed
    }
}

/// A buffer grows by doubling: its new capacity is its old one, or one for an empty
/// buffer, doubled some number of times, unless that cannot be counted.
pub proof fn law_growth_doubles(current: int, required: int) -> (times: nat)
    requires
        0 <= current <= usize::MAX,
        0 <= required,
        2 * required <= usize::MAX,
    ensures
        grown(current, required) == (if current == 0 {
            1
        } else {
            current
        }) * vstd::arithmetic::power2::pow2(times),
{
    lemma_doublings(
        if current < 1 {
            1
        } else {
            current
        },
        required,
    )
}

proof fn lemma_doublings(capacity: int, required: int) -> (times: nat)
    requires
        1 <= capacity,
        2 * required <= usize::MAX,
    ensures
        doubled_to(capacity, required) == capacity * vstd::arithmetic::power2::pow2(times),
    decreases
            if required > capacity {
                required - capacity
            } else {
                0
            },
{
    vstd::arithmetic::power2::lemma2_to64();
    if capacity >= required {
        assert(capacity * 1 == capacity);
        0
    } else {
        let rest = lemma_doublings(capacity * 2, required);
        vstd::arithmetic::power2::lemma_pow2_unfold(rest + 1);
        assert(capacity * 2 * vstd::arithmetic::power2::pow2(rest) == capacity * (2
            * vstd::arithmetic::power2::pow2(rest))) by (nonlinear_arith);
        rest + 1
    }
}

/// A call for hidden displays draws those and nothing else, a call for the others all
/// but those.
pub proof fn law_calls_draw_what_they_are_for(class: ElementClass)
    ensures
        selected(class, Some(true)) <==> class is OccludedDisplay,
        selected(class, Some(false)) <==> !(class is OccludedDisplay),
{
}

/// Whether a call draws an element: it shows something, and the call is for it.
pub open spec fn takes_part(class: ElementClass, occluded_only: Option<bool>) -> bool {
    &&& !(class is ScissorPush) && !(class is ScissorPop)
    &&& occluded_only == Some(true) ==> class is OccludedDisplay
    &&& occluded_only == Some(false) ==> !(class is OccludedDisplay)
}

proof fn lemma_placed(classes: Seq<ElementClass>, occluded_only: Option<bool>, n: int)
    requires
        0 <= n <= classes.len() <= usize::MAX,
    ensures
        ({
            let here = in_place(classes, occluded_only, n);
            let tips = tooltips(classes, occluded_only, n);
            &&& forall|k: int|
                0 <= k < here.len() ==> (#[trigger] here[k]) < n && takes_part(
                    classes[here[k] as int],
                    occluded_only,
                ) && !(classes[here[k] as int] is Tooltip)
            &&& forall|k: int|
                0 <= k < tips.len() ==> (#[trigger] tips[k]) < n && takes_part(
                    classes[tips[k] as int],
                    occluded_only,
                ) && classes[tips[k] as int] is Tooltip
            &&& forall|j: int, k: int|
                0 <= j < k < here.len() ==> (#[trigger] here[j]) < (#[trigger] here[k])
            &&& forall|j: int, k: int|
                0 <= j < k < tips.len() ==> (#[trigger] tips[j]) < (#[trigger] tips[k])
        }),
    decreases n,
{
    if n > 0 {
        lemma_placed(classes, occluded_only, n - 1);
    }
}

proof fn lemma_place_of(
    classes: Seq<ElementClass>,
    occluded_only: Option<bool>,
    n: int,
    i: int,
)
    requires
        0 <= i < n <= classes.len() <= usize::MAX,
        takes_part(classes[i], occluded_only),
    ensures
        classes[i] is Tooltip ==> tooltips(classes, occluded_only, n).contains(i as usize),
        !(classes[i] is Tooltip) ==> in_place(classes, occluded_only, n).contains(i as usize),
    decreases n,
{
    let here = in_place(classes, occluded_only, n);
    let tips = tooltips(classes, occluded_only, n);
    let here_before = in_place(classes, occluded_only, n - 1);
    let tips_before = tooltips(classes, occluded_only, n - 1);
    if i == n - 1 {
        if classes[i] is Tooltip {
            assert(tips[tips_before.len() as int] == i);
        } else {
            assert(here[here_before.len() as int] == i);
        }
    } else {
        lemma_place_of(classes, occluded_only, n - 1, i);
        if classes[i] is Tooltip {
            let k = tips_before.index_of(i as usize);
            assert(tips[k] == i);
        } else {
            let k = here_before.index_of(i as usize);
            assert(here[k] == i);
        }
    }
}

/// Every element that takes part in a call makes its vertices, and no other does. They
/// keep their order, but tooltips come after all others.
pub proof fn law_elements_are_drawn_in_order(
    classes: Seq<ElementClass>,
    occluded_only: Option<bool>,
    i: int,
    j: int,
    k: int,
)
    requires
        classes.len() <= usize::MAX,
        0 <= i < classes.len(),
    ensures
        ({
            let n = classes.len() as int;
            let order = in_place(classes, occluded_only, n) + tooltips(classes, occluded_only, n);
            &&& order.contains(i as usize) <==> takes_part(classes[i], occluded_only)
            &&& 0 <= j < k < order.len() ==> {
                let a = classes[order[j] as int];
                let b = classes[order[k] as int];
                &&& a is Tooltip ==> b is Tooltip
                &&& a is Tooltip == b is Tooltip ==> order[j] < order[k]
            }
        }),
{
    let n = classes.len() as int;
    let here = in_place(classes, occluded_only, n);
    let tips = tooltips(classes, occluded_only, n);
    let order = here + tips;
    lemma_placed(classes, occluded_only, n);
    if takes_part(classes[i], occluded_only) {
        lemma_place_of(classes, occluded_only, n, i);
        if classes[i] is Tooltip {
            let p = tips.index_of(i as usize);
            assert(order[here.len() + p] == i);
        } else {
            let p = here.index_of(i as usize);
            assert(order[p] == i);
        }
    }
    if order.contains(i as usize) {
        let p = order.index_of(i as usize);
        if p < here.len() {
            assert(here[p] == i);
        } else {
            assert(tips[p - here.len()] == i);
        }
    }
    if 0 <= j < k < order.len() {
        if k < here.len() {
            assert(here[j] < here[k]);
        } else if j >= here.len() {
            assert(tips[j - here.len()] < tips[k - here.len()]);
        } else {
            assert(order[j] == here[j] && order[k] == tips[k - here.len()]);
        }
    }
}

/// The regions that are open at element `n`, as they were asked for.
pub open spec fn open_regions(items: Seq<MenuItem>, occluded_only: Option<bool>, n: int) -> Seq<
    Rect,
>
    decreases n,
{
    if n <= 0 || occluded_only == Some(true) {
        Seq::empty()
    } else {
        let before = open_regions(items, occluded_only, n - 1);
        match items[n - 1].class {
            ElementClass::ScissorPush(rect) => before.push(rect),
            ElementClass::ScissorPop => if before.len() > 0 {
                before.drop_last()
            } else {
                before
            },
            _ => before,
        }
    }
}

/// A point is inside all of the first `n` regions.
pub open spec fn inside_all(regions: Seq<Rect>, n: int, px: int, py: int) -> bool {
    forall|k: int|
        0 <= k < n ==> (#[trigger] regions[k]).x <= px < regions[k].x + regions[k].w && regions[k].y
            <= py < regions[k].y + regions[k].h
}

proof fn lemma_scissors_nest(
    items: Seq<MenuItem>,
    occluded_only: Option<bool>,
    n: int,
    px: int,
    py: int,
)
    requires
        0 <= n <= items.len(),
        forall|i: int|
            0 <= i < items.len() ==> ((#[trigger] items[i]).class matches ElementClass::ScissorPush(
                r,
            ) ==> r.wf()),
    ensures
        ({
            let stack = batches(items, occluded_only, n).scissors;
            let regions = open_regions(items, occluded_only, n);
            &&& stack.len() == regions.len()
            &&& scissors_ok(stack)
            &&& forall|k: int|
                0 <= k < stack.len() ==> ((#[trigger] stack[k]).covers(px, py) <==> inside_all(
                    regions,
                    k + 1,
                    px,
                    py,
                ))
        }),
    decreases n,
{
    if n > 0 {
        lemma_scissors_nest(items, occluded_only, n - 1, px, py);
        let stack = batches(items, occluded_only, n - 1).scissors;
        let regions = open_regions(items, occluded_only, n - 1);
        let next = batches(items, occluded_only, n).scissors;
        let after = open_regions(items, occluded_only, n);
        let item = items[n - 1];
        assert(item.class matches ElementClass::ScissorPush(r) ==> r.wf());
        assert forall|k: int| 0 <= k < next.len() implies ((#[trigger] next[k]).covers(px, py)
            <==> inside_all(after, k + 1, px, py)) && next[k].wf() by {
            if k < stack.len() {
                assert(next[k] == stack[k]);
                assert forall|j: int| 0 <= j < k + 1 implies after[j] == #[trigger] regions[j] by {}
                assert(inside_all(after, k + 1, px, py) <==> inside_all(regions, k + 1, px, py)) by {
                    if inside_all(after, k + 1, px, py) {
                        assert forall|j: int| 0 <= j < k + 1 implies (#[trigger] regions[j]).x <= px
                            < regions[j].x + regions[j].w && regions[j].y <= py < regions[j].y
                            + regions[j].h by {
                            assert(after[j] == regions[j]);
                        }
                    }
                    if inside_all(regions, k + 1, px, py) {
                        assert forall|j: int| 0 <= j < k + 1 implies (#[trigger] after[j]).x <= px
                            < after[j].x + after[j].w && after[j].y <= py < after[j].y + after[j].h by {
                            assert(after[j] == regions[j]);
                        }
                    }
                }
                assert(stack[k].wf());
            } else {
                let rect = item.class->ScissorPush_0;
                assert(rect.wf());
                assert(after[k] == rect);
                if stack.len() > 0 {
                    let outer = stack.last();
                    assert(outer.wf());
                    law_nested_scissor_is_the_intersection(outer, rect, px, py);
                    assert(stack[k - 1] == outer);
                    if inside_all(after, k + 1, px, py) {
                        assert forall|j: int| 0 <= j < k implies (#[trigger] regions[j]).x <= px
                            < regions[j].x + regions[j].w && regions[j].y <= py < regions[j].y
                            + regions[j].h by {
                            assert(after[j] == regions[j]);
                        }
                        assert(inside_all(regions, k, px, py));
                        assert(after[k].x <= px);
                    }
                    if next[k].covers(px, py) {
                        assert(inside_all(regions, k, px, py));
                        assert forall|j: int| 0 <= j < k + 1 implies (#[trigger] after[j]).x <= px
                            < after[j].x + after[j].w && after[j].y <= py < after[j].y + after[j].h by {
                            if j < k {
                                assert(after[j] == regions[j]);
                            }
                        }
                    }
                } else {
                    assert(next[k] == rect);
                    if inside_all(after, k + 1, px, py) {
                        assert(after[k].x <= px);
                    }
                }
            }
        }
        assert(scissors_ok(next)) by {
            assert forall|k: int| 0 <= k < next.len() implies (#[trigger] next[k]).wf() by {
                assert(next[k].covers(px, py) <==> inside_all(after, k + 1, px, py));
            }
        }
    }
}

/// The scissor in force at an element shows a point exactly if every region that is open
/// there shows it; without one the whole screen shows.
pub proof fn law_scissors_show_what_all_regions_show(
    items: Seq<MenuItem>,
    occluded_only: Option<bool>,
    i: int,
    px: int,
    py: int,
)
    requires
        0 <= i <= items.len(),
        forall|j: int|
            0 <= j < items.len() ==> ((#[trigger] items[j]).class matches ElementClass::ScissorPush(
                r,
            ) ==> r.wf()),
    ensures
        ({
            let regions = open_regions(items, occluded_only, i);
            match top(batches(items, occluded_only, i).scissors) {
                Some(rect) => rect.covers(px, py) <==> inside_all(
                    regions,
                    regions.len() as int,
                    px,
                    py,
                ),
                None => regions.len() == 0,
            }
        }),
{
    lemma_scissors_nest(items, occluded_only, i, px, py);
    let stack = batches(items, occluded_only, i).scissors;
    if stack.len() > 0 {
        assert(stack[stack.len() - 1] == stack.last());
    }
}

/// Vertices of the elements among the first `n` that a call draws, tooltips or others.
pub open spec fn vertices_of(
    items: Seq<MenuItem>,
    occluded_only: Option<bool>,
    tips: bool,
    n: int,
) -> int
    decreases n,
{
    if n <= 0 {
        0
    } else {
        let item = items[n - 1];
        vertices_of(items, occluded_only, tips, n - 1) + (if takes_part(item.class, occluded_only)
            && (item.class is Tooltip) == tips {
            item.vertices as int
        } else {
            0
        })
    }
}

proof fn lemma_vertices_counted(items: Seq<MenuItem>, occluded_only: Option<bool>, n: int)
    requires
        0 <= n <= items.len(),
    ensures
        batches(items, occluded_only, n).end == vertices_of(items, occluded_only, false, n),
        tooltip_vertices(items, occluded_only, n) == vertices_of(items, occluded_only, true, n),
        batches(items, occluded_only, n).invert ==> occluded_only != Some(true),
        forall|k: int|
            0 <= k < batches(items, occluded_only, n).ops.len() ==> (#[trigger] batches(
                items,
                occluded_only,
                n,
            ).ops[k]).depth_test == (occluded_only == Some(true)),
    decreases n,
{
    if n > 0 {
        lemma_vertices_counted(items, occluded_only, n - 1);
    }
}

/// The vertices of an element drawn in place begin behind those of all elements drawn in
/// place before it. All tooltips follow, and a call has no vertices besides.
pub proof fn law_vertices_lie_in_order(items: Seq<MenuItem>, occluded_only: Option<bool>, i: int)
    requires
        0 <= i <= items.len(),
    ensures
        batches(items, occluded_only, i).end == vertices_of(items, occluded_only, false, i),
        finished(items, occluded_only).end == vertices_of(
            items,
            occluded_only,
            false,
            items.len() as int,
        ) + vertices_of(items, occluded_only, true, items.len() as int),
{
    lemma_vertices_counted(items, occluded_only, i);
    lemma_vertices_counted(items, occluded_only, items.len() as int);
}

/// Hidden displays are drawn against the depth of the world, and nothing else is.
pub proof fn law_only_hidden_displays_test_depth(
    items: Seq<MenuItem>,
    occluded_only: Option<bool>,
    k: int,
)
    requires
        0 <= k < finished(items, occluded_only).ops.len(),
    ensures
        finished(items, occluded_only).ops[k].depth_test == (occluded_only == Some(true)),
{
    lemma_vertices_counted(items, occluded_only, items.len() as int);
    let s = batches(items, occluded_only, items.len() as int);
    if k < s.ops.len() {
        assert(s.ops[k].depth_test == (occluded_only == Some(true)));
        assert(finished(items, occluded_only).ops[k] == s.ops[k]);
    }
}

/// The tooltips of a call end up in one batch that is not inverted, with the scissor
/// that is left at the end.
pub proof fn law_tooltips_are_drawn_last(items: Seq<MenuItem>, occluded_only: Option<bool>)
    requires
        vertex_total(items, items.len() as int) <= u32::MAX,
        tooltip_vertices(items, occluded_only, items.len() as int) > 0,
    ensures
        ({
            let n = items.len() as int;
            let last = batches(items, occluded_only, n);
            batch_with(
                finished(items, occluded_only).ops,
                last.end,
                last.end + tooltip_vertices(items, occluded_only, n),
                top(last.scissors),
                false,
            )
        }),
{
    let n = items.len() as int;
    lemma_batches_bounded(items, occluded_only, n);
    let last = batches(items, occluded_only, n);
    let mid = if last.invert {
        Batches { invert: false, ..last.flush(true, false) }
    } else {
        last
    };
    let ops = finished(items, occluded_only).ops;
    let k = ops.len() - 1;
    assert(ops[k].start == mid.start);
}

/// The pipeline bound by the first `n` commands.
pub open spec fn pipeline_at(commands: Seq<OverlayCommand>, n: int) -> Option<OverlayPipeline>
    decreases n,
{
    if n <= 0 {
        None
    } else {
        match commands[n - 1] {
            OverlayCommand::Pipeline(p) => Some(p),
            _ => pipeline_at(commands, n - 1),
        }
    }
}

/// The scissor set by the first `n` commands.
pub open spec fn scissor_at(commands: Seq<OverlayCommand>, n: int) -> Option<Option<Rect>>
    decreases n,
{
    if n <= 0 {
        None
    } else {
        match commands[n - 1] {
            OverlayCommand::Scissor(s) => Some(s),
            _ => scissor_at(commands, n - 1),
        }
    }
}

proof fn lemma_state_of_prefix(a: Seq<OverlayCommand>, b: Seq<OverlayCommand>, n: int)
    requires
        0 <= n <= a.len(),
    ensures
        pipeline_at(a + b, n) == pipeline_at(a, n),
        scissor_at(a + b, n) == scissor_at(a, n),
    decreases n,
{
    if n > 0 {
        lemma_state_of_prefix(a, b, n - 1);
        assert((a + b)[n - 1] == a[n - 1]);
    }
}

/// A command draws a batch with everything set as the batch asks.
pub open spec fn draws_batch(
    commands: Seq<OverlayCommand>,
    p: int,
    op: DrawOp,
    base: int,
) -> bool {
    &&& commands[p] matches OverlayCommand::Draw { first, count } && first == base + op.start
        && count == op.count
    &&& scissor_at(commands, p) == Some(op.scissor)
    &&& pipeline_at(commands, p) == Some(
        if op.depth_test {
            OverlayPipeline::Depth
        } else if op.invert {
            OverlayPipeline::Invert
        } else {
            OverlayPipeline::Normal
        },
    )
}

/// Every batch is drawn, with its own scissor and its own pipeline, and the batches of a
/// plan follow one another.
pub proof fn law_batches_are_drawn_as_asked(ops: Seq<DrawOp>, base: int, n: int, i: int) -> (p: int)
    requires
        0 <= i < n <= ops.len(),
        0 <= base,
        forall|k: int|
            0 <= k < ops.len() ==> (#[trigger] ops[k]).depth_test == ops[0].depth_test && base
                + ops[k].start <= u32::MAX,
    ensures
        0 <= p < submit_commands(ops, base, n).len(),
        draws_batch(submit_commands(ops, base, n), p, ops[i], base),
        i == n - 1 ==> p == submit_commands(ops, base, n).len() - 1,
    decreases n,
{
    let before = submit_commands(ops, base, n - 1);
    let bound = if n >= 2 {
        Some(ops[n - 2].invert)
    } else {
        None
    };
    let extra = op_commands(ops[n - 1], bound, base);
    let all = submit_commands(ops, base, n);
    assert(all == before + extra);
    if i < n - 1 {
        let p = law_batches_are_drawn_as_asked(ops, base, n - 1, i);
        lemma_state_of_prefix(before, extra, p);
        assert(all[p] == before[p]);
        p
    } else {
        let p = all.len() - 1;
        let op = ops[n - 1];
        assert(all[p] == extra[extra.len() - 1]);
        assert(all[p - 1] == extra[extra.len() - 2]);
        assert(scissor_at(all, p) == Some(op.scissor));
        assert(pipeline_at(all, p) == pipeline_at(all, p - 1));
        if bound == Some(op.invert) {
            let q = law_batches_are_drawn_as_asked(ops, base, n - 1, n - 2);
            assert(p - 1 == before.len());
            lemma_state_of_prefix(before, extra, p - 1);
            assert(before[q] is Draw);
            assert(pipeline_at(before, before.len() as int) == pipeline_at(before, q));
            assert(ops[n - 2].depth_test == op.depth_test);
        } else {
            assert(all[p - 2] == extra[0]);
            assert(pipeline_at(all, p - 1) == Some(pipeline_of(op)));
        }
        p
    }
}

/// Nothing is drawn but the batches.
pub proof fn law_only_batches_are_drawn(ops: Seq<DrawOp>, base: int, n: int, p: int)
    requires
        0 <= n <= ops.len(),
        0 <= base,
        forall|k: int| 0 <= k < ops.len() ==> base + (#[trigger] ops[k]).start <= u32::MAX,
        0 <= p < submit_commands(ops, base, n).len(),
        submit_commands(ops, base, n)[p] is Draw,
    ensures
        exists|i: int|
            0 <= i < n && submit_commands(ops, base, n)[p]->first == base + (
            #[trigger] ops[i]).start && submit_commands(ops, base, n)[p]->count == ops[i].count,
    decreases n,
{
    let before = submit_commands(ops, base, n - 1);
    if p < before.len() {
        assert(submit_commands(ops, base, n)[p] == before[p]);
        law_only_batches_are_drawn(ops, base, n - 1, p);
    } else {
        assert(base + ops[n - 1].start <= u32::MAX);
    }
}

} // verus!
