//! Drawing the overlay: from its elements to the quads they are made of and the batches
//! these are drawn in.
use vstd::prelude::*;

use crate::mc_text::InlineObject;
use crate::menu_draw::emission_order;
use crate::menu_draw::plan_overlay;
use crate::menu_draw::ElementClass;
use crate::menu_draw::MenuItem;
use crate::menu_draw::OverlayPlan;
use crate::menu_draw::Rect;
use crate::menu_elements::element_quads;
use crate::menu_elements::Content;
use crate::menu_elements::DrawnObjects;
use crate::menu_elements::OverlayElement;
use crate::menu_elements::OverlayQuad;
use crate::menu_elements::Pictures;
use crate::menu_elements::ShaderMode;
use crate::nine_slice::Frame;
use crate::random::ObfuscationRng;
use crate::sprites::SpriteId;
use crate::text_draw::push_mc_text;
use crate::text_draw::TextQuad;
use crate::text_draw::TextRun;

verus! {

/// A tooltip: the rectangle behind it with the borders of its two sprites, and its
/// lines.
pub struct TooltipBox {
    pub background: Frame,
    pub edge: Frame,
    pub lines: Vec<TextRun>,
}

/// An element of the overlay.
pub enum Element {
    ScissorPush(Rect),
    ScissorPop,
    Shape(OverlayElement),
    /// A shape that inverts what is behind it.
    Invert(OverlayElement),
    Text(TextRun),
    /// Text in the world, with its background if that can be seen.
    Display { background: bool, lines: Vec<TextRun>, see_through: bool },
    /// A tooltip, if the fonts for it are loaded.
    Tooltip(Option<TooltipBox>),
    /// Divides what is blurred from what is not.
    BlurBackdrop,
}

/// An element is a picture by its key, whether it is loaded or a sprite stands in for it.
pub open spec fn is_picture(e: Element) -> bool {
    e matches Element::Shape(shape) && shape.content is Dynamic
}

/// Whether the quads of an element in a mode carry their size: those of pictures do, and
/// those that are filled, frosted or of the dynamic atlas.
pub fn carries_size(e: &Element, mode: ShaderMode) -> (sized: bool)
    ensures
        sized == (is_picture(*e) || mode == ShaderMode::Solid || mode == ShaderMode::Dynamic
            || mode == ShaderMode::Frosted),
{
    let picture = match e {
        Element::Shape(shape) => match &shape.content {
            Content::Dynamic { .. } => true,
            _ => false,
        },
        _ => false,
    };
    picture || mode == ShaderMode::Solid || mode == ShaderMode::Dynamic || mode
        == ShaderMode::Frosted
}

/// What batching needs to know of an element.
pub open spec fn class_of(e: Element) -> ElementClass {
    match e {
        Element::ScissorPush(r) => ElementClass::ScissorPush(r),
        Element::ScissorPop => ElementClass::ScissorPop,
        Element::Invert(_) => ElementClass::Invert,
        Element::Display { see_through: false, .. } => ElementClass::OccludedDisplay,
        Element::Tooltip(_) => ElementClass::Tooltip,
        _ => ElementClass::Plain,
    }
}

fn classify(e: &Element) -> (class: ElementClass)
    ensures
        class == class_of(*e),
{
    match e {
        Element::ScissorPush(r) => ElementClass::ScissorPush(*r),
        Element::ScissorPop => ElementClass::ScissorPop,
        Element::Invert(_) => ElementClass::Invert,
        Element::Display { see_through, .. } => if *see_through {
            ElementClass::Plain
        } else {
            ElementClass::OccludedDisplay
        },
        Element::Tooltip(_) => ElementClass::Tooltip,
        _ => ElementClass::Plain,
    }
}

/// Lines that can be drawn.
pub open spec fn lines_ok(lines: Seq<TextRun>) -> bool {
    forall|i: int| 0 <= i < lines.len() ==> (#[trigger] lines[i]).wf()
}

impl Element {
    pub open spec fn wf(self) -> bool {
        match self {
            Element::ScissorPush(r) => r.wf(),
            Element::Shape(e) => e.wf(),
            Element::Invert(e) => e.wf(),
            Element::Text(run) => run.wf(),
            Element::Display { lines, .. } => lines_ok(lines@),
            Element::Tooltip(Some(tip)) => tip.background.wf() && tip.edge.wf() && lines_ok(
                tip.lines@,
            ),
            _ => true,
        }
    }
}

/// A quad of an element.
#[derive(Clone, Copy, Debug, PartialEq, Eq, Structural)]
pub enum Piece {
    Shape(OverlayQuad),
    /// The background of a display.
    Backdrop,
    /// A quad of one of an element's lines.
    Text { line: usize, quad: TextQuad },
}

/// A quad and the element it is of.
#[derive(Clone, Copy, Debug, PartialEq, Eq, Structural)]
pub struct DrawnQuad {
    pub element: usize,
    pub piece: Piece,
}

/// What drawing has come to: the quads, the state of the generator, and the objects
/// met in text.
pub struct Progress {
    pub pieces: Seq<Piece>,
    pub seed: int,
    pub objects: Map<Seq<char>, InlineObject>,
}

/// The pieces of a line.
pub open spec fn line_pieces(run: TextRun, line: int, seed: int, p: Pictures) -> Seq<Piece> {
    crate::text_draw::run_quads(run, seed, p).map_values(
        |quad: TextQuad| Piece::Text { line: line as usize, quad },
    )
}

/// Drawing goes on with the first `n` lines.
pub open spec fn with_lines(start: Progress, lines: Seq<TextRun>, p: Pictures, n: int) -> Progress
    decreases n,
{
    if n <= 0 {
        start
    } else {
        let s = with_lines(start, lines, p, n - 1);
        let run = lines[n - 1];
        Progress {
            pieces: s.pieces + line_pieces(run, n - 1, s.seed, p),
            seed: run.picks(s.seed, run.units@.len() as int).1,
            objects: crate::text_draw::run_objects(s.objects, run, s.seed),
        }
    }
}

/// The pieces of a shape.
pub open spec fn shape_pieces(e: OverlayElement, p: Pictures) -> Seq<Piece> {
    crate::menu_elements::quads_of(e, p).map_values(|quad: OverlayQuad| Piece::Shape(quad))
}

/// A sprite with its border kept, as an element.
pub open spec fn sliced_element(sprite: SpriteId, frame: Frame) -> OverlayElement {
    OverlayElement { x: 0, y: 0, w: 0, h: 0, content: Content::NineSlice { sprite, frame } }
}

/// What an element is made of, drawn with the generator in a given state.
pub open spec fn drawn_element(
    e: Element,
    seed: int,
    objects: Map<Seq<char>, InlineObject>,
    p: Pictures,
) -> Progress {
    let start = Progress { pieces: Seq::empty(), seed, objects };
    match e {
        Element::Shape(shape) => Progress { pieces: shape_pieces(shape, p), ..start },
        Element::Invert(shape) => Progress { pieces: shape_pieces(shape, p), ..start },
        Element::Text(run) => with_lines(start, seq![run], p, 1),
        Element::Display { background, lines, .. } => with_lines(
            Progress {
                pieces: if background {
                    seq![Piece::Backdrop]
                } else {
                    Seq::empty()
                },
                ..start
            },
            lines@,
            p,
            lines@.len() as int,
        ),
        Element::Tooltip(Some(tip)) => with_lines(
            Progress {
                pieces: shape_pieces(
                    sliced_element(SpriteId::TooltipBackground, tip.background),
                    p,
                ) + shape_pieces(sliced_element(SpriteId::TooltipFrame, tip.edge), p),
                ..start
            },
            tip.lines@,
            p,
            tip.lines@.len() as int,
        ),
        _ => start,
    }
}

/// All that was drawn: the quads, how many each element has, the state of the
/// generator, and the objects met in text.
pub struct Emission {
    pub quads: Seq<DrawnQuad>,
    pub counts: Seq<int>,
    pub seed: int,
    pub objects: Map<Seq<char>, InlineObject>,
}

/// Drawing the first `n` elements of an order.
pub open spec fn emitted(
    elements: Seq<Element>,
    order: Seq<usize>,
    seed: int,
    objects: Map<Seq<char>, InlineObject>,
    p: Pictures,
    n: int,
) -> Emission
    decreases n,
{
    if n <= 0 {
        Emission {
            quads: Seq::empty(),
            counts: Seq::new(elements.len(), |i: int| 0int),
            seed,
            objects,
        }
    } else {
        let s = emitted(elements, order, seed, objects, p, n - 1);
        let i = order[n - 1] as int;
        let d = drawn_element(elements[i], s.seed, s.objects, p);
        Emission {
            quads: s.quads + d.pieces.map_values(
                |piece: Piece| DrawnQuad { element: i as usize, piece },
            ),
            counts: s.counts.update(i, d.pieces.len() as int),
            seed: d.seed,
            objects: d.objects,
        }
    }
}

/// The classes of the elements.
pub open spec fn classes_of(elements: Seq<Element>) -> Seq<ElementClass> {
    elements.map_values(|e: Element| class_of(e))
}

/// The order in which elements are drawn: tooltips after everything.
pub open spec fn draw_order(elements: Seq<Element>, occluded_only: Option<bool>) -> Seq<usize> {
    let classes = classes_of(elements);
    crate::menu_draw::in_place(classes, occluded_only, classes.len() as int)
        + crate::menu_draw::tooltips(classes, occluded_only, classes.len() as int)
}

/// All that a call draws.
pub open spec fn all_emitted(
    elements: Seq<Element>,
    occluded_only: Option<bool>,
    seed: int,
    objects: Map<Seq<char>, InlineObject>,
    p: Pictures,
) -> Emission {
    let order = draw_order(elements, occluded_only);
    emitted(elements, order, seed, objects, p, order.len() as int)
}

/// The elements as batching sees them, six vertices to a quad.
pub open spec fn items_of(elements: Seq<Element>, counts: Seq<int>) -> Seq<MenuItem> {
    Seq::new(
        elements.len(),
        |i: int| MenuItem { class: class_of(elements[i]), vertices: (6 * counts[i]) as u32 },
    )
}

/// Adds the quads of a shape.
fn push_shape(e: &OverlayElement, p: &Pictures, pieces: &mut Vec<Piece>)
    requires
        e.wf(),
        p.wf(),
    ensures
        final(pieces)@ == old(pieces)@ + shape_pieces(*e, *p),
{
    let quads = element_quads(e, p);
    let ghost before = pieces@;
    let ghost want = shape_pieces(*e, *p);
    let mut k: usize = 0;
    while k < quads.len()
        invariant
            k <= quads@.len(),
            want == quads@.map_values(|quad: OverlayQuad| Piece::Shape(quad)),
            pieces@ =~= before + want.take(k as int),
        decreases quads@.len() - k,
    {
        pieces.push(Piece::Shape(quads[k]));
        assert(want.take(k + 1) =~= want.take(k as int).push(want[k as int]));
        k = k + 1;
    }
    assert(want.take(quads@.len() as int) =~= want);
}

/// Adds the quads of a line of text.
fn push_line(
    run: &TextRun,
    line: usize,
    p: &Pictures,
    rng: &mut ObfuscationRng,
    drawn: &mut DrawnObjects,
    pieces: &mut Vec<Piece>,
)
    requires
        run.wf(),
        p.wf(),
        old(rng).wf(),
        old(drawn).wf(),
    ensures
        final(rng).wf(),
        final(drawn).wf(),
        final(pieces)@ == old(pieces)@ + line_pieces(*run, line as int, old(rng).seed as int, *p),
        final(rng).seed == run.picks(old(rng).seed as int, run.units@.len() as int).1,
        final(drawn).objects@ == crate::text_draw::run_objects(
            old(drawn).objects@,
            *run,
            old(rng).seed as int,
        ),
{
    let ghost before = pieces@;
    let ghost want = line_pieces(*run, line as int, rng.seed as int, *p);
    let quads = push_mc_text(run, p, rng, drawn);
    let mut k: usize = 0;
    while k < quads.len()
        invariant
            k <= quads@.len(),
            want == quads@.map_values(|quad: TextQuad| Piece::Text { line, quad }),
            pieces@ =~= before + want.take(k as int),
        decreases quads@.len() - k,
    {
        pieces.push(Piece::Text { line, quad: quads[k] });
        assert(want.take(k + 1) =~= want.take(k as int).push(want[k as int]));
        k = k + 1;
    }
    assert(want.take(quads@.len() as int) =~= want);
}

/// Adds the quads of lines of text.
fn push_lines(
    lines: &Vec<TextRun>,
    p: &Pictures,
    rng: &mut ObfuscationRng,
    drawn: &mut DrawnObjects,
    pieces: &mut Vec<Piece>,
)
    requires
        lines_ok(lines@),
        p.wf(),
        old(rng).wf(),
        old(drawn).wf(),
    ensures
        final(rng).wf(),
        final(drawn).wf(),
        (Progress {
            pieces: final(pieces)@,
            seed: final(rng).seed as int,
            objects: final(drawn).objects@,
        }) == with_lines(
            (Progress {
                pieces: old(pieces)@,
                seed: old(rng).seed as int,
                objects: old(drawn).objects@,
            }),
            lines@,
            *p,
            lines@.len() as int,
        ),
{
    let ghost start = Progress {
        pieces: pieces@,
        seed: rng.seed as int,
        objects: drawn.objects@,
    };
    let mut n: usize = 0;
    while n < lines.len()
        invariant
            n <= lines@.len(),
            lines_ok(lines@),
            p.wf(),
            rng.wf(),
            drawn.wf(),
            (Progress { pieces: pieces@, seed: rng.seed as int, objects: drawn.objects@ })
                == with_lines(start, lines@, *p, n as int),
        decreases lines@.len() - n,
    {
        assert(lines@[n as int].wf());
        push_line(&lines[n], n, p, rng, drawn, pieces);
        n = n + 1;
    }
}

/// The quads of an element.
pub fn draw_element(
    e: &Element,
    p: &Pictures,
    rng: &mut ObfuscationRng,
    drawn: &mut DrawnObjects,
) -> (pieces: Vec<Piece>)
    requires
        e.wf(),
        p.wf(),
        old(rng).wf(),
        old(drawn).wf(),
    ensures
        final(rng).wf(),
        final(drawn).wf(),
        (Progress {
            pieces: pieces@,
            seed: final(rng).seed as int,
            objects: final(drawn).objects@,
        }) == drawn_element(*e, old(rng).seed as int, old(drawn).objects@, *p),
{
    let mut pieces: Vec<Piece> = Vec::new();
    let ghost none = Seq::<Piece>::empty();
    match e {
        Element::Shape(shape) => {
            push_shape(shape, p, &mut pieces);
            assert(none + shape_pieces(*shape, *p) =~= shape_pieces(*shape, *p));
        },
        Element::Invert(shape) => {
            push_shape(shape, p, &mut pieces);
            assert(none + shape_pieces(*shape, *p) =~= shape_pieces(*shape, *p));
        },
        Element::Text(run) => {
            proof {
                reveal_with_fuel(with_lines, 2);
            }
            push_line(run, 0, p, rng, drawn, &mut pieces);
        },
        Element::Display { background, lines, .. } => {
            if *background {
                pieces.push(Piece::Backdrop);
                assert(pieces@ =~= seq![Piece::Backdrop]);
            }
            push_lines(lines, p, rng, drawn, &mut pieces);
        },
        Element::Tooltip(Some(tip)) => {
            let behind = OverlayElement {
                x: 0,
                y: 0,
                w: 0,
                h: 0,
                content: Content::NineSlice {
                    sprite: SpriteId::TooltipBackground,
                    frame: tip.background,
                },
            };
            let edge = OverlayElement {
                x: 0,
                y: 0,
                w: 0,
                h: 0,
                content: Content::NineSlice { sprite: SpriteId::TooltipFrame, frame: tip.edge },
            };
            push_shape(&behind, p, &mut pieces);
            assert(pieces@ =~= shape_pieces(behind, *p));
            push_shape(&edge, p, &mut pieces);
            push_lines(&tip.lines, p, rng, drawn, &mut pieces);
        },
        _ => {},
    }
    pieces
}

/// What a call draws: its quads in order, and the batches they are drawn in, unless
/// there are too many to count.
pub struct Drawing {
    pub quads: Vec<DrawnQuad>,
    pub plan: Option<OverlayPlan>,
}

/// The sum of the first `n` counts.
spec fn total(counts: Seq<int>, n: int) -> int
    decreases n,
{
    if n <= 0 {
        0
    } else {
        total(counts, n - 1) + counts[n - 1]
    }
}

proof fn lemma_total_update(counts: Seq<int>, i: int, c: int, n: int)
    requires
        0 <= i < counts.len(),
        counts[i] == 0,
        0 <= n <= counts.len(),
    ensures
        total(counts.update(i, c), n) == total(counts, n) + (if i < n {
            c
        } else {
            0
        }),
    decreases n,
{
    if n > 0 {
        lemma_total_update(counts, i, c, n - 1);
    }
}

proof fn lemma_total_zero(counts: Seq<int>, n: int)
    requires
        0 <= n <= counts.len(),
        forall|i: int| 0 <= i < counts.len() ==> #[trigger] counts[i] == 0,
    ensures
        total(counts, n) == 0,
    decreases n,
{
    if n > 0 {
        lemma_total_zero(counts, n - 1);
    }
}

/// Whether an element of a class is drawn by a call.
spec fn drawn_class(class: ElementClass, occluded_only: Option<bool>) -> bool {
    &&& crate::menu_draw::selected(class, occluded_only)
    &&& crate::menu_draw::draws_in_place(class) || class == ElementClass::Tooltip
}

proof fn lemma_in_place(classes: Seq<ElementClass>, occluded_only: Option<bool>, n: int)
    requires
        0 <= n <= classes.len(),
        classes.len() <= usize::MAX,
    ensures
        ({
            let order = crate::menu_draw::in_place(classes, occluded_only, n);
            &&& forall|k: int|
                0 <= k < order.len() ==> (#[trigger] order[k]) < n && drawn_class(
                    classes[order[k] as int],
                    occluded_only,
                ) && crate::menu_draw::draws_in_place(classes[order[k] as int])
            &&& forall|j: int, k: int| 0 <= j < k < order.len() ==> order[j] != order[k]
        }),
    decreases n,
{
    if n > 0 {
        lemma_in_place(classes, occluded_only, n - 1);
        let before = crate::menu_draw::in_place(classes, occluded_only, n - 1);
        let order = crate::menu_draw::in_place(classes, occluded_only, n);
        assert forall|k: int| 0 <= k < order.len() implies (#[trigger] order[k]) < n
            && drawn_class(classes[order[k] as int], occluded_only)
            && crate::menu_draw::draws_in_place(classes[order[k] as int]) by {
            if k < before.len() {
                assert(before[k] < n - 1);
            }
        }
        assert forall|j: int, k: int| 0 <= j < k < order.len() implies order[j] != order[k] by {
            assert(before[j] < n - 1);
        }
    }
}

proof fn lemma_tooltips(classes: Seq<ElementClass>, occluded_only: Option<bool>, n: int)
    requires
        0 <= n <= classes.len(),
        classes.len() <= usize::MAX,
    ensures
        ({
            let order = crate::menu_draw::tooltips(classes, occluded_only, n);
            &&& forall|k: int|
                0 <= k < order.len() ==> (#[trigger] order[k]) < n && drawn_class(
                    classes[order[k] as int],
                    occluded_only,
                ) && classes[order[k] as int] == ElementClass::Tooltip
            &&& forall|j: int, k: int| 0 <= j < k < order.len() ==> order[j] != order[k]
        }),
    decreases n,
{
    if n > 0 {
        lemma_tooltips(classes, occluded_only, n - 1);
    }
}

proof fn lemma_order(elements: Seq<Element>, occluded_only: Option<bool>)
    requires
        elements.len() <= usize::MAX,
    ensures
        ({
            let order = draw_order(elements, occluded_only);
            &&& forall|k: int|
                0 <= k < order.len() ==> (#[trigger] order[k]) < elements.len() && drawn_class(
                    class_of(elements[order[k] as int]),
                    occluded_only,
                )
            &&& forall|j: int, k: int| 0 <= j < k < order.len() ==> order[j] != order[k]
        }),
{
    let classes = classes_of(elements);
    lemma_in_place(classes, occluded_only, classes.len() as int);
    lemma_tooltips(classes, occluded_only, classes.len() as int);
}

proof fn lemma_counts(
    elements: Seq<Element>,
    order: Seq<usize>,
    seed: int,
    objects: Map<Seq<char>, InlineObject>,
    p: Pictures,
    n: int,
)
    requires
        0 <= n <= order.len(),
        forall|k: int| 0 <= k < order.len() ==> (#[trigger] order[k]) < elements.len(),
        forall|j: int, k: int| 0 <= j < k < order.len() ==> order[j] != order[k],
    ensures
        ({
            let s = emitted(elements, order, seed, objects, p, n);
            &&& s.counts.len() == elements.len()
            &&& forall|i: int| 0 <= i < s.counts.len() ==> 0 <= #[trigger] s.counts[i]
                <= s.quads.len()
            &&& forall|i: int|
                0 <= i < s.counts.len() && #[trigger] s.counts[i] != 0 ==> exists|k: int|
                    0 <= k < n && #[trigger] order[k] == i
            &&& total(s.counts, s.counts.len() as int) == s.quads.len()
        }),
    decreases n,
{
    if n <= 0 {
        let counts = Seq::new(elements.len(), |i: int| 0int);
        lemma_total_zero(counts, counts.len() as int);
    } else {
        lemma_counts(elements, order, seed, objects, p, n - 1);
        let s = emitted(elements, order, seed, objects, p, n - 1);
        let after = emitted(elements, order, seed, objects, p, n);
        let i = order[n - 1] as int;
        let d = drawn_element(elements[i], s.seed, s.objects, p);
        assert(s.counts[i] == 0) by {
            if s.counts[i] != 0 {
                let k = choose|k: int| 0 <= k < n - 1 && #[trigger] order[k] == i;
                assert(order[k] != order[n - 1]);
            }
        }
        lemma_total_update(s.counts, i, d.pieces.len() as int, s.counts.len() as int);
        assert forall|j: int|
            0 <= j < after.counts.len() && #[trigger] after.counts[j] != 0 implies exists|k: int|
            0 <= k < n && #[trigger] order[k] == j by {
            if j == i {
                assert(order[n - 1] == j);
            } else {
                assert(s.counts[j] != 0);
                let k = choose|k: int| 0 <= k < n - 1 && #[trigger] order[k] == j;
                assert(order[k] == j);
            }
        }
    }
}

proof fn lemma_items(
    elements: Seq<Element>,
    counts: Seq<int>,
    occluded_only: Option<bool>,
    n: int,
)
    requires
        counts.len() == elements.len(),
        0 <= n <= elements.len(),
        forall|i: int|
            0 <= i < counts.len() ==> 0 <= #[trigger] counts[i] && 6 * counts[i] <= u32::MAX,
        forall|i: int|
            0 <= i < counts.len() && #[trigger] counts[i] != 0 ==> drawn_class(
                class_of(elements[i]),
                occluded_only,
            ),
    ensures
        crate::menu_draw::vertex_total(items_of(elements, counts), n) == 6 * total(counts, n),
        crate::menu_draw::batches(items_of(elements, counts), occluded_only, n).end
            + crate::menu_draw::tooltip_vertices(items_of(elements, counts), occluded_only, n) == 6
            * total(counts, n),
    decreases n,
{
    if n > 0 {
        lemma_items(elements, counts, occluded_only, n - 1);
        assert(0 <= counts[n - 1]);
    }
}

/// Draws the elements of the overlay: all of them, only the displays hidden behind the
/// world, or all but those. Every quad becomes six vertices, and the batches hold
/// exactly these.
pub fn draw_elements(
    elements: &Vec<Element>,
    occluded_only: Option<bool>,
    p: &Pictures,
    rng: &mut ObfuscationRng,
    drawn: &mut DrawnObjects,
) -> (drawing: Drawing)
    requires
        forall|i: int| 0 <= i < elements@.len() ==> (#[trigger] elements@[i]).wf(),
        p.wf(),
        old(rng).wf(),
        old(drawn).wf(),
    ensures
        final(rng).wf(),
        final(drawn).wf(),
        ({
            let all = all_emitted(
                elements@,
                occluded_only,
                old(rng).seed as int,
                old(drawn).objects@,
                *p,
            );
            &&& drawing.quads@ == all.quads
            &&& final(rng).seed == all.seed
            &&& final(drawn).objects@ == all.objects
            &&& drawing.plan is Some <==> 6 * drawing.quads@.len() <= u32::MAX
            &&& drawing.plan matches Some(plan) ==> {
                let done = crate::menu_draw::finished(
                    items_of(elements@, all.counts),
                    occluded_only,
                );
                &&& plan.ops@ == done.ops
                &&& plan.vertices == done.end
                &&& plan.vertices == 6 * drawing.quads@.len()
                &&& crate::menu_draw::covers_all(plan.ops@, plan.vertices as int)
            }
        }),
{
    let ghost seed = rng.seed as int;
    let ghost objects = drawn.objects@;
    let mut classes: Vec<ElementClass> = Vec::new();
    let mut counts: Vec<usize> = Vec::new();
    let mut i: usize = 0;
    while i < elements.len()
        invariant
            i <= elements@.len(),
            classes@ =~= classes_of(elements@).take(i as int),
            counts@.len() == i,
            forall|k: int| 0 <= k < i ==> #[trigger] counts@[k] == 0,
        decreases elements@.len() - i,
    {
        classes.push(classify(&elements[i]));
        counts.push(0);
        i = i + 1;
    }
    assert(classes@ =~= classes_of(elements@));
    let order = emission_order(&classes, occluded_only);
    let ghost plan_order = draw_order(elements@, occluded_only);
    proof {
        let len: usize = elements.len();
        lemma_order(elements@, occluded_only);
    }
    let mut quads: Vec<DrawnQuad> = Vec::new();
    let mut n: usize = 0;
    while n < order.len()
        invariant
            n <= order@.len(),
            order@ == plan_order,
            plan_order == draw_order(elements@, occluded_only),
            forall|k: int| 0 <= k < plan_order.len() ==> (#[trigger] plan_order[k]) < elements@.len(),
            forall|i: int| 0 <= i < elements@.len() ==> (#[trigger] elements@[i]).wf(),
            p.wf(),
            rng.wf(),
            drawn.wf(),
            counts@.len() == elements@.len(),
            ({
                let s = emitted(elements@, plan_order, seed, objects, *p, n as int);
                &&& quads@ == s.quads
                &&& rng.seed == s.seed
                &&& drawn.objects@ == s.objects
                &&& s.counts.len() == elements@.len()
                &&& forall|k: int| 0 <= k < counts@.len() ==> #[trigger] counts@[k] == s.counts[k]
            }),
        decreases order@.len() - n,
    {
        let at: usize = order[n];
        assert(plan_order[n as int] == at);
        let ghost s = emitted(elements@, plan_order, seed, objects, *p, n as int);
        let pieces = draw_element(&elements[at], p, rng, drawn);
        let ghost want = pieces@.map_values(|piece: Piece| DrawnQuad { element: at, piece });
        let mut k: usize = 0;
        while k < pieces.len()
            invariant
                k <= pieces@.len(),
                want == pieces@.map_values(|piece: Piece| DrawnQuad { element: at, piece }),
                quads@ =~= s.quads + want.take(k as int),
            decreases pieces@.len() - k,
        {
            quads.push(DrawnQuad { element: at, piece: pieces[k] });
            assert(want.take(k + 1) =~= want.take(k as int).push(want[k as int]));
            k = k + 1;
        }
        assert(want.take(pieces@.len() as int) =~= want);
        counts[at] = pieces.len();
        n = n + 1;
    }
    let ghost all = all_emitted(elements@, occluded_only, seed, objects, *p);
    proof {
        lemma_counts(elements@, plan_order, seed, objects, *p, plan_order.len() as int);
    }
    if quads.len() > 715_827_882 {
        return Drawing { quads, plan: None };
    }
    let mut items: Vec<MenuItem> = Vec::new();
    i = 0;
    while i < elements.len()
        invariant
            i <= elements@.len(),
            counts@.len() == elements@.len(),
            all.counts.len() == elements@.len(),
            quads@.len() <= 715_827_882,
            forall|k: int| 0 <= k < counts@.len() ==> #[trigger] counts@[k] == all.counts[k],
            forall|k: int|
                0 <= k < all.counts.len() ==> 0 <= #[trigger] all.counts[k] <= quads@.len(),
            items@ =~= items_of(elements@, all.counts).take(i as int),
        decreases elements@.len() - i,
    {
        assert(counts@[i as int] == all.counts[i as int]);
        let vertices: u32 = 6 * counts[i] as u32;
        items.push(MenuItem { class: classify(&elements[i]), vertices });
        i = i + 1;
    }
    proof {
        assert(items@ =~= items_of(elements@, all.counts));
        assert forall|i: int|
            0 <= i < all.counts.len() && #[trigger] all.counts[i] != 0 implies drawn_class(
            class_of(elements@[i]),
            occluded_only,
        ) by {
            let k = choose|k: int| 0 <= k < plan_order.len() && #[trigger] plan_order[k] == i;
            assert(plan_order[k] < elements@.len());
        }
        lemma_items(elements@, all.counts, occluded_only, elements@.len() as int);
        assert forall|i: int|
            0 <= i < items@.len() implies ((#[trigger] items@[i]).class matches ElementClass::ScissorPush(
            r,
        ) ==> r.wf()) by {
            assert(elements@[i].wf());
        }
    }
    let plan = plan_overlay(&items, occluded_only);
    Drawing { quads, plan: Some(plan) }
}

/// Batching sees an element for what it is: a region opened or closed, something that
/// inverts what is behind it, a tooltip, a display hidden by the world, or none of these.
pub proof fn law_elements_are_classed(e: Element)
    ensures
        class_of(e) is Tooltip <==> e is Tooltip,
        class_of(e) is Invert <==> e is Invert,
        class_of(e) is ScissorPop <==> e is ScissorPop,
        class_of(e) is ScissorPush <==> e is ScissorPush,
        e matches Element::ScissorPush(r) ==> class_of(e) == ElementClass::ScissorPush(r),
        class_of(e) is OccludedDisplay <==> (e matches Element::Display { see_through, .. }
            && !see_through),
{
}

/// A shape is drawn as the quads it is made of, whether it inverts or not, and leaves the
/// generator and the objects alone. What opens or closes a region, divides the blurred
/// from the rest, or lacks its fonts draws nothing.
pub proof fn law_shapes_are_drawn_as_their_quads(
    e: Element,
    seed: int,
    objects: Map<Seq<char>, InlineObject>,
    p: Pictures,
    k: int,
)
    requires
        !(e is Text),
        !(e is Display),
        !(e matches Element::Tooltip(Some(_))),
    ensures
        ({
            let d = drawn_element(e, seed, objects, p);
            let quads = match e {
                Element::Shape(shape) => crate::menu_elements::quads_of(shape, p),
                Element::Invert(shape) => crate::menu_elements::quads_of(shape, p),
                _ => Seq::empty(),
            };
            &&& d.seed == seed
            &&& d.objects == objects
            &&& d.pieces.len() == quads.len()
            &&& 0 <= k < quads.len() ==> d.pieces[k] == Piece::Shape(quads[k])
        }),
{
}

/// Lines are drawn one below the other: each adds the quads of its text, under its
/// number, to what was drawn before, and hands the generator and the objects on to the
/// next.
pub proof fn law_lines_are_drawn_in_turn(
    start: Progress,
    lines: Seq<TextRun>,
    p: Pictures,
    n: int,
    k: int,
)
    requires
        0 <= n < lines.len() <= usize::MAX,
    ensures
        with_lines(start, lines, p, 0) == start,
        ({
            let before = with_lines(start, lines, p, n);
            let after = with_lines(start, lines, p, n + 1);
            let quads = crate::text_draw::run_quads(lines[n], before.seed, p);
            &&& after.pieces.len() == before.pieces.len() + quads.len()
            &&& 0 <= k < before.pieces.len() ==> after.pieces[k] == before.pieces[k]
            &&& 0 <= k < quads.len() ==> after.pieces[before.pieces.len() + k] == (Piece::Text {
                line: n as usize,
                quad: quads[k],
            })
            &&& after.seed == lines[n].picks(before.seed, lines[n].units@.len() as int).1
            &&& after.objects == crate::text_draw::run_objects(
                before.objects,
                lines[n],
                before.seed,
            )
        }),
{
}

proof fn lemma_lines_keep(start: Progress, lines: Seq<TextRun>, p: Pictures, n: int, k: int)
    requires
        0 <= n,
        0 <= k < start.pieces.len(),
    ensures
        k < with_lines(start, lines, p, n).pieces.len(),
        with_lines(start, lines, p, n).pieces[k] == start.pieces[k],
    decreases n,
{
    if n > 0 {
        lemma_lines_keep(start, lines, p, n - 1, k);
    }
}

proof fn lemma_lines_are_text(start: Progress, lines: Seq<TextRun>, p: Pictures, n: int, k: int)
    requires
        0 <= n <= lines.len() <= usize::MAX,
        start.pieces.len() <= k < with_lines(start, lines, p, n).pieces.len(),
    ensures
        with_lines(start, lines, p, n).pieces[k] matches Piece::Text { line, .. } && line < n,
    decreases n,
{
    if n > 0 {
        let before = with_lines(start, lines, p, n - 1);
        if k < before.pieces.len() {
            lemma_lines_are_text(start, lines, p, n - 1, k);
        }
    }
}

/// A display has its background, if it shows, behind all of its text and nothing else.
pub proof fn law_displays_have_their_backdrop_behind(
    background: bool,
    lines: Vec<TextRun>,
    see_through: bool,
    seed: int,
    objects: Map<Seq<char>, InlineObject>,
    p: Pictures,
    k: int,
)
    requires
        0 <= k < drawn_element(
            (Element::Display { background, lines, see_through }),
            seed,
            objects,
            p,
        ).pieces.len(),
    ensures
        ({
            let e = Element::Display { background, lines, see_through };
            let piece = drawn_element(e, seed, objects, p).pieces[k];
            &&& piece is Backdrop <==> background && k == 0
            &&& piece is Backdrop || (piece matches Piece::Text { line, .. } && line < lines@.len())
        }),
{
    assert(lines@.len() == lines.len());
    let start = Progress {
        pieces: if background {
            seq![Piece::Backdrop]
        } else {
            Seq::empty()
        },
        seed,
        objects,
    };
    if k < start.pieces.len() {
        lemma_lines_keep(start, lines@, p, lines@.len() as int, k);
    } else {
        lemma_lines_are_text(start, lines@, p, lines@.len() as int, k);
    }
}

/// A tooltip has the sprite of its background at the back, the sprite of its frame before
/// it, each in its own rectangle, and its text in front of both.
pub proof fn law_tooltips_are_layered(
    tip: TooltipBox,
    seed: int,
    objects: Map<Seq<char>, InlineObject>,
    p: Pictures,
    k: int,
)
    requires
        0 <= k < drawn_element(Element::Tooltip(Some(tip)), seed, objects, p).pieces.len(),
    ensures
        ({
            let piece = drawn_element(Element::Tooltip(Some(tip)), seed, objects, p).pieces[k];
            let behind = match p.sprite(SpriteId::TooltipBackground) {
                Some(r) => crate::nine_slice::slices(tip.background, r, 9),
                None => Seq::empty(),
            };
            let edge = match p.sprite(SpriteId::TooltipFrame) {
                Some(r) => crate::nine_slice::slices(tip.edge, r, 9),
                None => Seq::empty(),
            };
            let b = behind.len() as int;
            let f = edge.len() as int;
            &&& k < b ==> piece == Piece::Shape(crate::menu_elements::slice_quad(behind[k]))
            &&& b <= k < b + f ==> piece == Piece::Shape(
                crate::menu_elements::slice_quad(edge[k - b]),
            )
            &&& k >= b + f ==> (piece matches Piece::Text { line, .. } && line < tip.lines@.len())
        }),
{
    assert(tip.lines@.len() == tip.lines.len());
    let start = Progress {
        pieces: shape_pieces(sliced_element(SpriteId::TooltipBackground, tip.background), p)
            + shape_pieces(sliced_element(SpriteId::TooltipFrame, tip.edge), p),
        seed,
        objects,
    };
    if k < start.pieces.len() {
        lemma_lines_keep(start, tip.lines@, p, tip.lines@.len() as int, k);
    } else {
        lemma_lines_are_text(start, tip.lines@, p, tip.lines@.len() as int, k);
    }
}

/// The elements of an order are drawn one after the other: each adds its own quads, under
/// its own number, behind those there are, counts them, and hands the generator and the
/// objects on. Before the first there is nothing.
pub proof fn law_elements_are_drawn_in_turn(
    elements: Seq<Element>,
    order: Seq<usize>,
    seed: int,
    objects: Map<Seq<char>, InlineObject>,
    p: Pictures,
    n: int,
    k: int,
    other: int,
)
    requires
        0 <= n < order.len(),
        forall|j: int| 0 <= j < order.len() ==> (#[trigger] order[j]) < elements.len(),
        0 <= other < elements.len(),
        other != order[n],
    ensures
        ({
            let start = emitted(elements, order, seed, objects, p, 0);
            let before = emitted(elements, order, seed, objects, p, n);
            let after = emitted(elements, order, seed, objects, p, n + 1);
            let d = drawn_element(elements[order[n] as int], before.seed, before.objects, p);
            &&& start.quads.len() == 0 && start.counts[other] == 0
            &&& start.seed == seed && start.objects == objects
            &&& after.quads.len() == before.quads.len() + d.pieces.len()
            &&& 0 <= k < before.quads.len() ==> after.quads[k] == before.quads[k]
            &&& 0 <= k < d.pieces.len() ==> after.quads[before.quads.len() + k] == (DrawnQuad {
                element: order[n],
                piece: d.pieces[k],
            })
            &&& after.counts[order[n] as int] == d.pieces.len()
            &&& after.counts[other] == before.counts[other]
            &&& after.seed == d.seed
            &&& after.objects == d.objects
        }),
{
    lemma_counts_length(elements, order, seed, objects, p, n);
    assert(order[n] < elements.len());
}

proof fn lemma_counts_length(
    elements: Seq<Element>,
    order: Seq<usize>,
    seed: int,
    objects: Map<Seq<char>, InlineObject>,
    p: Pictures,
    n: int,
)
    requires
        0 <= n <= order.len(),
        forall|j: int| 0 <= j < order.len() ==> (#[trigger] order[j]) < elements.len(),
    ensures
        emitted(elements, order, seed, objects, p, n).counts.len() == elements.len(),
    decreases n,
{
    if n > 0 {
        lemma_counts_length(elements, order, seed, objects, p, n - 1);
        assert(order[n - 1] < elements.len());
    }
}

/// A call draws the elements it is for, those and no others, tooltips last and all else
/// in the order given.
pub proof fn law_elements_take_their_turn(
    elements: Seq<Element>,
    occluded_only: Option<bool>,
    i: int,
    j: int,
    k: int,
)
    requires
        elements.len() <= usize::MAX,
        0 <= i < elements.len(),
    ensures
        ({
            let order = draw_order(elements, occluded_only);
            let hidden = elements[i] matches Element::Display { see_through, .. } && !see_through;
            &&& order.contains(i as usize) <==> {
                &&& !(elements[i] is ScissorPush) && !(elements[i] is ScissorPop)
                &&& occluded_only == Some(true) ==> hidden
                &&& occluded_only == Some(false) ==> !hidden
            }
            &&& 0 <= j < k < order.len() ==> {
                let a = elements[order[j] as int];
                let b = elements[order[k] as int];
                &&& a is Tooltip ==> b is Tooltip
                &&& a is Tooltip == b is Tooltip ==> order[j] < order[k]
            }
        }),
{
    let classes = classes_of(elements);
    lemma_order(elements, occluded_only);
    crate::menu_draw::law_elements_are_drawn_in_order(classes, occluded_only, i, j, k);
    law_elements_are_classed(elements[i]);
    let order = draw_order(elements, occluded_only);
    if 0 <= j < k < order.len() {
        law_elements_are_classed(elements[order[j] as int]);
        law_elements_are_classed(elements[order[k] as int]);
    }
}

proof fn lemma_in_place_prefix(
    classes: Seq<ElementClass>,
    occluded_only: Option<bool>,
    n: int,
    m: int,
)
    requires
        0 <= n <= m,
    ensures
        ({
            let a = crate::menu_draw::in_place(classes, occluded_only, n);
            let b = crate::menu_draw::in_place(classes, occluded_only, m);
            &&& a.len() <= b.len()
            &&& forall|k: int| 0 <= k < a.len() ==> a[k] == #[trigger] b[k]
        }),
    decreases m,
{
    if n < m {
        lemma_in_place_prefix(classes, occluded_only, n, m - 1);
    }
}

proof fn lemma_count_stays(
    elements: Seq<Element>,
    order: Seq<usize>,
    seed: int,
    objects: Map<Seq<char>, InlineObject>,
    p: Pictures,
    k: int,
    n: int,
)
    requires
        0 <= k < n <= order.len(),
        forall|j: int| 0 <= j < order.len() ==> (#[trigger] order[j]) < elements.len(),
        forall|i: int, j: int| 0 <= i < j < order.len() ==> order[i] != order[j],
    ensures
        emitted(elements, order, seed, objects, p, n).counts[order[k] as int] == emitted(
            elements,
            order,
            seed,
            objects,
            p,
            k + 1,
        ).quads.len() - emitted(elements, order, seed, objects, p, k).quads.len(),
        emitted(elements, order, seed, objects, p, k + 1).quads.len() <= emitted(
            elements,
            order,
            seed,
            objects,
            p,
            n,
        ).quads.len(),
        forall|q: int|
            0 <= q < emitted(elements, order, seed, objects, p, k + 1).quads.len() ==> (
            #[trigger] emitted(elements, order, seed, objects, p, n).quads[q]) == emitted(
                elements,
                order,
                seed,
                objects,
                p,
                k + 1,
            ).quads[q],
    decreases n,
{
    lemma_counts_length(elements, order, seed, objects, p, n - 1);
    assert(order[k] < elements.len());
    assert(order[n - 1] < elements.len());
    if k < n - 1 {
        lemma_count_stays(elements, order, seed, objects, p, k, n - 1);
        assert(order[k] != order[n - 1]);
    }
}

proof fn lemma_quads_before(
    elements: Seq<Element>,
    occluded_only: Option<bool>,
    seed: int,
    objects: Map<Seq<char>, InlineObject>,
    p: Pictures,
    n: int,
)
    requires
        elements.len() <= usize::MAX,
        0 <= n <= elements.len(),
        6 * all_emitted(elements, occluded_only, seed, objects, p).quads.len() <= u32::MAX,
    ensures
        ({
            let order = draw_order(elements, occluded_only);
            let m = crate::menu_draw::in_place(classes_of(elements), occluded_only, n).len() as int;
            let all = all_emitted(elements, occluded_only, seed, objects, p);
            &&& m <= order.len()
            &&& 6 * emitted(elements, order, seed, objects, p, m).quads.len()
                == crate::menu_draw::batches(items_of(elements, all.counts), occluded_only, n).end
        }),
    decreases n,
{
    let classes = classes_of(elements);
    let order = draw_order(elements, occluded_only);
    let all = all_emitted(elements, occluded_only, seed, objects, p);
    let items = items_of(elements, all.counts);
    lemma_in_place_prefix(classes, occluded_only, n, classes.len() as int);
    if n > 0 {
        lemma_quads_before(elements, occluded_only, seed, objects, p, n - 1);
        lemma_order(elements, occluded_only);
        lemma_counts(elements, order, seed, objects, p, order.len() as int);
        let here = crate::menu_draw::in_place(classes, occluded_only, n);
        let before = crate::menu_draw::in_place(classes, occluded_only, n - 1);
        let class = classes[n - 1];
        assert(items[n - 1].class == class);
        if crate::menu_draw::selected(class, occluded_only) && crate::menu_draw::draws_in_place(
            class,
        ) {
            let k = before.len() as int;
            assert(here[k] == n - 1);
            assert(order[k] == n - 1);
            lemma_count_stays(elements, order, seed, objects, p, k, order.len() as int);
            assert(0 <= all.counts[n - 1] <= all.quads.len());
            assert(items[n - 1].vertices == 6 * all.counts[n - 1]);
        }
    }
}

/// The quads of an element drawn in place stand where its batch draws them: six vertices
/// each, from the vertex on that batching has it begin at.
pub proof fn law_quads_stand_where_they_are_drawn(
    elements: Seq<Element>,
    occluded_only: Option<bool>,
    seed: int,
    objects: Map<Seq<char>, InlineObject>,
    p: Pictures,
    i: int,
    k: int,
)
    requires
        elements.len() <= usize::MAX,
        0 <= i < elements.len(),
        crate::menu_draw::takes_part(class_of(elements[i]), occluded_only),
        !(elements[i] is Tooltip),
        6 * all_emitted(elements, occluded_only, seed, objects, p).quads.len() <= u32::MAX,
        0 <= k < all_emitted(elements, occluded_only, seed, objects, p).counts[i],
    ensures
        ({
            let all = all_emitted(elements, occluded_only, seed, objects, p);
            let items = items_of(elements, all.counts);
            let first = crate::menu_draw::batches(items, occluded_only, i).end;
            &&& items[i].vertices == 6 * all.counts[i]
            &&& first % 6 == 0
            &&& first / 6 + k < all.quads.len()
            &&& all.quads[first / 6 + k].element == i
        }),
{
    let classes = classes_of(elements);
    let order = draw_order(elements, occluded_only);
    let all = all_emitted(elements, occluded_only, seed, objects, p);
    lemma_order(elements, occluded_only);
    lemma_counts(elements, order, seed, objects, p, order.len() as int);
    lemma_quads_before(elements, occluded_only, seed, objects, p, i);
    lemma_in_place_prefix(classes, occluded_only, i + 1, classes.len() as int);
    let before = crate::menu_draw::in_place(classes, occluded_only, i);
    let here = crate::menu_draw::in_place(classes, occluded_only, i + 1);
    let m = before.len() as int;
    assert(here[m] == i);
    assert(order[m] == i);
    lemma_count_stays(elements, order, seed, objects, p, m, order.len() as int);
    let s = emitted(elements, order, seed, objects, p, m);
    let after = emitted(elements, order, seed, objects, p, m + 1);
    let q = s.quads.len() + k;
    assert(all.quads[q] == after.quads[q]);
    assert(after.quads[q].element == i);
}

} // verus!
