//! Laying out styled text: line breaks, glyph choice, underlines.
use vstd::prelude::*;

verus! {

/// One font pixel, in layout units.
pub const PIXEL: i64 = 256;

/// Advance of an inline object, in font pixels.
pub fn inline_object_advance(bold: bool) -> (advance: i64)
    ensures
        advance == 256 * (8 + if bold {
            1int
        } else {
            0
        }),
{
    if bold {
        9 * PIXEL
    } else {
        8 * PIXEL
    }
}

/// Something drawn in the middle of text.
#[derive(Clone, Copy, Debug, PartialEq, Eq, Structural)]
pub enum InlineObject {
    Player,
    /// A sprite, and whether its atlas has a provider.
    AtlasSprite { known_atlas: bool },
}

/// Whether an object has a glyph of its own.
pub fn object_has_glyph(object: InlineObject) -> (has: bool)
    ensures
        has == (object matches InlineObject::AtlasSprite { known_atlas } ==> known_atlas),
{
    match object {
        InlineObject::Player => true,
        InlineObject::AtlasSprite { known_atlas } => known_atlas,
    }
}

/// What is drawn for a character.
#[derive(Clone, Copy, Debug, PartialEq, Eq, Structural)]
pub enum GlyphKind {
    Newline,
    Object,
    Missing,
    Random,
    Plain,
}

/// The glyph choice: objects stand for the replacement character, obfuscated
/// text draws random glyphs except for spaces.
pub open spec fn kind_of(ch: char, object: Option<InlineObject>, obfuscated: bool) -> GlyphKind {
    if ch == '\n' {
        GlyphKind::Newline
    } else if ch == '\u{fffc}' && object is Some {
        match object->0 {
            InlineObject::AtlasSprite { known_atlas: false } => GlyphKind::Missing,
            _ => GlyphKind::Object,
        }
    } else if obfuscated && ch != ' ' {
        GlyphKind::Random
    } else {
        GlyphKind::Plain
    }
}

pub fn glyph_kind(ch: char, object: Option<InlineObject>, obfuscated: bool) -> (kind: GlyphKind)
    ensures
        kind == kind_of(ch, object, obfuscated),
{
    if ch == '\n' {
        return GlyphKind::Newline;
    }
    if ch == '\u{fffc}' {
        if let Some(o) = object {
            return if object_has_glyph(o) {
                GlyphKind::Object
            } else {
                GlyphKind::Missing
            };
        }
    }
    if obfuscated && ch != ' ' {
        GlyphKind::Random
    } else {
        GlyphKind::Plain
    }
}

/// A colour, as the bit patterns of its four channels.
#[derive(Clone, Copy, Debug, PartialEq, Eq, Structural)]
pub struct Color {
    pub r: u32,
    pub g: u32,
    pub b: u32,
    pub a: u32,
}

/// A single-precision number's bit pattern without its sign.
pub open spec fn magnitude(bits: u32) -> int {
    bits as int % 0x8000_0000
}

/// Two bit patterns stand for equal single-precision numbers: the same pattern, unless
/// it is that of no number, or zeros of either sign.
pub open spec fn equal_numbers(a: u32, b: u32) -> bool {
    a == b && magnitude(a) <= 0x7f80_0000 || magnitude(a) == 0 && magnitude(b) == 0
}

/// Whether two bit patterns stand for equal single-precision numbers.
pub fn same_number(a: u32, b: u32) -> (same: bool)
    ensures
        same == equal_numbers(a, b),
{
    let x: u32 = a % 0x8000_0000;
    let y: u32 = b % 0x8000_0000;
    a == b && x <= 0x7f80_0000 || x == 0 && y == 0
}

/// Two colours are equal channel by channel.
pub open spec fn equal_colors(a: Color, b: Color) -> bool {
    equal_numbers(a.r, b.r) && equal_numbers(a.g, b.g) && equal_numbers(a.b, b.b)
        && equal_numbers(a.a, b.a)
}

/// Two shadows are equal: both missing, or of equal colours.
pub open spec fn equal_shadows(a: Option<Color>, b: Option<Color>) -> bool {
    match (a, b) {
        (Some(a), Some(b)) => equal_colors(a, b),
        (None, None) => true,
        _ => false,
    }
}

fn same_color(a: Color, b: Color) -> (same: bool)
    ensures
        same == equal_colors(a, b),
{
    same_number(a.r, b.r) && same_number(a.g, b.g) && same_number(a.b, b.b) && same_number(a.a, b.a)
}

/// A piece of text in one style.
pub struct TextSpan {
    pub text: String,
    pub color: Color,
    pub shadow_color: Option<Color>,
    pub bold: bool,
    pub italic: bool,
    pub underline: bool,
    pub strikethrough: bool,
    pub obfuscated: bool,
    pub font: Option<String>,
    pub inline_object: Option<InlineObject>,
}

/// The edges of an effect bar.
#[derive(Clone, Copy, Debug, PartialEq, Eq, Structural)]
pub struct Bar {
    pub x0: i64,
    pub y0: i64,
    pub x1: i64,
    pub y1: i64,
}

/// An underline or strikethrough.
#[derive(Clone, Copy, Debug, PartialEq, Eq, Structural)]
pub struct McEffect {
    pub rect: Bar,
    pub color: Color,
    pub shadow_color: Option<Color>,
}

/// Whether `next` carries on where `last` ends, in equal colours.
pub open spec fn abuts(last: McEffect, next: McEffect) -> bool {
    &&& last.rect.x1 == next.rect.x0
    &&& last.rect.y0 == next.rect.y0
    &&& equal_colors(last.color, next.color)
    &&& equal_shadows(last.shadow_color, next.shadow_color)
}

/// The effects with one more, merged into the last one where it abuts.
pub open spec fn with_effect(effects: Seq<McEffect>, next: McEffect) -> Seq<McEffect> {
    if effects.len() > 0 && abuts(effects.last(), next) {
        let last = effects.last();
        effects.drop_last().push(
            McEffect { rect: Bar { x1: next.rect.x1, ..last.rect }, ..last },
        )
    } else {
        effects.push(next)
    }
}

pub fn add_mc_effect(effects: &mut Vec<McEffect>, rect: Bar, color: Color, shadow_color: Option<Color>)
    ensures
        final(effects)@ == with_effect(
            old(effects)@,
            (McEffect { rect, color, shadow_color }),
        ),
{
    let next = McEffect { rect, color, shadow_color };
    let n: usize = effects.len();
    if n > 0 {
        let last = effects[n - 1];
        let same_shadow = match (last.shadow_color, shadow_color) {
            (Some(a), Some(b)) => same_color(a, b),
            (None, None) => true,
            _ => false,
        };
        if last.rect.x1 == rect.x0 && last.rect.y0 == rect.y0 && same_color(last.color, color)
            && same_shadow {
            effects[n - 1] = McEffect {
                rect: Bar { x0: last.rect.x0, y0: last.rect.y0, x1: rect.x1, y1: last.rect.y1 },
                color: last.color,
                shadow_color: last.shadow_color,
            };
            assert(effects@ =~= with_effect(old(effects)@, next));
            return;
        }
    }
    effects.push(next);
}

/// A bar filled with one colour.
#[derive(Clone, Copy, Debug, PartialEq, Eq, Structural)]
pub struct Fill {
    pub rect: Bar,
    pub color: Color,
}

/// A bar moved down and to the right.
pub open spec fn moved(rect: Bar, by: int) -> Bar {
    Bar {
        x0: (rect.x0 + by) as i64,
        y0: (rect.y0 + by) as i64,
        x1: (rect.x1 + by) as i64,
        y1: (rect.y1 + by) as i64,
    }
}

/// A bar that can be moved.
pub open spec fn movable(rect: Bar) -> bool {
    &&& -0x4000_0000_0000_0000 <= rect.x0 <= 0x4000_0000_0000_0000
    &&& -0x4000_0000_0000_0000 <= rect.y0 <= 0x4000_0000_0000_0000
    &&& -0x4000_0000_0000_0000 <= rect.x1 <= 0x4000_0000_0000_0000
    &&& -0x4000_0000_0000_0000 <= rect.y1 <= 0x4000_0000_0000_0000
}

/// What an effect fills: its shadow, if it casts one, and then itself. One without
/// an area fills nothing.
pub fn push_mc_effect(effect: &McEffect, shadow_offset: i64) -> (fills: Vec<Fill>)
    requires
        movable(effect.rect),
        -0x1000_0000_0000_0000 <= shadow_offset <= 0x1000_0000_0000_0000,
    ensures
        fills@ == (if effect.rect.x1 <= effect.rect.x0 || effect.rect.y1 <= effect.rect.y0 {
            Seq::empty()
        } else {
            let own = Fill { rect: effect.rect, color: effect.color };
            match effect.shadow_color {
                Some(color) => seq![
                    Fill { rect: moved(effect.rect, shadow_offset as int), color },
                    own,
                ],
                None => seq![own],
            }
        }),
{
    let mut fills: Vec<Fill> = Vec::new();
    let rect = effect.rect;
    if rect.x1 <= rect.x0 || rect.y1 <= rect.y0 {
        return fills;
    }
    if let Some(color) = effect.shadow_color {
        fills.push(
            Fill {
                rect: Bar {
                    x0: rect.x0 + shadow_offset,
                    y0: rect.y0 + shadow_offset,
                    x1: rect.x1 + shadow_offset,
                    y1: rect.y1 + shadow_offset,
                },
                color,
            },
        );
    }
    fills.push(Fill { rect, color: effect.color });
    fills
}

/// Total length of a list of effects.
pub open spec fn effect_length(effects: Seq<McEffect>) -> int
    decreases effects.len(),
{
    if effects.len() == 0 {
        0
    } else {
        effect_length(effects.drop_last()) + (effects.last().rect.x1 - effects.last().rect.x0)
    }
}

/// Merging loses no length and never adds a bar where one carries on.
pub proof fn law_merging_keeps_length(effects: Seq<McEffect>, next: McEffect)
    ensures
        effect_length(with_effect(effects, next)) == effect_length(effects) + (next.rect.x1
            - next.rect.x0),
        effects.len() > 0 && abuts(effects.last(), next) ==> with_effect(effects, next).len()
            == effects.len(),
{
    let merged = with_effect(effects, next);
    if effects.len() > 0 && abuts(effects.last(), next) {
        assert(merged.drop_last() =~= effects.drop_last());
    } else {
        assert(merged.drop_last() =~= effects);
    }
}

/// A character of a text with what layout needs of it: the glyph that was
/// picked, its advance, and its span's style.
#[derive(Clone, Copy, Debug, PartialEq, Eq, Structural)]
pub struct TextChar {
    pub span: usize,
    pub kind: GlyphKind,
    pub advance: i64,
    pub strikethrough: bool,
    pub underline: bool,
    pub color: Color,
    pub shadow_color: Option<Color>,
}

/// A glyph in place, in layout units from the text's origin.
#[derive(Clone, Copy, Debug, PartialEq, Eq, Structural)]
pub struct GlyphPlace {
    pub index: usize,
    pub x: i64,
    pub y: i64,
}

/// Layout so far.
pub struct TextState {
    pub x: int,
    pub line: int,
    /// The span of the last character, and whether its next glyph begins a run.
    pub span: Option<usize>,
    pub fresh: bool,
    pub glyphs: Seq<GlyphPlace>,
    pub strikethroughs: Seq<McEffect>,
    pub underlines: Seq<McEffect>,
    pub stopped: bool,
}

/// The bar of an effect below a glyph: the first one of a run reaches one pixel
/// to the left.
pub open spec fn effect_bar(x0: int, x1: int, y: int, top: int) -> Bar {
    Bar { x0: x0 as i64, y0: (y + top) as i64, x1: x1 as i64, y1: (y + top + 256) as i64 }
}

impl TextState {
    /// One more character. The second newline ends the text.
    pub open spec fn step(self, index: int, c: TextChar, line_step: int) -> TextState {
        if self.stopped {
            self
        } else if c.kind == GlyphKind::Newline {
            TextState {
                x: 0,
                line: self.line + 1,
                span: Some(c.span),
                fresh: true,
                stopped: self.line + 1 >= 2,
                ..self
            }
        } else {
            let first = self.fresh || self.span != Some(c.span);
            let x0 = if first {
                self.x - 256
            } else {
                self.x
            };
            let x1 = self.x + c.advance;
            let y = self.line * line_step;
            TextState {
                x: x1,
                line: self.line,
                span: Some(c.span),
                fresh: false,
                glyphs: self.glyphs.push(
                    GlyphPlace { index: index as usize, x: self.x as i64, y: y as i64 },
                ),
                strikethroughs: if c.strikethrough {
                    with_effect(
                        self.strikethroughs,
                        McEffect {
                            rect: effect_bar(x0, x1, y, 896),
                            color: c.color,
                            shadow_color: c.shadow_color,
                        },
                    )
                } else {
                    self.strikethroughs
                },
                underlines: if c.underline {
                    with_effect(
                        self.underlines,
                        McEffect {
                            rect: effect_bar(x0, x1, y, 2048),
                            color: c.color,
                            shadow_color: c.shadow_color,
                        },
                    )
                } else {
                    self.underlines
                },
                stopped: false,
            }
        }
    }
}

/// The layout of the first `n` characters.
pub open spec fn layout(chars: Seq<TextChar>, line_step: int, n: int) -> TextState
    decreases n,
{
    if n <= 0 {
        TextState {
            x: 0,
            line: 0,
            span: None,
            fresh: true,
            glyphs: Seq::empty(),
            strikethroughs: Seq::empty(),
            underlines: Seq::empty(),
            stopped: false,
        }
    } else {
        layout(chars, line_step, n - 1).step(n - 1, chars[n - 1], line_step)
    }
}

/// A text laid out: glyphs first, then the effects over them.
pub struct TextLayout {
    pub glyphs: Vec<GlyphPlace>,
    pub strikethroughs: Vec<McEffect>,
    pub underlines: Vec<McEffect>,
    pub width: i64,
}

/// Characters whose advances keep positions far from overflow.
pub open spec fn advances_ok(chars: Seq<TextChar>) -> bool {
    &&& chars.len() <= 0x1000_0000
    &&& forall|i: int|
        0 <= i < chars.len() ==> -0x1_0000_0000 <= (#[trigger] chars[i]).advance <= 0x1_0000_0000
}

/// Lays a text out on at most two lines, `line_step` units apart.
pub fn layout_text(chars: &Vec<TextChar>, line_step: i64) -> (out: TextLayout)
    requires
        advances_ok(chars@),
        0 <= line_step <= 0x1_0000_0000,
    ensures
        out.glyphs@ == layout(chars@, line_step as int, chars@.len() as int).glyphs,
        out.strikethroughs@ == layout(chars@, line_step as int, chars@.len() as int).strikethroughs,
        out.underlines@ == layout(chars@, line_step as int, chars@.len() as int).underlines,
        out.width == layout(chars@, line_step as int, chars@.len() as int).x,
{
    let mut glyphs: Vec<GlyphPlace> = Vec::new();
    let mut strikethroughs: Vec<McEffect> = Vec::new();
    let mut underlines: Vec<McEffect> = Vec::new();
    let mut x: i64 = 0;
    let mut line: i64 = 0;
    let mut span: Option<usize> = None;
    let mut fresh = true;
    let mut stopped = false;
    let mut i: usize = 0;
    while i < chars.len()
        invariant
            i <= chars@.len(),
            advances_ok(chars@),
            0 <= line_step <= 0x1_0000_0000,
            0 <= line <= 2,
            line == 2 ==> stopped,
            -0x1_0000_0000 * i <= x <= 0x1_0000_0000 * i,
            layout(chars@, line_step as int, i as int) == (TextState {
                x: x as int,
                line: line as int,
                span,
                fresh,
                glyphs: glyphs@,
                strikethroughs: strikethroughs@,
                underlines: underlines@,
                stopped,
            }),
        decreases chars@.len() - i,
    {
        let c = chars[i];
        assert(-0x1_0000_0000 <= chars@[i as int].advance <= 0x1_0000_0000);
        assert(0 <= line * line_step <= 0x2_0000_0000) by (nonlinear_arith)
            requires
                0 <= line <= 2,
                0 <= line_step <= 0x1_0000_0000,
        ;
        if !stopped {
            match c.kind {
                GlyphKind::Newline => {
                    x = 0;
                    line = line + 1;
                    span = Some(c.span);
                    fresh = true;
                    stopped = line >= 2;
                },
                _ => {
                    let same_span = match span {
                        Some(s) => s == c.span,
                        None => false,
                    };
                    let x0: i64 = if fresh || !same_span {
                        x - PIXEL
                    } else {
                        x
                    };
                    let x1: i64 = x + c.advance;
                    let y: i64 = line * line_step;
                    glyphs.push(GlyphPlace { index: i, x, y });
                    if c.strikethrough {
                        add_mc_effect(
                            &mut strikethroughs,
                            Bar { x0, y0: y + 896, x1, y1: y + 1152 },
                            c.color,
                            c.shadow_color,
                        );
                    }
                    if c.underline {
                        add_mc_effect(
                            &mut underlines,
                            Bar { x0, y0: y + 2048, x1, y1: y + 2304 },
                            c.color,
                            c.shadow_color,
                        );
                    }
                    x = x1;
                    span = Some(c.span);
                    fresh = false;
                },
            }
        }
        i = i + 1;
    }
    TextLayout { glyphs, strikethroughs, underlines, width: x }
}

/// Nothing is drawn below the second line.
pub proof fn law_text_keeps_to_two_lines(chars: Seq<TextChar>, line_step: int, n: int, g: int)
    requires
        0 <= n <= chars.len(),
        0 <= line_step <= 0x1_0000_0000,
        0 <= g < layout(chars, line_step, n).glyphs.len(),
    ensures
        layout(chars, line_step, n).glyphs[g].y == 0 || layout(chars, line_step, n).glyphs[g].y
            == line_step,
    decreases n,
{
    if n > 0 {
        let before = layout(chars, line_step, n - 1);
        lemma_lines(chars, line_step, n - 1);
        if g < before.glyphs.len() {
            law_text_keeps_to_two_lines(chars, line_step, n - 1, g);
        } else {
            assert(before.line * line_step == 0 || before.line * line_step == line_step)
                by (nonlinear_arith)
                requires
                    before.line == 0 || before.line == 1,
            ;
        }
    }
}

proof fn lemma_lines(chars: Seq<TextChar>, line_step: int, n: int)
    requires
        0 <= n <= chars.len(),
    ensures
        0 <= layout(chars, line_step, n).line <= 2,
        layout(chars, line_step, n).line == 2 <==> layout(chars, line_step, n).stopped,
    decreases n,
{
    if n > 0 {
        lemma_lines(chars, line_step, n - 1);
    }
}

/// The newlines among the first `n` characters.
pub open spec fn newlines(chars: Seq<TextChar>, n: int) -> int
    decreases n,
{
    if n <= 0 {
        0
    } else {
        newlines(chars, n - 1) + (if chars[n - 1].kind == GlyphKind::Newline {
            1int
        } else {
            0
        })
    }
}

/// How far the characters before the `n`-th on its line reach.
pub open spec fn pen(chars: Seq<TextChar>, n: int) -> int
    decreases n,
{
    if n <= 0 || chars[n - 1].kind == GlyphKind::Newline {
        0
    } else {
        pen(chars, n - 1) + chars[n - 1].advance
    }
}

/// A character is drawn: it is no newline, and on one of the first two lines.
pub open spec fn is_drawn(chars: Seq<TextChar>, i: int) -> bool {
    chars[i].kind != GlyphKind::Newline && newlines(chars, i) < 2
}

/// A character is the first of its span on its line.
pub open spec fn begins_run(chars: Seq<TextChar>, i: int) -> bool {
    i == 0 || chars[i - 1].kind == GlyphKind::Newline || chars[i - 1].span != chars[i].span
}

proof fn lemma_layout_place(chars: Seq<TextChar>, line_step: int, n: int)
    requires
        advances_ok(chars),
        0 <= n <= chars.len(),
    ensures
        -0x1_0000_0000 * n <= pen(chars, n) <= 0x1_0000_0000 * n,
        0 <= newlines(chars, n),
        ({
            let state = layout(chars, line_step, n);
            if newlines(chars, n) < 2 {
                &&& !state.stopped
                &&& state.x == pen(chars, n)
                &&& state.line == newlines(chars, n)
                &&& n < chars.len() ==> (state.fresh || state.span != Some(chars[n].span)
                    <==> begins_run(chars, n))
            } else {
                state.stopped && state.x == 0
            }
        }),
    decreases n,
{
    if n > 0 {
        lemma_layout_place(chars, line_step, n - 1);
        assert(-0x1_0000_0000 <= chars[n - 1].advance <= 0x1_0000_0000);
    }
}

/// A glyph stands in its place: as far to the right as the advances of the characters
/// before it on its line add up to, and a line step down for each newline before it.
pub open spec fn in_place(chars: Seq<TextChar>, line_step: int, g: GlyphPlace) -> bool {
    &&& g.index < chars.len()
    &&& is_drawn(chars, g.index as int)
    &&& g.x == pen(chars, g.index as int)
    &&& g.y == newlines(chars, g.index as int) * line_step
}

proof fn lemma_glyphs_placed(chars: Seq<TextChar>, line_step: int, n: int)
    requires
        advances_ok(chars),
        0 <= line_step <= 0x1_0000_0000,
        0 <= n <= chars.len(),
    ensures
        forall|g: int|
            0 <= g < layout(chars, line_step, n).glyphs.len() ==> in_place(
                chars,
                line_step,
                #[trigger] layout(chars, line_step, n).glyphs[g],
            ) && layout(chars, line_step, n).glyphs[g].index < n,
        forall|g: int, h: int|
            0 <= g < h < layout(chars, line_step, n).glyphs.len() ==> (#[trigger] layout(
                chars,
                line_step,
                n,
            ).glyphs[g]).index < (#[trigger] layout(chars, line_step, n).glyphs[h]).index,
        forall|i: int|
            0 <= i < n && #[trigger] is_drawn(chars, i) ==> exists|g: int|
                0 <= g < layout(chars, line_step, n).glyphs.len() && (#[trigger] layout(
                    chars,
                    line_step,
                    n,
                ).glyphs[g]).index == i,
    decreases n,
{
    if n > 0 {
        lemma_glyphs_placed(chars, line_step, n - 1);
        lemma_layout_place(chars, line_step, n - 1);
        let before = layout(chars, line_step, n - 1).glyphs;
        let after = layout(chars, line_step, n).glyphs;
        assert(0 <= newlines(chars, n - 1) * line_step <= 0x2_0000_0000 || newlines(chars, n - 1)
            >= 2) by (nonlinear_arith)
            requires
                0 <= newlines(chars, n - 1),
                0 <= line_step <= 0x1_0000_0000,
        ;
        assert forall|g: int| 0 <= g < after.len() implies in_place(
            chars,
            line_step,
            #[trigger] after[g],
        ) && after[g].index < n by {
            if g < before.len() {
                assert(after[g] == before[g]);
            }
        }
        assert forall|i: int| 0 <= i < n && #[trigger] is_drawn(chars, i) implies exists|g: int|
            0 <= g < after.len() && (#[trigger] after[g]).index == i by {
            if i < n - 1 {
                let g = choose|g: int| 0 <= g < before.len() && (#[trigger] before[g]).index == i;
                assert(after[g].index == i);
            } else {
                assert(after[before.len() as int].index == i);
            }
        }
    }
}

/// Text runs from left to right on two lines: each character before the second newline
/// that is no newline has one glyph, in order, right behind the one before it, and a line
/// step down after a newline; no other character has any. The text is as wide as the line
/// it ends on.
pub proof fn law_glyphs_follow_the_pen(chars: Seq<TextChar>, line_step: int, i: int, g: int, h: int)
    requires
        advances_ok(chars),
        0 <= line_step <= 0x1_0000_0000,
        0 <= i < chars.len(),
    ensures
        ({
            let out = layout(chars, line_step, chars.len() as int);
            &&& is_drawn(chars, i) ==> exists|k: int|
                0 <= k < out.glyphs.len() && #[trigger] out.glyphs[k] == (GlyphPlace {
                    index: i as usize,
                    x: pen(chars, i) as i64,
                    y: (newlines(chars, i) * line_step) as i64,
                })
            &&& 0 <= g < out.glyphs.len() ==> in_place(chars, line_step, out.glyphs[g])
            &&& 0 <= g < h < out.glyphs.len() ==> out.glyphs[g].index < out.glyphs[h].index
            &&& newlines(chars, chars.len() as int) < 2 ==> out.x == pen(chars, chars.len() as int)
        }),
{
    let n = chars.len() as int;
    lemma_glyphs_placed(chars, line_step, n);
    lemma_layout_place(chars, line_step, n);
    let glyphs = layout(chars, line_step, n).glyphs;
    if is_drawn(chars, i) {
        let k = choose|k: int| 0 <= k < glyphs.len() && (#[trigger] glyphs[k]).index == i;
        assert(in_place(chars, line_step, glyphs[k]));
    }
}

/// An underline is wanted, or a strikethrough.
pub open spec fn wants(c: TextChar, under: bool) -> bool {
    if under {
        c.underline
    } else {
        c.strikethrough
    }
}

/// How far below the top of its line an effect begins: eight font pixels for an
/// underline, three and a half for a strikethrough.
pub open spec fn effect_top(under: bool) -> int {
    if under {
        8int * 256
    } else {
        3int * 256 + 128
    }
}

/// The underlines of a text, or its strikethroughs.
pub open spec fn effects_of(state: TextState, under: bool) -> Seq<McEffect> {
    if under {
        state.underlines
    } else {
        state.strikethroughs
    }
}

/// Where the effect of a character begins: a pixel before it if it begins a run.
pub open spec fn effect_left(chars: Seq<TextChar>, i: int) -> int {
    pen(chars, i) - (if begins_run(chars, i) {
        256int
    } else {
        0
    })
}

/// What the effects of the first `n` characters add up to.
pub open spec fn effect_total(chars: Seq<TextChar>, under: bool, n: int) -> int
    decreases n,
{
    if n <= 0 {
        0
    } else {
        effect_total(chars, under, n - 1) + (if is_drawn(chars, n - 1) && wants(
            chars[n - 1],
            under,
        ) {
            chars[n - 1].advance + (if begins_run(chars, n - 1) {
                256int
            } else {
                0
            })
        } else {
            0
        })
    }
}

/// A bar lies over a character: on its line, a font pixel high, in its colours, from
/// where its effect begins to where it ends.
pub open spec fn bar_covers(
    chars: Seq<TextChar>,
    line_step: int,
    under: bool,
    bar: McEffect,
    i: int,
) -> bool {
    &&& bar.rect.y0 == newlines(chars, i) * line_step + effect_top(under)
    &&& bar.rect.y1 == bar.rect.y0 + 256
    &&& bar.rect.x0 <= effect_left(chars, i)
    &&& pen(chars, i) + chars[i].advance <= bar.rect.x1
    &&& equal_colors(bar.color, chars[i].color) || bar.color == chars[i].color
    &&& equal_shadows(bar.shadow_color, chars[i].shadow_color) || bar.shadow_color
        == chars[i].shadow_color
}

/// A bar begins with a character: with its effect, in its very colours.
pub open spec fn bar_begins(
    chars: Seq<TextChar>,
    line_step: int,
    under: bool,
    bar: McEffect,
    i: int,
) -> bool {
    &&& bar.rect.y0 == newlines(chars, i) * line_step + effect_top(under)
    &&& bar.rect.y1 == bar.rect.y0 + 256
    &&& bar.rect.x0 == effect_left(chars, i)
    &&& bar.color == chars[i].color
    &&& bar.shadow_color == chars[i].shadow_color
}

/// A bar begins with one of the first `n` characters that want it.
pub open spec fn bar_is_wanted(
    chars: Seq<TextChar>,
    line_step: int,
    under: bool,
    bar: McEffect,
    n: int,
) -> bool {
    exists|i: int|
        0 <= i < n && is_drawn(chars, i) && wants(chars[i], under) && #[trigger] bar_begins(
            chars,
            line_step,
            under,
            bar,
            i,
        )
}

proof fn lemma_effect_step(chars: Seq<TextChar>, line_step: int, under: bool, n: int)
    requires
        advances_ok(chars),
        0 <= line_step <= 0x1_0000_0000,
        0 <= n < chars.len(),
    ensures
        ({
            let before = effects_of(layout(chars, line_step, n), under);
            let after = effects_of(layout(chars, line_step, n + 1), under);
            if is_drawn(chars, n) && wants(chars[n], under) {
                exists|bar: McEffect|
                    after == #[trigger] with_effect(before, bar) && bar_begins(
                        chars,
                        line_step,
                        under,
                        bar,
                        n,
                    ) && bar.rect.x1 == pen(chars, n) + chars[n].advance
            } else {
                after == before
            }
        }),
{
    lemma_layout_place(chars, line_step, n);
    assert(-0x1_0000_0000 <= chars[n].advance <= 0x1_0000_0000);
    if is_drawn(chars, n) && wants(chars[n], under) {
        let lines = newlines(chars, n);
        assert(0 <= lines * line_step <= 0x1_0000_0000) by (nonlinear_arith)
            requires
                0 <= lines < 2,
                0 <= line_step <= 0x1_0000_0000,
        ;
        let bar = McEffect {
            rect: Bar {
                x0: effect_left(chars, n) as i64,
                y0: (lines * line_step + effect_top(under)) as i64,
                x1: (pen(chars, n) + chars[n].advance) as i64,
                y1: (lines * line_step + effect_top(under) + 256) as i64,
            },
            color: chars[n].color,
            shadow_color: chars[n].shadow_color,
        };
        assert(effects_of(layout(chars, line_step, n + 1), under) == with_effect(
            effects_of(layout(chars, line_step, n), under),
            bar,
        ));
    }
}

proof fn lemma_effects(chars: Seq<TextChar>, line_step: int, under: bool, n: int)
    requires
        advances_ok(chars),
        0 <= line_step <= 0x1_0000_0000,
        0 <= n <= chars.len(),
    ensures
        ({
            let bars = effects_of(layout(chars, line_step, n), under);
            &&& effect_length(bars) == effect_total(chars, under, n)
            &&& forall|b: int|
                0 <= b < bars.len() ==> bar_is_wanted(
                    chars,
                    line_step,
                    under,
                    #[trigger] bars[b],
                    n,
                )
        }),
    decreases n,
{
    if n > 0 {
        lemma_effects(chars, line_step, under, n - 1);
        lemma_effect_step(chars, line_step, under, n - 1);
        let before = effects_of(layout(chars, line_step, n - 1), under);
        let after = effects_of(layout(chars, line_step, n), under);
        if is_drawn(chars, n - 1) && wants(chars[n - 1], under) {
            let bar = choose|bar: McEffect|
                after == #[trigger] with_effect(before, bar) && bar_begins(
                    chars,
                    line_step,
                    under,
                    bar,
                    n - 1,
                ) && bar.rect.x1 == pen(chars, n - 1) + chars[n - 1].advance;
            law_merging_keeps_length(before, bar);
        }
        assert forall|b: int| 0 <= b < after.len() implies bar_is_wanted(
            chars,
            line_step,
            under,
            #[trigger] after[b],
            n,
        ) by {
            if b < before.len() {
                assert(bar_is_wanted(chars, line_step, under, before[b], n - 1));
                let i = choose|i: int|
                    0 <= i < n - 1 && is_drawn(chars, i) && wants(chars[i], under)
                        && #[trigger] bar_begins(chars, line_step, under, before[b], i);
                assert(bar_begins(chars, line_step, under, after[b], i));
            } else {
                assert(bar_begins(chars, line_step, under, after[b], n - 1));
            }
        }
    }
}

proof fn lemma_cover(chars: Seq<TextChar>, line_step: int, under: bool, n: int, i: int) -> (b: int)
    requires
        advances_ok(chars),
        0 <= line_step <= 0x1_0000_0000,
        0 <= i < n <= chars.len(),
        is_drawn(chars, i),
        wants(chars[i], under),
        forall|j: int| 0 <= j < chars.len() ==> (#[trigger] chars[j]).advance >= 0,
    ensures
        0 <= b < effects_of(layout(chars, line_step, n), under).len(),
        bar_covers(chars, line_step, under, effects_of(layout(chars, line_step, n), under)[b], i),
    decreases n,
{
    lemma_effect_step(chars, line_step, under, n - 1);
    let before = effects_of(layout(chars, line_step, n - 1), under);
    let after = effects_of(layout(chars, line_step, n), under);
    if is_drawn(chars, n - 1) && wants(chars[n - 1], under) {
        let bar = choose|bar: McEffect|
            after == #[trigger] with_effect(before, bar) && bar_begins(
                chars,
                line_step,
                under,
                bar,
                n - 1,
            ) && bar.rect.x1 == pen(chars, n - 1) + chars[n - 1].advance;
        if i < n - 1 {
            let b = lemma_cover(chars, line_step, under, n - 1, i);
            if b == before.len() - 1 && abuts(before.last(), bar) {
                assert(after[b].rect.x1 == bar.rect.x1);
                assert(chars[n - 1].advance >= 0);
            }
            b
        } else {
            let b = after.len() - 1;
            if before.len() > 0 && abuts(before.last(), bar) {
                lemma_last_bar(chars, line_step, under, n - 1);
            }
            b
        }
    } else {
        lemma_cover(chars, line_step, under, n - 1, i)
    }
}

proof fn lemma_last_bar(chars: Seq<TextChar>, line_step: int, under: bool, n: int)
    requires
        advances_ok(chars),
        0 <= line_step <= 0x1_0000_0000,
        0 <= n <= chars.len(),
        forall|j: int| 0 <= j < chars.len() ==> (#[trigger] chars[j]).advance >= 0,
        effects_of(layout(chars, line_step, n), under).len() > 0,
    ensures
        ({
            let last = effects_of(layout(chars, line_step, n), under).last();
            last.rect.x0 <= last.rect.x1 && last.rect.y1 == last.rect.y0 + 256
        }),
    decreases n,
{
    if n > 0 {
        lemma_effect_step(chars, line_step, under, n - 1);
        let before = effects_of(layout(chars, line_step, n - 1), under);
        let after = effects_of(layout(chars, line_step, n), under);
        assert(chars[n - 1].advance >= 0);
        if is_drawn(chars, n - 1) && wants(chars[n - 1], under) {
            let bar = choose|bar: McEffect|
                after == #[trigger] with_effect(before, bar) && bar_begins(
                    chars,
                    line_step,
                    under,
                    bar,
                    n - 1,
                ) && bar.rect.x1 == pen(chars, n - 1) + chars[n - 1].advance;
            if before.len() > 0 && abuts(before.last(), bar) {
                lemma_last_bar(chars, line_step, under, n - 1);
            }
        } else {
            lemma_last_bar(chars, line_step, under, n - 1);
        }
    }
}

/// Every character on the first two lines that is struck through, or underlined, has its
/// bar, in its colours, a font pixel high at its place below the top of the line: from the
/// character, and a pixel before it at the start of a run, to the end of the character.
pub proof fn law_effects_lie_over_their_text(
    chars: Seq<TextChar>,
    line_step: int,
    under: bool,
    i: int,
)
    requires
        advances_ok(chars),
        0 <= line_step <= 0x1_0000_0000,
        0 <= i < chars.len(),
        is_drawn(chars, i),
        wants(chars[i], under),
        forall|j: int| 0 <= j < chars.len() ==> (#[trigger] chars[j]).advance >= 0,
    ensures
        ({
            let bars = effects_of(layout(chars, line_step, chars.len() as int), under);
            exists|b: int|
                0 <= b < bars.len() && bar_covers(chars, line_step, under, #[trigger] bars[b], i)
        }),
{
    let b = lemma_cover(chars, line_step, under, chars.len() as int, i);
}

/// Nothing else is struck through or underlined: each bar begins with a character that
/// is, and together the bars are as long as those characters, and a pixel more for each
/// run of them that begins a span or a line.
pub proof fn law_effects_lie_over_nothing_else(
    chars: Seq<TextChar>,
    line_step: int,
    under: bool,
    b: int,
)
    requires
        advances_ok(chars),
        0 <= line_step <= 0x1_0000_0000,
    ensures
        ({
            let bars = effects_of(layout(chars, line_step, chars.len() as int), under);
            &&& effect_length(bars) == effect_total(chars, under, chars.len() as int)
            &&& 0 <= b < bars.len() ==> bar_is_wanted(
                chars,
                line_step,
                under,
                bars[b],
                chars.len() as int,
            )
        }),
{
    lemma_effects(chars, line_step, under, chars.len() as int);
}

/// Bars merge only where one carries on the other: on one line, without a gap, in equal
/// colours and with equal shadows; the merged bar then reaches from the start of the one
/// to the end of the other, and otherwise there is a bar more.
pub proof fn law_bars_merge_where_they_meet(effects: Seq<McEffect>, next: McEffect)
    requires
        effects.len() > 0,
    ensures
        ({
            let last = effects.last();
            let out = with_effect(effects, next);
            let meets = last.rect.x1 == next.rect.x0 && last.rect.y0 == next.rect.y0
                && equal_colors(last.color, next.color) && equal_shadows(
                last.shadow_color,
                next.shadow_color,
            );
            &&& meets ==> out.len() == effects.len() && out.last().rect.x0 == last.rect.x0
                && out.last().rect.x1 == next.rect.x1 && out.last().rect.y0 == last.rect.y0
                && out.last().rect.y1 == last.rect.y1
            &&& !meets ==> out.len() == effects.len() + 1 && out.last() == next && out[effects.len()
                - 1] == last
            &&& forall|k: int| 0 <= k < effects.len() - 1 ==> #[trigger] out[k] == effects[k]
        }),
{
}

/// Two bit patterns of single-precision numbers stand for equal numbers as IEEE 754 has
/// it: what is no number equals nothing, itself included, the two zeros are equal, and
/// every other number equals itself alone.
pub proof fn law_numbers_are_equal_by_value(a: u32, b: u32)
    ensures
        // All exponent bits and some of the fraction: no number.
        a % 0x8000_0000 > 0x7f80_0000 ==> !equal_numbers(a, b) && !equal_numbers(b, a),
        a % 0x8000_0000 <= 0x7f80_0000 ==> equal_numbers(a, a),
        equal_numbers(0, 0x8000_0000) && equal_numbers(0x8000_0000, 0),
        a != b && a != 0 && a != 0x8000_0000 ==> !equal_numbers(a, b),
        equal_numbers(a, b) == equal_numbers(b, a),
{
}

/// How a font is scaled: pixels on screen for each unit of advance, as a fraction.
#[derive(Clone, Copy, Debug, PartialEq, Eq, Structural)]
pub struct FontScale {
    pub num: u32,
    pub den: u32,
}

/// Pixels that text of an advance takes up, rounded up.
pub open spec fn shown(advance: int, scale: FontScale) -> int {
    (advance * scale.num + scale.den - 1) / scale.den as int
}

/// The sum of the first `n` advances.
pub open spec fn advance_sum(advances: Seq<i64>, n: int) -> int
    decreases n,
{
    if n <= 0 {
        0
    } else {
        advance_sum(advances, n - 1) + advances[n - 1]
    }
}

proof fn lemma_negative_quotient(p: int, d: int)
    requires
        0 < p,
        0 < d,
    ensures
        (-p) / d == -((p + d - 1) / d),
        0 <= (p + d - 1) / d <= p,
{
    let up = p + d - 1;
    let q = up / d;
    let r = up % d;
    vstd::arithmetic::div_mod::lemma_fundamental_div_mod(up, d);
    vstd::arithmetic::div_mod::lemma_mod_bound(up, d);
    assert(-p == (-q) * d + (d - 1 - r) && 0 <= q <= p) by (nonlinear_arith)
        requires
            p + d - 1 == d * q + r,
            0 <= r < d,
            0 < p,
            0 < d,
    ;
    vstd::arithmetic::div_mod::lemma_fundamental_div_mod_converse(-p, d, -q, d - 1 - r);
}

/// Pixels of an advance of no more than 2^94 either way.
fn shown_width(advance: i128, scale: FontScale) -> (width: i128)
    requires
        scale.den > 0,
        -0x4000_0000_0000_0000_0000_0000 <= advance <= 0x4000_0000_0000_0000_0000_0000,
    ensures
        width == shown(advance as int, scale),
        -0x1_0000_0000 * (if advance < 0 {
            -advance
        } else {
            advance as int
        } + 1) <= width <= 0x1_0000_0000 * (if advance < 0 {
            -advance
        } else {
            advance as int
        } + 1),
{
    let ghost size = if advance < 0 {
        -advance
    } else {
        advance as int
    };
    assert(-0x1_0000_0000 * size <= advance * scale.num <= 0x1_0000_0000 * size) by (nonlinear_arith)
        requires
            -size <= advance <= size,
            0 <= size,
            0 <= scale.num <= 0x1_0000_0000,
    ;
    let scaled: i128 = advance * scale.num as i128 + (scale.den as i128 - 1);
    if scaled >= 0 {
        proof {
            vstd::arithmetic::div_mod::lemma_div_is_ordered_by_denominator(
                scaled as int,
                1,
                scale.den as int,
            );
            vstd::arithmetic::div_mod::lemma_div_pos_is_pos(scaled as int, scale.den as int);
        }
        (scaled as u128 / scale.den as u128) as i128
    } else {
        proof {
            lemma_negative_quotient(-scaled, scale.den as int);
        }
        let up: u128 = (-scaled) as u128 + (scale.den as u128 - 1);
        -((up / scale.den as u128) as i128)
    }
}

/// Advances of no more than 2^61 either way.
pub open spec fn moderate_advances(advances: Seq<i64>) -> bool {
    forall|i: int|
        0 <= i < advances.len() ==> -0x2000_0000_0000_0000 <= #[trigger] advances[i]
            <= 0x2000_0000_0000_0000
}

/// Width of a run of characters on screen, in whole pixels.
pub fn text_width(advances: &Vec<i64>, scale: FontScale) -> (width: i128)
    requires
        scale.den > 0,
        advances@.len() <= u32::MAX,
        moderate_advances(advances@),
    ensures
        width == shown(advance_sum(advances@, advances@.len() as int), scale),
{
    let mut sum: i128 = 0;
    let mut i: usize = 0;
    while i < advances.len()
        invariant
            i <= advances@.len() <= u32::MAX,
            moderate_advances(advances@),
            sum == advance_sum(advances@, i as int),
            -0x2000_0000_0000_0000 * i <= sum <= 0x2000_0000_0000_0000 * i,
        decreases advances@.len() - i,
    {
        sum = sum + advances[i] as i128;
        i = i + 1;
    }
    shown_width(sum, scale)
}

/// Advance of the words from `from` to `to` on one line, spaces between them.
pub open spec fn run_advance(words: Seq<i64>, space: int, from: int, to: int) -> int
    decreases to - from,
{
    if to <= from {
        0
    } else if to == from + 1 {
        words[from] as int
    } else {
        run_advance(words, space, from, to - 1) + space + words[to - 1]
    }
}

/// The width a line is judged by when a word is about to join the words before it:
/// line, space and word, each rounded up by itself.
pub open spec fn tried_width(
    words: Seq<i64>,
    space: int,
    scale: FontScale,
    from: int,
    word: int,
) -> int {
    shown(run_advance(words, space, from, word), scale) + shown(space, scale) + shown(
        words[word] as int,
        scale,
    )
}

/// A line of words, from `start` up to `end`.
#[derive(Clone, Copy, Debug, PartialEq, Eq, Structural)]
pub struct WordLine {
    pub start: usize,
    pub end: usize,
}

/// `lines` hold the words from 0 to `end` in order, none of them empty.
pub open spec fn lines_cover(lines: Seq<WordLine>, end: int) -> bool
    decreases lines.len(),
{
    if lines.len() == 0 {
        end == 0
    } else {
        let last = lines.last();
        &&& last.start < last.end
        &&& last.end == end
        &&& lines_cover(lines.drop_last(), last.start as int)
    }
}

/// The words after a line's first joined it because they fitted.
pub open spec fn joined(
    words: Seq<i64>,
    space: int,
    scale: FontScale,
    limit: int,
    from: int,
    to: int,
) -> bool {
    forall|w: int| from < w < to ==> #[trigger] tried_width(words, space, scale, from, w) <= limit
}

/// Every word of a line but its first fitted, and the word after the line did not.
pub open spec fn greedy(
    lines: Seq<WordLine>,
    words: Seq<i64>,
    space: int,
    scale: FontScale,
    limit: int,
) -> bool {
    forall|k: int|
        0 <= k < lines.len() ==> {
            let line = #[trigger] lines[k];
            &&& joined(words, space, scale, limit, line.start as int, line.end as int)
            &&& line.end < words.len() ==> tried_width(
                words,
                space,
                scale,
                line.start as int,
                line.end as int,
            ) > limit
        }
}

/// Breaks words into lines no wider than `limit` pixels, as many words to a line as
/// fit.
pub fn wrap_words(words: &Vec<i64>, space: i64, scale: FontScale, limit: u64) -> (lines: Vec<WordLine>)
    requires
        words@.len() <= 0x1000_0000,
        scale.den > 0,
        moderate_advances(words@),
        -0x2000_0000_0000_0000 <= space <= 0x2000_0000_0000_0000,
    ensures
        lines_cover(lines@, words@.len() as int),
        greedy(lines@, words@, space as int, scale, limit as int),
{
    let mut lines: Vec<WordLine> = Vec::new();
    let mut start: usize = 0;
    let mut advance: i128 = 0;
    let mut i: usize = 0;
    while i < words.len()
        invariant
            start <= i <= words@.len() <= 0x1000_0000,
            scale.den > 0,
            moderate_advances(words@),
            -0x2000_0000_0000_0000 <= space <= 0x2000_0000_0000_0000,
            i > 0 ==> start < i,
            i == 0 ==> start == 0,
            advance == run_advance(words@, space as int, start as int, i as int),
            -0x4000_0000_0000_0000 * (i - start) <= advance <= 0x4000_0000_0000_0000 * (i - start),
            lines_cover(lines@, start as int),
            greedy(lines@, words@, space as int, scale, limit as int),
            joined(words@, space as int, scale, limit as int, start as int, i as int),
        decreases words@.len() - i,
    {
        if i == start {
            advance = words[i] as i128;
            i = i + 1;
        } else {
            let tried: i128 = shown_width(advance, scale) + shown_width(space as i128, scale)
                + shown_width(words[i] as i128, scale);
            assert(tried == tried_width(words@, space as int, scale, start as int, i as int));
            if tried > limit as i128 {
                let ghost before = lines@;
                lines.push(WordLine { start, end: i });
                assert(lines@.drop_last() =~= before);
                start = i;
                advance = words[i] as i128;
            } else {
                advance = advance + space as i128 + words[i] as i128;
                assert(advance == run_advance(words@, space as int, start as int, i + 1));
            }
            i = i + 1;
        }
    }
    if start < i {
        let ghost before = lines@;
        lines.push(WordLine { start, end: i });
        assert(lines@.drop_last() =~= before);
    }
    lines
}

/// A piece of a text display. Two pieces have the same style, all but their text, if
/// and only if `style` is the same.
pub struct DisplaySpan {
    pub text: String,
    pub style: u32,
    pub bold: bool,
    /// The replacement character stands for an object.
    pub object: bool,
}

/// How wide the font's glyph of a character is, and how much wider in bold.
#[derive(Clone, Copy, Debug, PartialEq, Eq, Structural)]
pub struct GlyphWidth {
    pub advance: i64,
    pub bold_offset: i64,
}

/// The characters of the first `n` spans in order, each with the span it is of.
pub open spec fn spread(spans: Seq<DisplaySpan>, n: int) -> Seq<(char, int)>
    decreases n,
{
    if n <= 0 {
        Seq::empty()
    } else {
        spread(spans, n - 1) + spans[n - 1].text@.map_values(|c: char| (c, n - 1))
    }
}

/// The characters of a display in order, each with the span it is of.
pub open spec fn display_chars(spans: Seq<DisplaySpan>) -> Seq<(char, int)> {
    spread(spans, spans.len() as int)
}

/// The characters of a display in order, each with its span's style.
pub open spec fn styled_chars(spans: Seq<DisplaySpan>) -> Seq<(char, u32)> {
    display_chars(spans).map_values(|c: (char, int)| (c.0, spans[c.1].style))
}

/// How far a character takes the text: an object as far as an object does, any other
/// character as far as its glyph.
pub open spec fn char_width(ch: char, object: bool, bold: bool, glyph: GlyphWidth) -> int {
    if ch == '\u{fffc}' && object {
        PIXEL * (8 + if bold {
            1int
        } else {
            0
        })
    } else {
        glyph.advance + (if bold {
            glyph.bold_offset as int
        } else {
            0
        })
    }
}

/// The characters of a display and how far each takes the text: what lines are broken by.
pub open spec fn display_steps(spans: Seq<DisplaySpan>, glyphs: Seq<GlyphWidth>) -> Seq<(char, i64)> {
    let chars = display_chars(spans);
    Seq::new(
        chars.len(),
        |i: int|
            {
                let span = spans[chars[i].1];
                (chars[i].0, char_width(chars[i].0, span.object, span.bold, glyphs[i]) as i64)
            },
    )
}

/// The width a line is broken at: no less than a pixel of the font.
pub open spec fn line_limit(max_width: i64) -> i64 {
    if max_width < PIXEL {
        PIXEL
    } else {
        max_width
    }
}

/// Characters of one style.
pub struct StyledText {
    pub text: String,
    pub style: u32,
}

/// The characters of pieces in order, each with its style.
pub open spec fn piece_chars(pieces: Seq<StyledText>) -> Seq<(char, u32)>
    decreases pieces.len(),
{
    if pieces.len() == 0 {
        Seq::empty()
    } else {
        let last = pieces.last();
        piece_chars(pieces.drop_last()) + last.text@.map_values(|c: char| (c, last.style))
    }
}

/// No piece is empty, and neighbours differ in style.
pub open spec fn merged(pieces: Seq<StyledText>) -> bool {
    &&& forall|k: int| 0 <= k < pieces.len() ==> (#[trigger] pieces[k]).text@.len() > 0
    &&& forall|k: int, n: int|
        0 <= k && n == k + 1 && n < pieces.len() ==> (#[trigger] pieces[k]).style != (
        #[trigger] pieces[n]).style
}

/// A line of a display: which characters it shows, and these as pieces.
pub struct DisplayLine {
    pub start: usize,
    pub end: usize,
    pub pieces: Vec<StyledText>,
}

/// Where a line that begins at `start` ends and the next one begins, as the breaker
/// says of the characters and the width; without a break it takes all that is left.
pub open spec fn breaks_at<F: Fn(&Vec<(char, i64)>, usize, i64) -> Option<(usize, usize)>>(
    find: F,
    steps: Seq<(char, i64)>,
    limit: i64,
    start: usize,
    end: int,
    next: int,
) -> bool {
    exists|given: Vec<(char, i64)>, found: Option<(usize, usize)>|
        given@ == steps && #[trigger] call_ensures(find, (&given, start, limit), found) && (
        match found {
            Some((e, n)) => end == e && next == n,
            None => end == steps.len() && next == steps.len(),
        })
}

/// A breaker can be asked of each of the characters, moves on with each line, and lets
/// no two lines overlap.
pub open spec fn moves_on<F: Fn(&Vec<(char, i64)>, usize, i64) -> Option<(usize, usize)>>(
    find: F,
    steps: Seq<(char, i64)>,
    limit: i64,
) -> bool {
    &&& forall|given: Vec<(char, i64)>, start: usize|
        given@ == steps && start < steps.len() ==> #[trigger] call_requires(
            find,
            (&given, start, limit),
        )
    &&& forall|given: Vec<(char, i64)>, start: usize, found: Option<(usize, usize)>|
        given@ == steps && start < steps.len() && #[trigger] call_ensures(
            find,
            (&given, start, limit),
            found,
        ) ==> (found matches Some((end, next)) ==> start <= end <= steps.len() && end <= next
            && start < next)
}

/// Where the line after the first `n` begins, or the end of the text.
pub open spec fn line_start(lines: Seq<DisplayLine>, len: int, n: int) -> int {
    if n < lines.len() {
        lines[n].start as int
    } else {
        len
    }
}

/// A line shows its characters, each in its style, as few pieces as can be.
pub open spec fn shows_line(line: DisplayLine, chars: Seq<(char, u32)>) -> bool {
    &&& line.start <= line.end <= chars.len()
    &&& piece_chars(line.pieces@) == chars.subrange(line.start as int, line.end as int)
    &&& merged(line.pieces@)
}

/// The characters of the first `n` lines, each line followed by those consumed at its
/// break.
pub open spec fn woven(lines: Seq<DisplayLine>, chars: Seq<(char, u32)>, n: int) -> Seq<(char, u32)>
    decreases n,
{
    if n <= 0 {
        Seq::empty()
    } else {
        woven(lines, chars, n - 1) + piece_chars(lines[n - 1].pieces@) + chars.subrange(
            lines[n - 1].end as int,
            line_start(lines, chars.len() as int, n),
        )
    }
}

/// `lines` follow one another from the first character on and do not overlap.
pub open spec fn in_order(lines: Seq<DisplayLine>, chars: Seq<(char, u32)>) -> bool {
    &&& lines.len() == 0 <==> chars.len() == 0
    &&& lines.len() > 0 ==> lines[0].start == 0
    &&& forall|k: int| 0 <= k < lines.len() ==> shows_line(#[trigger] lines[k], chars)
    &&& forall|k: int, n: int|
        0 <= k && n == k + 1 && n < lines.len() ==> (#[trigger] lines[k]).end <= (
        #[trigger] lines[n]).start && lines[k].start < lines[n].start
}

proof fn lemma_woven(lines: Seq<DisplayLine>, chars: Seq<(char, u32)>, n: int)
    requires
        in_order(lines, chars),
        0 <= n <= lines.len(),
        n > 0 || lines.len() > 0,
    ensures
        line_start(lines, chars.len() as int, n) <= chars.len(),
        woven(lines, chars, n) == chars.take(line_start(lines, chars.len() as int, n)),
    decreases n,
{
    let at = line_start(lines, chars.len() as int, n);
    if n < lines.len() {
        assert(shows_line(lines[n], chars));
    }
    if n > 0 {
        lemma_woven(lines, chars, n - 1);
        let last = lines[n - 1];
        assert(shows_line(last, chars));
        if n < lines.len() {
            assert(last.end <= lines[n].start);
        }
        assert(chars.take(at) =~= chars.take(last.start as int) + chars.subrange(
            last.start as int,
            last.end as int,
        ) + chars.subrange(last.end as int, at));
    } else {
        assert(chars.take(0) =~= Seq::<(char, u32)>::empty());
    }
}

/// The lines of a display hold its characters in order, each with its style, and leave
/// out only those between the end of one line and the start of the next.
pub proof fn law_display_lines_keep_the_text(lines: Seq<DisplayLine>, chars: Seq<(char, u32)>)
    requires
        in_order(lines, chars),
    ensures
        woven(lines, chars, lines.len() as int) == chars,
{
    if lines.len() > 0 {
        lemma_woven(lines, chars, lines.len() as int);
    }
    assert(chars.take(chars.len() as int) =~= chars);
}

proof fn lemma_spread_empty(spans: Seq<DisplaySpan>, n: int)
    requires
        0 <= n <= spans.len(),
    ensures
        spread(spans, n).len() == 0 <==> forall|i: int|
            0 <= i < n ==> (#[trigger] spans[i]).text@.len() == 0,
    decreases n,
{
    if n > 0 {
        lemma_spread_empty(spans, n - 1);
        assert(spread(spans, n).len() == spread(spans, n - 1).len() + spans[n - 1].text@.len());
    }
}

fn spread_spans(spans: &Vec<DisplaySpan>) -> (chars: Vec<(char, usize)>)
    ensures
        chars@.len() == display_chars(spans@).len(),
        forall|i: int|
            0 <= i < chars@.len() ==> (#[trigger] chars@[i]).0 == display_chars(spans@)[i].0
                && chars@[i].1 == display_chars(spans@)[i].1 && chars@[i].1 < spans@.len(),
{
    let mut chars: Vec<(char, usize)> = Vec::new();
    let mut n: usize = 0;
    while n < spans.len()
        invariant
            n <= spans@.len(),
            chars@.len() == spread(spans@, n as int).len(),
            forall|i: int|
                0 <= i < chars@.len() ==> (#[trigger] chars@[i]).0 == spread(spans@, n as int)[i].0
                    && chars@[i].1 == spread(spans@, n as int)[i].1 && chars@[i].1 < spans@.len(),
        decreases spans@.len() - n,
    {
        let ghost before = chars@;
        let text = spans[n].text.as_str();
        for ch in it: text.chars()
            invariant
                n < spans@.len(),
                it.seq() == spans@[n as int].text@,
                chars@.len() == before.len() + it.index(),
                forall|i: int| 0 <= i < before.len() ==> #[trigger] chars@[i] == before[i],
                forall|i: int|
                    before.len() <= i < chars@.len() ==> #[trigger] chars@[i] == (
                        it.seq()[i - before.len()],
                        n,
                    ),
        {
            chars.push((ch, n));
        }
        n = n + 1;
    }
    chars
}

fn merge_chars(chars: &Vec<(char, u32)>, from: usize, to: usize) -> (pieces: Vec<StyledText>)
    requires
        from <= to <= chars@.len(),
    ensures
        piece_chars(pieces@) == chars@.subrange(from as int, to as int),
        merged(pieces@),
{
    let mut pieces: Vec<StyledText> = Vec::new();
    let mut i: usize = from;
    assert(chars@.subrange(from as int, from as int) =~= Seq::<(char, u32)>::empty());
    while i < to
        invariant
            from <= i <= to <= chars@.len(),
            piece_chars(pieces@) == chars@.subrange(from as int, i as int),
            merged(pieces@),
            pieces@.len() > 0 && i < to ==> pieces@.last().style != chars@[i as int].1,
        decreases to - i,
    {
        let start: usize = i;
        let style: u32 = chars[i].1;
        let mut text = String::new();
        while i < to && chars[i].1 == style
            invariant
                from <= start <= i <= to <= chars@.len(),
                start < to,
                chars@[start as int].1 == style,
                text@.len() == i - start,
                forall|j: int|
                    start <= j < i ==> #[trigger] chars@[j] == (text@[j - start], style),
            decreases to - i,
        {
            text.push(chars[i].0);
            i = i + 1;
        }
        let ghost before = pieces@;
        let ghost added = text@;
        pieces.push(StyledText { text, style });
        proof {
            assert(pieces@.drop_last() =~= before);
            assert(i > start);
            assert(chars@.subrange(from as int, i as int) =~= chars@.subrange(
                from as int,
                start as int,
            ) + added.map_values(|c: char| (c, style)));
        }
    }
    pieces
}

/// A glyph is neither wider nor narrower than can be added up.
pub open spec fn moderate_glyph(glyph: GlyphWidth) -> bool {
    &&& -0x1000_0000_0000_0000 <= glyph.advance <= 0x1000_0000_0000_0000
    &&& -0x1000_0000_0000_0000 <= glyph.bold_offset <= 0x1000_0000_0000_0000
}

/// How far a character takes the text. `object` says whether the replacement character
/// stands for an object.
pub fn char_advance(ch: char, object: bool, bold: bool, glyph: GlyphWidth) -> (width: i64)
    requires
        moderate_glyph(glyph),
    ensures
        width == char_width(ch, object, bold, glyph),
{
    if ch == '\u{fffc}' && object {
        inline_object_advance(bold)
    } else if bold {
        glyph.advance + glyph.bold_offset
    } else {
        glyph.advance
    }
}

/// Each glyph is moderate.
pub open spec fn moderate_glyphs(glyphs: Seq<GlyphWidth>) -> bool {
    forall|i: int| 0 <= i < glyphs.len() ==> moderate_glyph(#[trigger] glyphs[i])
}

fn display_input(spans: &Vec<DisplaySpan>, glyphs: &Vec<GlyphWidth>) -> (input: (
    Vec<(char, i64)>,
    Vec<(char, u32)>,
))
    requires
        glyphs@.len() == display_chars(spans@).len(),
        moderate_glyphs(glyphs@),
    ensures
        input.0@ == display_steps(spans@, glyphs@),
        input.1@ == styled_chars(spans@),
{
    let ghost want = display_steps(spans@, glyphs@);
    let ghost whole = styled_chars(spans@);
    let list = spread_spans(spans);
    let mut steps: Vec<(char, i64)> = Vec::new();
    let mut chars: Vec<(char, u32)> = Vec::new();
    let mut i: usize = 0;
    while i < list.len()
        invariant
            i <= list@.len(),
            list@.len() == display_chars(spans@).len() == glyphs@.len(),
            forall|i: int|
                0 <= i < list@.len() ==> (#[trigger] list@[i]).0 == display_chars(spans@)[i].0
                    && list@[i].1 == display_chars(spans@)[i].1 && list@[i].1 < spans@.len(),
            moderate_glyphs(glyphs@),
            want == display_steps(spans@, glyphs@),
            whole == styled_chars(spans@),
            steps@ == want.take(i as int),
            chars@ == whole.take(i as int),
        decreases list@.len() - i,
    {
        let (ch, n): (char, usize) = list[i];
        let glyph = glyphs[i];
        assert(list@[i as int].1 == n);
        let width: i64 = char_advance(ch, spans[n].object, spans[n].bold, glyph);
        steps.push((ch, width));
        chars.push((ch, spans[n].style));
        i = i + 1;
        assert(steps@ =~= want.take(i as int));
        assert(chars@ =~= whole.take(i as int));
    }
    assert(steps@ =~= want);
    assert(chars@ =~= whole);
    (steps, chars)
}

/// Each line ends, and the next one begins, where the breaker says; after the last no
/// characters are left.
pub open spec fn broken_by<F: Fn(&Vec<(char, i64)>, usize, i64) -> Option<(usize, usize)>>(
    lines: Seq<DisplayLine>,
    find: F,
    steps: Seq<(char, i64)>,
    limit: i64,
) -> bool {
    &&& forall|k: int, n: int|
        0 <= k && n == k + 1 && n < lines.len() ==> breaks_at(
            find,
            steps,
            limit,
            (#[trigger] lines[k]).start,
            lines[k].end as int,
            (#[trigger] lines[n]).start as int,
        )
    &&& lines.len() > 0 ==> exists|next: int|
        next >= steps.len() && #[trigger] breaks_at(
            find,
            steps,
            limit,
            lines.last().start,
            lines.last().end as int,
            next,
        )
}

fn break_lines<F: Fn(&Vec<(char, i64)>, usize, i64) -> Option<(usize, usize)>>(
    steps: &Vec<(char, i64)>,
    chars: &Vec<(char, u32)>,
    limit: i64,
    find: F,
) -> (lines: Vec<DisplayLine>)
    requires
        steps@.len() == chars@.len(),
        moves_on(find, steps@, limit),
    ensures
        in_order(lines@, chars@),
        broken_by(lines@, find, steps@, limit),
{
    let mut lines: Vec<DisplayLine> = Vec::new();
    let mut start: usize = 0;
    while start < chars.len()
        invariant
            steps@.len() == chars@.len(),
            moves_on(find, steps@, limit),
            lines@.len() == 0 ==> start == 0,
            lines@.len() > 0 ==> chars@.len() > 0 && lines@[0].start == 0 && lines@.last().end
                <= start && lines@.last().start < start && breaks_at(
                find,
                steps@,
                limit,
                lines@.last().start,
                lines@.last().end as int,
                start as int,
            ),
            forall|k: int| 0 <= k < lines@.len() ==> shows_line(#[trigger] lines@[k], chars@),
            forall|k: int, n: int|
                0 <= k && n == k + 1 && n < lines@.len() ==> (#[trigger] lines@[k]).end <= (
                #[trigger] lines@[n]).start && lines@[k].start < lines@[n].start,
            forall|k: int, n: int|
                0 <= k && n == k + 1 && n < lines@.len() ==> breaks_at(
                    find,
                    steps@,
                    limit,
                    (#[trigger] lines@[k]).start,
                    lines@[k].end as int,
                    (#[trigger] lines@[n]).start as int,
                ),
        decreases
            (if start < chars@.len() {
                chars@.len() - start
            } else {
                0
            }),
    {
        let found = find(steps, start, limit);
        let (end, next): (usize, usize) = match found {
            Some(found) => found,
            None => (chars.len(), chars.len()),
        };
        assert(breaks_at(find, steps@, limit, start, end as int, next as int));
        let pieces = merge_chars(chars, start, end);
        lines.push(DisplayLine { start, end, pieces });
        start = next;
    }
    lines
}

/// Splits a display's spans into lines. `glyphs` gives the width of each character's
/// glyph; `find` says, given the characters, how far each takes the text, a line's first
/// character and the width to break at, where the line ends and where the next one begins.
pub fn split_text_display_lines<
    F: Fn(&Vec<(char, i64)>, usize, i64) -> Option<(usize, usize)>,
>(spans: &Vec<DisplaySpan>, glyphs: &Vec<GlyphWidth>, max_width: i64, find: F) -> (lines: Vec<
    DisplayLine,
>)
    requires
        glyphs@.len() == display_chars(spans@).len(),
        moderate_glyphs(glyphs@),
        moves_on(find, display_steps(spans@, glyphs@), line_limit(max_width)),
    ensures
        lines@.len() == 0 <==> forall|i: int|
            0 <= i < spans@.len() ==> (#[trigger] spans@[i]).text@.len() == 0,
        in_order(lines@, styled_chars(spans@)),
        woven(lines@, styled_chars(spans@), lines@.len() as int) == styled_chars(spans@),
        broken_by(lines@, find, display_steps(spans@, glyphs@), line_limit(max_width)),
{
    let (steps, chars): (Vec<(char, i64)>, Vec<(char, u32)>) = display_input(spans, glyphs);
    let limit: i64 = if max_width < PIXEL {
        PIXEL
    } else {
        max_width
    };
    let lines = break_lines(&steps, &chars, limit, find);
    proof {
        lemma_spread_empty(spans@, spans@.len() as int);
        law_display_lines_keep_the_text(lines@, styled_chars(spans@));
    }
    lines
}

/// A line feed always breaks the line. The object replacement character shows the object
/// of its span, or what is missing of it; obfuscation changes every other character but
/// the space.
pub proof fn law_glyphs_are_chosen_by_their_character(
    ch: char,
    object: Option<InlineObject>,
    obfuscated: bool,
)
    ensures
        ({
            let kind = kind_of(ch, object, obfuscated);
            let stands = ch as int == 0xfffc && object is Some;
            &&& kind is Newline <==> ch as int == 10
            &&& kind is Object || kind is Missing <==> stands
            &&& kind is Missing ==> object == Some(InlineObject::AtlasSprite { known_atlas: false })
            &&& kind is Object ==> object != Some(InlineObject::AtlasSprite { known_atlas: false })
            &&& kind is Random <==> obfuscated && ch as int != 10 && ch as int != 32 && !stands
        }),
{
}

/// Text takes the fewest whole pixels that hold it.
pub proof fn law_widths_are_rounded_up(advance: int, scale: FontScale)
    requires
        scale.den > 0,
    ensures
        (shown(advance, scale) - 1) * scale.den < advance * scale.num <= shown(advance, scale)
            * scale.den,
{
    let top = advance * scale.num + scale.den - 1;
    let q = top / (scale.den as int);
    vstd::arithmetic::div_mod::lemma_fundamental_div_mod(top, scale.den as int);
    vstd::arithmetic::div_mod::lemma_mod_bound(top, scale.den as int);
    assert(scale.den * q == q * scale.den && (q - 1) * scale.den == q * scale.den - scale.den)
        by (nonlinear_arith);
}

/// Advances add up, and in a run of words each but the first has a space before it.
pub proof fn law_advances_add_up(advances: Seq<i64>, n: int, space: int, from: int, to: int)
    requires
        0 <= n < advances.len(),
        0 <= from < to < advances.len(),
    ensures
        advance_sum(advances, 0) == 0,
        advance_sum(advances, n + 1) - advance_sum(advances, n) == advances[n],
        run_advance(advances, space, from, from + 1) == advances[from],
        run_advance(advances, space, from, to + 1) - run_advance(advances, space, from, to) == space
            + advances[to],
{
    reveal_with_fuel(run_advance, 3);
}

/// The lines hold all words in order: the first begins with the first word, each next
/// where the one before it ends, and the last ends with the last. None is empty.
pub proof fn law_lines_hold_every_word(lines: Seq<WordLine>, end: int, k: int)
    requires
        lines_cover(lines, end),
        0 <= k < lines.len(),
    ensures
        lines[k].start < lines[k].end,
        k == 0 ==> lines[k].start == 0,
        k + 1 < lines.len() ==> lines[k + 1].start == lines[k].end,
        k + 1 == lines.len() ==> lines[k].end == end,
    decreases lines.len(),
{
    reveal_with_fuel(lines_cover, 2);
    let last = lines.last();
    if k + 1 < lines.len() {
        law_lines_hold_every_word(lines.drop_last(), last.start as int, k);
    }
}

/// A line takes every word that fits behind those it has, with a space between, and none
/// that does not; only its first word it takes in any case.
pub proof fn law_lines_take_what_fits(
    lines: Seq<WordLine>,
    words: Seq<i64>,
    space: int,
    scale: FontScale,
    limit: int,
    k: int,
    w: int,
)
    requires
        greedy(lines, words, space, scale, limit),
        0 <= k < lines.len(),
        lines[k].start < w < words.len(),
    ensures
        ({
            let start = lines[k].start as int;
            let width = shown(run_advance(words, space, start, w), scale) + shown(space, scale)
                + shown(words[w] as int, scale);
            &&& w < lines[k].end ==> width <= limit
            &&& w == lines[k].end ==> width > limit
        }),
{
    assert(tried_width(words, space, scale, lines[k].start as int, w) == shown(
        run_advance(words, space, lines[k].start as int, w),
        scale,
    ) + shown(space, scale) + shown(words[w] as int, scale));
}

/// An object is eight font pixels wide, any other character as wide as its glyph. Bold
/// makes an object a pixel wider, and a character by what its glyph says.
pub proof fn law_bold_characters_are_wider(ch: char, object: bool, glyph: GlyphWidth)
    ensures
        ({
            let stands = ch as int == 0xfffc && object;
            let plain = char_width(ch, object, false, glyph);
            let bold = char_width(ch, object, true, glyph);
            &&& plain == (if stands {
                2048
            } else {
                glyph.advance as int
            })
            &&& bold - plain == (if stands {
                256
            } else {
                glyph.bold_offset as int
            })
        }),
{
}

/// Lines are broken at the width asked for, but never at less than a font pixel.
pub proof fn law_lines_have_room(max_width: i64)
    ensures
        line_limit(max_width) >= 256,
        line_limit(max_width) >= max_width,
        line_limit(max_width) == 256 || line_limit(max_width) == max_width,
{
}

/// A display has the characters of its spans, span after span.
pub proof fn law_spans_follow_one_another(spans: Seq<DisplaySpan>, n: int, i: int)
    requires
        0 <= n < spans.len(),
    ensures
        display_chars(spans) == spread(spans, spans.len() as int),
        spread(spans, 0).len() == 0,
        ({
            let before = spread(spans, n);
            let after = spread(spans, n + 1);
            &&& after.len() == before.len() + spans[n].text@.len()
            &&& 0 <= i < before.len() ==> after[i] == before[i]
            &&& 0 <= i < spans[n].text@.len() ==> after[before.len() + i] == (
                spans[n].text@[i],
                n,
            )
        }),
{
}

/// Breaking lines sees every character with the width it has in its own span, and a line
/// shows it in that span's style.
pub proof fn law_characters_keep_their_span(
    spans: Seq<DisplaySpan>,
    glyphs: Seq<GlyphWidth>,
    i: int,
)
    requires
        0 <= i < display_chars(spans).len(),
        glyphs.len() == display_chars(spans).len(),
    ensures
        ({
            let (ch, at) = display_chars(spans)[i];
            let span = spans[at];
            let width = char_width(ch, span.object, span.bold, glyphs[i]);
            &&& display_steps(spans, glyphs).len() == display_chars(spans).len()
            &&& display_steps(spans, glyphs)[i].0 == ch
            &&& i64::MIN <= width <= i64::MAX ==> display_steps(spans, glyphs)[i].1 == width
            &&& styled_chars(spans).len() == display_chars(spans).len()
            &&& styled_chars(spans)[i] == (ch, span.style)
        }),
{
}

/// The shadow of a bar is the bar moved down and to the right by the same amount.
pub proof fn law_bars_keep_their_size_when_moved(rect: Bar, by: int)
    requires
        movable(rect),
        -0x1000_0000_0000_0000 <= by <= 0x1000_0000_0000_0000,
    ensures
        moved(rect, by).x0 == rect.x0 + by,
        moved(rect, by).y0 == rect.y0 + by,
        moved(rect, by).x1 - moved(rect, by).x0 == rect.x1 - rect.x0,
        moved(rect, by).y1 - moved(rect, by).y0 == rect.y1 - rect.y0,
{
}

/// Where a breaker can give but one answer for a line, the line ends there and the next
/// begins there, and only after the last line is the text used up.
pub proof fn law_lines_break_where_the_breaker_says<
    F: Fn(&Vec<(char, i64)>, usize, i64) -> Option<(usize, usize)>,
>(
    lines: Seq<DisplayLine>,
    find: F,
    steps: Seq<(char, i64)>,
    limit: i64,
    k: int,
    answer: Option<(usize, usize)>,
)
    requires
        broken_by(lines, find, steps, limit),
        0 <= k < lines.len(),
        forall|given: Vec<(char, i64)>, found: Option<(usize, usize)>|
            given@ == steps && #[trigger] call_ensures(
                find,
                (&given, lines[k].start, limit),
                found,
            ) ==> found == answer,
    ensures
        ({
            let (end, next) = match answer {
                Some((e, n)) => (e as int, n as int),
                None => (steps.len() as int, steps.len() as int),
            };
            &&& lines[k].end == end
            &&& k + 1 < lines.len() ==> lines[k + 1].start == next
            &&& k + 1 == lines.len() ==> next >= steps.len()
        }),
{
    let n = k + 1;
    if n < lines.len() {
        assert(breaks_at(
            find,
            steps,
            limit,
            lines[k].start,
            lines[k].end as int,
            lines[n].start as int,
        ));
    } else {
        let next = choose|next: int|
            next >= steps.len() && #[trigger] breaks_at(
                find,
                steps,
                limit,
                lines.last().start,
                lines.last().end as int,
                next,
            );
        assert(lines.last() == lines[k]);
    }
}

} // verus!
