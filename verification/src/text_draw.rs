//! Drawing styled text: from characters to the quads of their glyphs, of objects among
//! them, and of underlines.
use vstd::prelude::*;
use vstd::string::*;

use crate::glyph_quads::GlyphShape;
use crate::mc_text::glyph_kind;
use crate::mc_text::inline_object_advance;
use crate::mc_text::layout_text;
use crate::mc_text::push_mc_effect;
use crate::mc_text::Color;
use crate::mc_text::Fill;
use crate::mc_text::GlyphKind;
use crate::mc_text::GlyphPlace;
use crate::mc_text::InlineObject;
use crate::mc_text::McEffect;
use crate::mc_text::TextChar;
use crate::mc_text::PIXEL;
use crate::menu_elements::glyph_copies;
use crate::menu_elements::object_fallback;
use crate::menu_elements::DrawnObjects;
use crate::menu_elements::GlyphCopy;
use crate::menu_elements::Pictures;
use crate::menu_elements::Texture;
use crate::random::ObfuscationRng;
use crate::sprites::SpriteId;

verus! {

/// A glyph and how far it moves the next one on, in 256ths of a font pixel.
#[derive(Clone, Copy, Debug, PartialEq, Eq, Structural)]
pub struct Glyph {
    pub shape: GlyphShape,
    pub advance: i64,
}

/// The glyphs a font has for a character: one, or for an obfuscated one all of its
/// width.
pub enum Choice {
    Nothing,
    One(Glyph),
    Any(Vec<Glyph>),
}

/// An object in text, and the key of its picture.
pub struct TextObject {
    pub key: String,
    pub object: InlineObject,
}

/// The style of a span; `shadow_color` is that of the shadow it casts.
pub struct SpanStyle {
    pub color: Color,
    pub shadow_color: Option<Color>,
    pub bold: bool,
    pub italic: bool,
    pub underline: bool,
    pub strikethrough: bool,
    pub obfuscated: bool,
    pub object: Option<TextObject>,
}

impl SpanStyle {
    /// The object that stands for the replacement character.
    pub open spec fn inline_object(self) -> Option<InlineObject> {
        match self.object {
            Some(o) => Some(o.object),
            None => None,
        }
    }
}

/// A character, its span, and its glyphs.
pub struct TextUnit {
    pub span: usize,
    pub ch: char,
    pub choice: Choice,
}

/// A text to draw, its lines `line_step` 256ths of a font pixel apart.
pub struct TextRun {
    pub spans: Vec<SpanStyle>,
    pub units: Vec<TextUnit>,
    pub line_step: i64,
}

/// A glyph that can be placed.
pub open spec fn glyph_ok(g: Glyph) -> bool {
    g.shape.wf() && -0x8000_0000 <= g.advance <= 0x8000_0000
}

impl TextRun {
    /// The span of a unit.
    pub open spec fn style(self, i: int) -> SpanStyle {
        self.spans@[self.units@[i].span as int]
    }

    /// What is drawn for a unit.
    pub open spec fn kind(self, i: int) -> GlyphKind {
        crate::mc_text::kind_of(
            self.units@[i].ch,
            self.style(i).inline_object(),
            self.style(i).obfuscated,
        )
    }

    /// The glyphs of a unit suit what is drawn for it.
    pub open spec fn unit_ok(self, i: int) -> bool {
        &&& self.units@[i].span < self.spans@.len()
        &&& match self.kind(i) {
            GlyphKind::Newline => true,
            GlyphKind::Object => true,
            GlyphKind::Random => self.units@[i].choice matches Choice::Any(list) && 0 < list@.len()
                <= i32::MAX && (forall|k: int| 0 <= k < list@.len() ==> glyph_ok(#[trigger] list@[k])),
            _ => self.units@[i].choice matches Choice::One(g) && glyph_ok(g),
        }
    }

    pub open spec fn wf(self) -> bool {
        &&& self.units@.len() <= 0x1000_0000
        &&& 0 <= self.line_step <= 0x1_0000_0000
        &&& forall|i: int| 0 <= i < self.units@.len() ==> #[trigger] self.unit_ok(i)
    }

    /// The line the unit `n` stands on.
    pub open spec fn line(self, n: int) -> int
        decreases n,
    {
        if n <= 0 {
            0
        } else {
            self.line(n - 1) + if self.kind(n - 1) == GlyphKind::Newline {
                1int
            } else {
                0
            }
        }
    }

    /// The glyph picked for a unit from the state of the generator, and the state
    /// afterwards. Past the second line nothing is picked.
    pub open spec fn pick(self, seed: int, i: int) -> (Option<Glyph>, int) {
        if self.line(i) >= 2 {
            (None, seed)
        } else {
            match self.kind(i) {
                GlyphKind::Newline => (None, seed),
                GlyphKind::Object => (None, seed),
                GlyphKind::Random => {
                    let list = self.units@[i].choice->Any_0@;
                    let drawn = crate::random::bounded(seed, list.len() as int);
                    (Some(list[drawn.0]), drawn.1)
                },
                _ => (Some(self.units@[i].choice->One_0), seed),
            }
        }
    }

    /// The glyphs picked for the first `n` units, and the state afterwards.
    pub open spec fn picks(self, seed: int, n: int) -> (Seq<Option<Glyph>>, int)
        decreases n,
    {
        if n <= 0 {
            (Seq::empty(), seed)
        } else {
            let before = self.picks(seed, n - 1);
            let last = self.pick(before.1, n - 1);
            (before.0.push(last.0), last.1)
        }
    }

    /// How far a unit moves the next one on.
    pub open spec fn advance(self, picked: Option<Glyph>, i: int) -> int {
        match picked {
            Some(g) => g.advance + if self.style(i).bold {
                g.shape.bold_offset as int
            } else {
                0
            },
            None => if self.kind(i) == GlyphKind::Object {
                256 * (8 + if self.style(i).bold {
                    1int
                } else {
                    0
                })
            } else {
                0
            },
        }
    }

    /// A unit as layout sees it.
    pub open spec fn text_char(self, picked: Option<Glyph>, i: int) -> TextChar {
        TextChar {
            span: self.units@[i].span,
            kind: self.kind(i),
            advance: self.advance(picked, i) as i64,
            strikethrough: self.style(i).strikethrough,
            underline: self.style(i).underline,
            color: self.style(i).color,
            shadow_color: self.style(i).shadow_color,
        }
    }

    /// The units as layout sees them.
    pub open spec fn text_chars(self, picked: Seq<Option<Glyph>>) -> Seq<TextChar> {
        Seq::new(self.units@.len(), |i: int| self.text_char(picked[i], i))
    }

    /// The layout of the whole text.
    pub open spec fn laid_out(self, seed: int) -> crate::mc_text::TextState {
        let n = self.units@.len() as int;
        crate::mc_text::layout(self.text_chars(self.picks(seed, n).0), self.line_step as int, n)
    }
}

/// A quad of text. Places are in 256ths of a font pixel from the text's origin.
#[derive(Clone, Copy, Debug, PartialEq, Eq, Structural)]
pub enum TextQuad {
    /// A copy of the glyph picked for a unit.
    Glyph { index: usize, shape: GlyphShape, x: i64, y: i64, copy: GlyphCopy },
    /// An object's picture, or its shadow.
    Object { index: usize, x: i64, y: i64, shadow: bool, texture: Texture },
    Fill(Fill),
}

/// The picture under a key, or the sprite shown until it is loaded.
pub open spec fn picture_of(p: Pictures, key: Seq<char>, fallback: SpriteId) -> Option<Texture> {
    if p.dynamic@.dom().contains(key) {
        Some(Texture::Cell(p.dynamic@[key]))
    } else {
        match p.sprite(fallback) {
            Some(r) => Some(Texture::Sprite(r)),
            None => None,
        }
    }
}

/// The sprite an object falls back to.
pub open spec fn fallback_of(object: InlineObject) -> SpriteId {
    if object == InlineObject::Player {
        SpriteId::SteveHead
    } else {
        SpriteId::UnknownServer
    }
}

/// The quads of an object: its shadow, if the text casts one, then itself.
pub open spec fn object_quads(
    o: TextObject,
    place: GlyphPlace,
    shadow: bool,
    p: Pictures,
) -> Seq<TextQuad> {
    match picture_of(p, o.key@, fallback_of(o.object)) {
        None => Seq::empty(),
        Some(texture) => {
            let own = TextQuad::Object {
                index: place.index,
                x: place.x,
                y: place.y,
                shadow: false,
                texture,
            };
            if shadow {
                seq![
                    TextQuad::Object {
                        index: place.index,
                        x: place.x,
                        y: place.y,
                        shadow: true,
                        texture,
                    },
                    own,
                ]
            } else {
                seq![own]
            }
        },
    }
}

/// The quads at a place.
pub open spec fn place_quads(
    run: TextRun,
    picked: Seq<Option<Glyph>>,
    place: GlyphPlace,
    p: Pictures,
) -> Seq<TextQuad> {
    let i = place.index as int;
    let style = run.style(i);
    if run.kind(i) == GlyphKind::Object {
        object_quads(style.object->0, place, style.shadow_color is Some, p)
    } else {
        match picked[i] {
            Some(g) => crate::menu_elements::copies_of(
                g.shape.w,
                g.shape.h,
                style.shadow_color is Some,
                style.bold,
            ).map_values(
                |copy: GlyphCopy|
                    TextQuad::Glyph {
                        index: place.index,
                        shape: g.shape,
                        x: place.x,
                        y: place.y,
                        copy,
                    },
            ),
            None => Seq::empty(),
        }
    }
}

/// The quads of the first `n` places.
pub open spec fn places_quads(
    run: TextRun,
    picked: Seq<Option<Glyph>>,
    places: Seq<GlyphPlace>,
    p: Pictures,
    n: int,
) -> Seq<TextQuad>
    decreases n,
{
    if n <= 0 {
        Seq::empty()
    } else {
        places_quads(run, picked, places, p, n - 1) + place_quads(run, picked, places[n - 1], p)
    }
}

/// What an effect fills.
pub open spec fn effect_fills(effect: McEffect) -> Seq<TextQuad> {
    if effect.rect.x1 <= effect.rect.x0 || effect.rect.y1 <= effect.rect.y0 {
        Seq::empty()
    } else {
        let own = TextQuad::Fill(Fill { rect: effect.rect, color: effect.color });
        match effect.shadow_color {
            Some(color) => seq![
                TextQuad::Fill(Fill { rect: crate::mc_text::moved(effect.rect, 256), color }),
                own,
            ],
            None => seq![own],
        }
    }
}

/// What the first `n` effects fill.
pub open spec fn effects_fills(effects: Seq<McEffect>, n: int) -> Seq<TextQuad>
    decreases n,
{
    if n <= 0 {
        Seq::empty()
    } else {
        effects_fills(effects, n - 1) + effect_fills(effects[n - 1])
    }
}

/// The quads of a text: glyphs and objects, then what is struck through, then what is
/// underlined.
pub open spec fn run_quads(run: TextRun, seed: int, p: Pictures) -> Seq<TextQuad> {
    let out = run.laid_out(seed);
    let picked = run.picks(seed, run.units@.len() as int).0;
    places_quads(run, picked, out.glyphs, p, out.glyphs.len() as int) + effects_fills(
        out.strikethroughs,
        out.strikethroughs.len() as int,
    ) + effects_fills(out.underlines, out.underlines.len() as int)
}

/// The objects drawn so far, with those at the first `n` places; the first one under a
/// key is kept.
pub open spec fn objects_drawn(
    drawn: Map<Seq<char>, InlineObject>,
    run: TextRun,
    places: Seq<GlyphPlace>,
    n: int,
) -> Map<Seq<char>, InlineObject>
    decreases n,
{
    if n <= 0 {
        drawn
    } else {
        let before = objects_drawn(drawn, run, places, n - 1);
        let i = places[n - 1].index as int;
        if run.kind(i) == GlyphKind::Object {
            let o = run.style(i).object->0;
            if before.dom().contains(o.key@) {
                before
            } else {
                before.insert(o.key@, o.object)
            }
        } else {
            before
        }
    }
}

/// The objects drawn after a text.
pub open spec fn run_objects(
    drawn: Map<Seq<char>, InlineObject>,
    run: TextRun,
    seed: int,
) -> Map<Seq<char>, InlineObject> {
    let places = run.laid_out(seed).glyphs;
    objects_drawn(drawn, run, places, places.len() as int)
}

/// What is drawn for a unit.
fn kind_at(run: &TextRun, i: usize) -> (kind: GlyphKind)
    requires
        i < run.units@.len(),
        run.unit_ok(i as int),
    ensures
        kind == run.kind(i as int),
{
    let unit = &run.units[i];
    let style = &run.spans[unit.span];
    let object = match &style.object {
        Some(o) => Some(o.object),
        None => None,
    };
    glyph_kind(unit.ch, object, style.obfuscated)
}

/// Picks a glyph for each unit that is drawn.
fn pick_glyphs(run: &TextRun, rng: &mut ObfuscationRng) -> (picked: Vec<Option<Glyph>>)
    requires
        run.wf(),
        old(rng).wf(),
    ensures
        final(rng).wf(),
        picked@.len() == run.units@.len(),
        picked@ == run.picks(old(rng).seed as int, run.units@.len() as int).0,
        final(rng).seed == run.picks(old(rng).seed as int, run.units@.len() as int).1,
        forall|i: int|
            0 <= i < picked@.len() ==> (#[trigger] picked@[i] matches Some(g) ==> glyph_ok(g)),
{
    let ghost seed = rng.seed as int;
    let mut picked: Vec<Option<Glyph>> = Vec::new();
    let mut line: u32 = 0;
    let mut i: usize = 0;
    while i < run.units.len()
        invariant
            i <= run.units@.len(),
            run.wf(),
            rng.wf(),
            line <= i <= 0x1000_0000,
            line == run.line(i as int),
            picked@ == run.picks(seed, i as int).0,
            picked@.len() == i,
            rng.seed == run.picks(seed, i as int).1,
            forall|k: int|
                0 <= k < picked@.len() ==> (#[trigger] picked@[k] matches Some(g) ==> glyph_ok(g)),
        decreases run.units@.len() - i,
    {
        assert(run.unit_ok(i as int));
        let kind = kind_at(run, i);
        let glyph: Option<Glyph> = if line >= 2 {
            None
        } else {
            match kind {
                GlyphKind::Newline | GlyphKind::Object => None,
                GlyphKind::Random => match &run.units[i].choice {
                    Choice::Any(list) => {
                        let k: usize = rng.next_int(list.len());
                        Some(list[k])
                    },
                    _ => None,
                },
                _ => match &run.units[i].choice {
                    Choice::One(g) => Some(*g),
                    _ => None,
                },
            }
        };
        picked.push(glyph);
        match kind {
            GlyphKind::Newline => {
                line = line + 1;
            },
            _ => {},
        }
        i = i + 1;
    }
    picked
}

/// The units as layout sees them.
fn chars_of(run: &TextRun, picked: &Vec<Option<Glyph>>) -> (chars: Vec<TextChar>)
    requires
        run.wf(),
        picked@.len() == run.units@.len(),
        forall|i: int|
            0 <= i < picked@.len() ==> (#[trigger] picked@[i] matches Some(g) ==> glyph_ok(g)),
    ensures
        chars@ == run.text_chars(picked@),
        crate::mc_text::advances_ok(chars@),
{
    let mut chars: Vec<TextChar> = Vec::new();
    let mut i: usize = 0;
    while i < run.units.len()
        invariant
            i <= run.units@.len(),
            run.wf(),
            picked@.len() == run.units@.len(),
            forall|k: int|
                0 <= k < picked@.len() ==> (#[trigger] picked@[k] matches Some(g) ==> glyph_ok(g)),
            chars@ =~= run.text_chars(picked@).take(i as int),
            forall|k: int|
                0 <= k < chars@.len() ==> -0x1_0000_0000 <= (#[trigger] chars@[k]).advance
                    <= 0x1_0000_0000,
        decreases run.units@.len() - i,
    {
        assert(run.unit_ok(i as int));
        let kind = kind_at(run, i);
        let style = &run.spans[run.units[i].span];
        let advance: i64 = match picked[i] {
            Some(g) => {
                assert(picked@[i as int] == Some(g));
                assert(glyph_ok(g));
                g.advance + if style.bold {
                    g.shape.bold_offset
                } else {
                    0
                }
            },
            None => match kind {
                GlyphKind::Object => inline_object_advance(style.bold),
                _ => 0,
            },
        };
        chars.push(
            TextChar {
                span: run.units[i].span,
                kind,
                advance,
                strikethrough: style.strikethrough,
                underline: style.underline,
                color: style.color,
                shadow_color: style.shadow_color,
            },
        );
        assert(run.text_chars(picked@)[i as int] == run.text_char(picked@[i as int], i as int));
        i = i + 1;
    }
    assert(chars@ =~= run.text_chars(picked@));
    chars
}

/// The picture under a key, or its sprite.
fn find_picture(p: &Pictures, key: &str, fallback: SpriteId) -> (texture: Option<Texture>)
    requires
        p.wf(),
    ensures
        texture == picture_of(*p, key@, fallback),
{
    match p.dynamic.get(key) {
        Some(cell) => Some(Texture::Cell(*cell)),
        None => match p.sprites.region(fallback) {
            Some(r) => Some(Texture::Sprite(r)),
            None => None,
        },
    }
}

proof fn lemma_layout(chars: Seq<TextChar>, line_step: int, n: int)
    requires
        crate::mc_text::advances_ok(chars),
        0 <= line_step <= 0x1_0000_0000,
        0 <= n <= chars.len(),
    ensures
        ({
            let s = crate::mc_text::layout(chars, line_step, n);
            &&& -0x1_0000_0000 * n <= s.x <= 0x1_0000_0000 * n
            &&& 0 <= s.line <= 2
            &&& s.line == 2 ==> s.stopped
            &&& forall|g: int| 0 <= g < s.glyphs.len() ==> (#[trigger] s.glyphs[g]).index < n
            &&& forall|e: int|
                0 <= e < s.strikethroughs.len() ==> crate::mc_text::movable(
                    (#[trigger] s.strikethroughs[e]).rect,
                )
            &&& forall|e: int|
                0 <= e < s.underlines.len() ==> crate::mc_text::movable(
                    (#[trigger] s.underlines[e]).rect,
                )
        }),
    decreases n,
{
    if n > 0 {
        lemma_layout(chars, line_step, n - 1);
        let s = crate::mc_text::layout(chars, line_step, n - 1);
        assert(-0x1_0000_0000 <= chars[n - 1].advance <= 0x1_0000_0000);
        assert(0 <= s.line * line_step <= 0x2_0000_0000) by (nonlinear_arith)
            requires
                0 <= s.line <= 2,
                0 <= line_step <= 0x1_0000_0000,
        ;
    }
}

/// Adds the quads at a place.
fn push_place(
    run: &TextRun,
    picked: &Vec<Option<Glyph>>,
    place: GlyphPlace,
    p: &Pictures,
    quads: &mut Vec<TextQuad>,
)
    requires
        run.wf(),
        p.wf(),
        picked@.len() == run.units@.len(),
        place.index < run.units@.len(),
    ensures
        final(quads)@ == old(quads)@ + place_quads(*run, picked@, place, *p),
{
    let i: usize = place.index;
    assert(run.unit_ok(i as int));
    let ghost before = quads@;
    let style = &run.spans[run.units[i].span];
    let shadow = style.shadow_color.is_some();
    match kind_at(run, i) {
        GlyphKind::Object => {
            if let Some(o) = &style.object {
                let found = find_picture(p, o.key.as_str(), object_fallback(o.object));
                if let Some(texture) = found {
                    if shadow {
                        quads.push(
                            TextQuad::Object {
                                index: i,
                                x: place.x,
                                y: place.y,
                                shadow: true,
                                texture,
                            },
                        );
                    }
                    quads.push(
                        TextQuad::Object { index: i, x: place.x, y: place.y, shadow: false, texture },
                    );
                }
            }
            assert(quads@ =~= before + place_quads(*run, picked@, place, *p));
        },
        _ => {
            if let Some(g) = picked[i] {
                let copies = glyph_copies(g.shape.w, g.shape.h, shadow, style.bold);
                let ghost want = place_quads(*run, picked@, place, *p);
                let mut k: usize = 0;
                while k < copies.len()
                    invariant
                        k <= copies@.len(),
                        i == place.index,
                        want == copies@.map_values(
                            |copy: GlyphCopy|
                                TextQuad::Glyph {
                                    index: place.index,
                                    shape: g.shape,
                                    x: place.x,
                                    y: place.y,
                                    copy,
                                },
                        ),
                        quads@ =~= before + want.take(k as int),
                    decreases copies@.len() - k,
                {
                    quads.push(
                        TextQuad::Glyph {
                            index: i,
                            shape: g.shape,
                            x: place.x,
                            y: place.y,
                            copy: copies[k],
                        },
                    );
                    assert(want.take(k + 1) =~= want.take(k as int).push(want[k as int]));
                    k = k + 1;
                }
                assert(want.take(copies@.len() as int) =~= want);
            } else {
                assert(quads@ =~= before + place_quads(*run, picked@, place, *p));
            }
        },
    }
}

/// Adds what a list of effects fills.
fn push_effects(effects: &Vec<McEffect>, quads: &mut Vec<TextQuad>)
    requires
        forall|e: int|
            0 <= e < effects@.len() ==> crate::mc_text::movable((#[trigger] effects@[e]).rect),
    ensures
        final(quads)@ == old(quads)@ + effects_fills(effects@, effects@.len() as int),
{
    let ghost before = quads@;
    let mut e: usize = 0;
    assert(before + effects_fills(effects@, 0) =~= before);
    while e < effects.len()
        invariant
            e <= effects@.len(),
            forall|e: int|
                0 <= e < effects@.len() ==> crate::mc_text::movable((#[trigger] effects@[e]).rect),
            quads@ == before + effects_fills(effects@, e as int),
        decreases effects@.len() - e,
    {
        let effect = effects[e];
        let fills = push_mc_effect(&effect, PIXEL);
        let ghost start = quads@;
        let mut k: usize = 0;
        while k < fills.len()
            invariant
                k <= fills@.len(),
                quads@ =~= start + fills@.take(k as int).map_values(
                    |fill: Fill| TextQuad::Fill(fill),
                ),
            decreases fills@.len() - k,
        {
            quads.push(TextQuad::Fill(fills[k]));
            assert(fills@.take(k + 1) =~= fills@.take(k as int).push(fills@[k as int]));
            k = k + 1;
        }
        proof {
            assert(fills@.take(fills@.len() as int) =~= fills@);
            assert(fills@.map_values(|fill: Fill| TextQuad::Fill(fill)) =~= effect_fills(effect));
            assert(quads@ =~= before + effects_fills(effects@, e + 1));
        }
        e = e + 1;
    }
}

/// Draws a text: returns its quads in order, and takes note of the objects in it.
/// Obfuscated characters draw their glyphs from `rng`.
pub fn push_mc_text(
    run: &TextRun,
    pictures: &Pictures,
    rng: &mut ObfuscationRng,
    drawn: &mut DrawnObjects,
) -> (quads: Vec<TextQuad>)
    requires
        run.wf(),
        pictures.wf(),
        old(rng).wf(),
        old(drawn).wf(),
    ensures
        final(rng).wf(),
        final(drawn).wf(),
        quads@ == run_quads(*run, old(rng).seed as int, *pictures),
        final(rng).seed == run.picks(old(rng).seed as int, run.units@.len() as int).1,
        final(drawn).objects@ == run_objects(
            old(drawn).objects@,
            *run,
            old(rng).seed as int,
        ),
{
    let picked = pick_glyphs(run, rng);
    let chars = chars_of(run, &picked);
    let out = layout_text(&chars, run.line_step);
    proof {
        lemma_layout(chars@, run.line_step as int, chars@.len() as int);
    }
    let ghost places = out.glyphs@;
    let ghost first = drawn.objects@;
    let mut quads: Vec<TextQuad> = Vec::new();
    let mut g: usize = 0;
    while g < out.glyphs.len()
        invariant
            g <= out.glyphs@.len(),
            run.wf(),
            pictures.wf(),
            drawn.wf(),
            picked@.len() == run.units@.len(),
            places == out.glyphs@,
            forall|g: int| 0 <= g < places.len() ==> (#[trigger] places[g]).index < run.units@.len(),
            quads@ == places_quads(*run, picked@, places, *pictures, g as int),
            drawn.objects@ == objects_drawn(first, *run, places, g as int),
        decreases out.glyphs@.len() - g,
    {
        let place = out.glyphs[g];
        assert(places[g as int].index < run.units@.len());
        assert(run.unit_ok(place.index as int));
        push_place(run, &picked, place, pictures, &mut quads);
        if let GlyphKind::Object = kind_at(run, place.index) {
            if let Some(o) = &run.spans[run.units[place.index].span].object {
                drawn.note_drawn(o.key.clone(), o.object);
            }
        }
        g = g + 1;
    }
    push_effects(&out.strikethroughs, &mut quads);
    push_effects(&out.underlines, &mut quads);
    quads
}

/// Only obfuscated text draws from the generator.
pub proof fn law_plain_text_draws_nothing(run: TextRun, seed: int, n: int)
    requires
        run.wf(),
        forall|i: int| 0 <= i < run.units@.len() ==> !(#[trigger] run.style(i)).obfuscated,
        0 <= n <= run.units@.len(),
    ensures
        run.picks(seed, n).1 == seed,
    decreases n,
{
    if n > 0 {
        law_plain_text_draws_nothing(run, seed, n - 1);
        assert(run.unit_ok(n - 1));
        assert(!run.style(n - 1).obfuscated);
    }
}

/// The newlines among the first `n` characters of a text.
pub open spec fn breaks_before(run: TextRun, n: int) -> int
    decreases n,
{
    if n <= 0 {
        0
    } else {
        breaks_before(run, n - 1) + (if run.units@[n - 1].ch == '\n' {
            1int
        } else {
            0
        })
    }
}

proof fn lemma_breaks_are_lines(run: TextRun, n: int)
    ensures
        breaks_before(run, n) == run.line(n),
    decreases n,
{
    if n > 0 {
        lemma_breaks_are_lines(run, n - 1);
    }
}

proof fn lemma_pick_of(run: TextRun, seed: int, n: int, i: int) -> (state: int)
    requires
        0 <= i < n,
    ensures
        run.picks(seed, n).0.len() == n,
        run.picks(seed, n).0[i] == run.pick(state, i).0,
    decreases n,
{
    lemma_picks_len(run, seed, n);
    lemma_picks_len(run, seed, n - 1);
    if i < n - 1 {
        lemma_pick_of(run, seed, n - 1, i)
    } else {
        run.picks(seed, n - 1).1
    }
}

proof fn lemma_picks_len(run: TextRun, seed: int, n: int)
    requires
        0 <= n,
    ensures
        run.picks(seed, n).0.len() == n,
    decreases n,
{
    if n > 0 {
        lemma_picks_len(run, seed, n - 1);
    }
}

/// Characters on the first two lines get their glyph: an obfuscated one, unless it is a
/// space, one of those of its width, an object with a picture none, and any other its own.
/// Newlines and what stands behind the second get none.
pub proof fn law_characters_get_their_glyph(run: TextRun, seed: int, i: int)
    requires
        run.wf(),
        0 <= i < run.units@.len(),
    ensures
        ({
            let picked = run.picks(seed, run.units@.len() as int).0[i];
            let unit = run.units@[i];
            let style = run.spans@[unit.span as int];
            let stands_in = unit.ch == '\u{fffc}' && style.object is Some;
            let has_picture = stands_in && style.object->0.object != (InlineObject::AtlasSprite {
                known_atlas: false,
            });
            if unit.ch == '\n' || breaks_before(run, i) >= 2 || has_picture {
                picked is None
            } else if style.obfuscated && unit.ch != ' ' && !stands_in {
                exists|k: int|
                    0 <= k < unit.choice->Any_0@.len() && picked == Some(
                        #[trigger] unit.choice->Any_0@[k],
                    )
            } else {
                picked == Some(unit.choice->One_0)
            }
        }),
{
    let n = run.units@.len() as int;
    let state = lemma_pick_of(run, seed, n, i);
    lemma_breaks_are_lines(run, i);
    assert(run.unit_ok(i));
    if run.kind(i) == GlyphKind::Random {
        let list = run.units@[i].choice->Any_0@;
        crate::random::lemma_bounded_in_range(state, list.len() as int);
        let k = crate::random::bounded(state, list.len() as int).0;
        assert(0 <= k < list.len());
    }
}

/// Layout sees each character with the style of its span: its newline, underline,
/// strikethrough and colours, and as far as its glyph goes, further if it is bold, or
/// eight font pixels, in bold nine, for an object.
pub proof fn law_layout_sees_the_style(run: TextRun, picked: Seq<Option<Glyph>>, i: int)
    requires
        run.wf(),
        picked.len() == run.units@.len(),
        0 <= i < run.units@.len(),
        picked[i] matches Some(g) ==> glyph_ok(g),
    ensures
        ({
            let c = run.text_chars(picked)[i];
            let unit = run.units@[i];
            let style = run.spans@[unit.span as int];
            let bold = |by: int|
                if style.bold {
                    by
                } else {
                    0
                };
            &&& run.text_chars(picked).len() == run.units@.len()
            &&& c.span == unit.span
            &&& c.kind == GlyphKind::Newline <==> unit.ch == '\n'
            &&& c.strikethrough == style.strikethrough
            &&& c.underline == style.underline
            &&& c.color == style.color
            &&& c.shadow_color == style.shadow_color
            &&& match picked[i] {
                Some(g) => c.advance == g.advance + bold(g.shape.bold_offset as int),
                None => unit.ch == '\u{fffc}' && style.object is Some && style.object->0.object != (
                InlineObject::AtlasSprite { known_atlas: false }) ==> c.advance == 8 * 256 + bold(
                    256,
                ),
            }
        }),
{
    assert(run.unit_ok(i));
}

/// The quads of a place, among those of all places.
proof fn lemma_place_quads_stand(
    run: TextRun,
    picked: Seq<Option<Glyph>>,
    places: Seq<GlyphPlace>,
    p: Pictures,
    n: int,
    g: int,
    j: int,
) -> (k: int)
    requires
        0 <= g < n <= places.len(),
        0 <= j < place_quads(run, picked, places[g], p).len(),
    ensures
        0 <= k < places_quads(run, picked, places, p, n).len(),
        places_quads(run, picked, places, p, n)[k] == place_quads(run, picked, places[g], p)[j],
    decreases n,
{
    let before = places_quads(run, picked, places, p, n - 1);
    if g < n - 1 {
        lemma_place_quads_stand(run, picked, places, p, n - 1, g, j)
    } else {
        before.len() + j
    }
}

proof fn lemma_place_of_quad(
    run: TextRun,
    picked: Seq<Option<Glyph>>,
    places: Seq<GlyphPlace>,
    p: Pictures,
    n: int,
    k: int,
) -> (at: (int, int))
    requires
        0 <= n <= places.len(),
        0 <= k < places_quads(run, picked, places, p, n).len(),
    ensures
        0 <= at.0 < n,
        0 <= at.1 < place_quads(run, picked, places[at.0], p).len(),
        places_quads(run, picked, places, p, n)[k] == place_quads(run, picked, places[at.0], p)[at.1],
    decreases n,
{
    let before = places_quads(run, picked, places, p, n - 1);
    if k < before.len() {
        lemma_place_of_quad(run, picked, places, p, n - 1, k)
    } else {
        (n - 1, k - before.len())
    }
}

/// A glyph with pixels is drawn at its place: itself, a second time for bold text, and
/// before that its shadow likewise if its span casts one.
pub proof fn law_every_glyph_is_drawn(
    run: TextRun,
    seed: int,
    p: Pictures,
    g: int,
    shadow: bool,
    bold: bool,
)
    requires
        0 <= g < run.laid_out(seed).glyphs.len(),
        ({
            let place = run.laid_out(seed).glyphs[g];
            let i = place.index as int;
            let picked = run.picks(seed, run.units@.len() as int).0[i];
            let unit = run.units@[i];
            let style = run.spans@[unit.span as int];
            &&& picked is Some && picked->0.shape.w > 0 && picked->0.shape.h > 0
            &&& unit.ch != '\u{fffc}' || style.object is None
            &&& shadow ==> style.shadow_color is Some
            &&& bold ==> style.bold
        }),
    ensures
        ({
            let place = run.laid_out(seed).glyphs[g];
            let shape = run.picks(
                seed,
                run.units@.len() as int,
            ).0[place.index as int]->0.shape;
            run_quads(run, seed, p).contains(
                TextQuad::Glyph {
                    index: place.index,
                    shape,
                    x: place.x,
                    y: place.y,
                    copy: GlyphCopy { shadow, bold },
                },
            )
        }),
{
    let out = run.laid_out(seed);
    let picked = run.picks(seed, run.units@.len() as int).0;
    let place = out.glyphs[g];
    let style = run.style(place.index as int);
    let shape = picked[place.index as int]->0.shape;
    let casts = style.shadow_color is Some;
    let copies = crate::menu_elements::copies_of(shape.w, shape.h, casts, style.bold);
    let copy = GlyphCopy { shadow, bold };
    crate::menu_elements::law_glyphs_are_copied(shape.w, shape.h, casts, style.bold, copy);
    let j = choose|j: int| 0 <= j < copies.len() && copies[j] == copy;
    let here = place_quads(run, picked, place, p);
    assert(here[j] == (TextQuad::Glyph {
        index: place.index,
        shape,
        x: place.x,
        y: place.y,
        copy,
    }));
    let k = lemma_place_quads_stand(
        run,
        picked,
        out.glyphs,
        p,
        out.glyphs.len() as int,
        g,
        j,
    );
    assert(run_quads(run, seed, p)[k] == here[j]);
}

/// An object in text is drawn at its place as its picture, or as the sprite that stands
/// in for it, the head of Steve for a player's, and its shadow too if the span casts one.
pub proof fn law_every_object_is_drawn(run: TextRun, seed: int, p: Pictures, g: int, shadow: bool)
    requires
        0 <= g < run.laid_out(seed).glyphs.len(),
        ({
            let i = run.laid_out(seed).glyphs[g].index as int;
            let unit = run.units@[i];
            let style = run.spans@[unit.span as int];
            &&& unit.ch == '\u{fffc}'
            &&& style.object is Some
            &&& style.object->0.object != (InlineObject::AtlasSprite { known_atlas: false })
            &&& shadow ==> style.shadow_color is Some
        }),
    ensures
        ({
            let place = run.laid_out(seed).glyphs[g];
            let object = run.spans@[run.units@[place.index as int].span as int].object->0;
            let sprite = p.sprite(
                if object.object == InlineObject::Player {
                    SpriteId::SteveHead
                } else {
                    SpriteId::UnknownServer
                },
            );
            let quad = |texture: Texture|
                TextQuad::Object { index: place.index, x: place.x, y: place.y, shadow, texture };
            if p.dynamic@.dom().contains(object.key@) {
                run_quads(run, seed, p).contains(quad(Texture::Cell(p.dynamic@[object.key@])))
            } else {
                sprite is Some ==> run_quads(run, seed, p).contains(
                    quad(Texture::Sprite(sprite->0)),
                )
            }
        }),
{
    let out = run.laid_out(seed);
    let picked = run.picks(seed, run.units@.len() as int).0;
    let place = out.glyphs[g];
    let object = run.style(place.index as int).object->0;
    let casts = run.style(place.index as int).shadow_color is Some;
    let here = place_quads(run, picked, place, p);
    let n = out.glyphs.len() as int;
    if here.len() > 0 {
        let j = if shadow || !casts {
            0int
        } else {
            1
        };
        let k = lemma_place_quads_stand(run, picked, out.glyphs, p, n, g, j);
        assert(run_quads(run, seed, p)[k] == here[j]);
    }
}

/// Each glyph and object that is drawn stands at the place of its character, and is bold
/// or a shadow only if its span is bold or casts one.
pub proof fn law_only_the_text_is_drawn(run: TextRun, seed: int, p: Pictures, k: int)
    requires
        0 <= k < run_quads(run, seed, p).len(),
    ensures
        ({
            let places = run.laid_out(seed).glyphs;
            let style = |i: usize| run.spans@[run.units@[i as int].span as int];
            match run_quads(run, seed, p)[k] {
                TextQuad::Glyph { index, shape, x, y, copy } => {
                    &&& places.contains(GlyphPlace { index, x, y })
                    &&& copy.bold ==> style(index).bold
                    &&& copy.shadow ==> style(index).shadow_color is Some
                    &&& run.picks(seed, run.units@.len() as int).0[index as int] matches Some(g)
                        && g.shape == shape
                },
                TextQuad::Object { index, x, y, shadow, .. } => {
                    &&& places.contains(GlyphPlace { index, x, y })
                    &&& shadow ==> style(index).shadow_color is Some
                    &&& style(index).object is Some
                },
                TextQuad::Fill(_) => true,
            }
        }),
{
    let out = run.laid_out(seed);
    let picked = run.picks(seed, run.units@.len() as int).0;
    let n = out.glyphs.len() as int;
    let placed = places_quads(run, picked, out.glyphs, p, n);
    let struck = effects_fills(out.strikethroughs, out.strikethroughs.len() as int);
    let lined = effects_fills(out.underlines, out.underlines.len() as int);
    lemma_fills_are_fills(out.strikethroughs, out.strikethroughs.len() as int);
    lemma_fills_are_fills(out.underlines, out.underlines.len() as int);
    if k < placed.len() {
        assert(run_quads(run, seed, p)[k] == placed[k]);
        let (g, j) = lemma_place_of_quad(run, picked, out.glyphs, p, n, k);
        let place = out.glyphs[g];
        assert(place == (GlyphPlace { index: place.index, x: place.x, y: place.y }));
        let style = run.style(place.index as int);
        if run.kind(place.index as int) != GlyphKind::Object {
            let shape = picked[place.index as int]->0.shape;
            let copies = crate::menu_elements::copies_of(
                shape.w,
                shape.h,
                style.shadow_color is Some,
                style.bold,
            );
            crate::menu_elements::law_glyphs_are_copied(
                shape.w,
                shape.h,
                style.shadow_color is Some,
                style.bold,
                copies[j],
            );
            assert(copies.contains(copies[j]));
        }
    } else if k < placed.len() + struck.len() {
        assert(run_quads(run, seed, p)[k] == struck[k - placed.len()]);
    } else {
        assert(run_quads(run, seed, p)[k] == lined[k - placed.len() - struck.len()]);
    }
}

proof fn lemma_fills_are_fills(effects: Seq<McEffect>, n: int)
    ensures
        forall|k: int|
            0 <= k < effects_fills(effects, n).len() ==> (#[trigger] effects_fills(
                effects,
                n,
            )[k]) is Fill,
    decreases n,
{
    if n > 0 {
        lemma_fills_are_fills(effects, n - 1);
        let before = effects_fills(effects, n - 1);
        let all = effects_fills(effects, n);
        assert forall|k: int| 0 <= k < all.len() implies (#[trigger] all[k]) is Fill by {
            if k < before.len() {
                assert(all[k] == before[k]);
            } else {
                assert(all[k] == effect_fills(effects[n - 1])[k - before.len()]);
            }
        }
    }
}

proof fn lemma_effect_fills_stand(effects: Seq<McEffect>, n: int, b: int, j: int) -> (k: int)
    requires
        0 <= b < n <= effects.len(),
        0 <= j < effect_fills(effects[b]).len(),
    ensures
        0 <= k < effects_fills(effects, n).len(),
        effects_fills(effects, n)[k] == effect_fills(effects[b])[j],
    decreases n,
{
    if b < n - 1 {
        lemma_effect_fills_stand(effects, n - 1, b, j)
    } else {
        effects_fills(effects, n - 1).len() + j
    }
}

/// Every bar of a text that has an area is filled in its colour, over the glyphs, and if
/// it casts a shadow that is filled too, in its own colour, a font pixel down and to the
/// right.
pub proof fn law_every_bar_is_filled(run: TextRun, seed: int, p: Pictures, under: bool, b: int)
    requires
        0 <= b < crate::mc_text::effects_of(run.laid_out(seed), under).len(),
        ({
            let bar = crate::mc_text::effects_of(run.laid_out(seed), under)[b];
            &&& bar.rect.x0 < bar.rect.x1 < i64::MAX - 256
            &&& bar.rect.y0 < bar.rect.y1 < i64::MAX - 256
        }),
    ensures
        ({
            let bar = crate::mc_text::effects_of(run.laid_out(seed), under)[b];
            let quads = run_quads(run, seed, p);
            &&& quads.contains(TextQuad::Fill(Fill { rect: bar.rect, color: bar.color }))
            &&& bar.shadow_color matches Some(color) ==> quads.contains(
                TextQuad::Fill(
                    Fill {
                        rect: crate::mc_text::Bar {
                            x0: (bar.rect.x0 + 256) as i64,
                            y0: (bar.rect.y0 + 256) as i64,
                            x1: (bar.rect.x1 + 256) as i64,
                            y1: (bar.rect.y1 + 256) as i64,
                        },
                        color,
                    },
                ),
            )
        }),
{
    let out = run.laid_out(seed);
    let bars = crate::mc_text::effects_of(out, under);
    let fills = effect_fills(bars[b]);
    let picked = run.picks(seed, run.units@.len() as int).0;
    let placed = places_quads(run, picked, out.glyphs, p, out.glyphs.len() as int).len();
    let struck = effects_fills(out.strikethroughs, out.strikethroughs.len() as int).len();
    let start = if under {
        placed + struck
    } else {
        placed
    };
    let own = lemma_effect_fills_stand(bars, bars.len() as int, b, fills.len() - 1);
    assert(run_quads(run, seed, p)[start + own] == fills.last());
    if bars[b].shadow_color is Some {
        let cast = lemma_effect_fills_stand(bars, bars.len() as int, b, 0);
        assert(run_quads(run, seed, p)[start + cast] == fills[0]);
    }
}

/// The objects a text shows are noted under their keys, and what was noted before stays.
pub proof fn law_shown_objects_are_noted(
    drawn: Map<Seq<char>, InlineObject>,
    run: TextRun,
    places: Seq<GlyphPlace>,
    n: int,
    key: Seq<char>,
)
    requires
        0 <= n <= places.len(),
    ensures
        ({
            let after = objects_drawn(drawn, run, places, n);
            &&& drawn.dom().contains(key) ==> after.dom().contains(key) && after[key] == drawn[key]
            &&& forall|g: int|
                0 <= g < n && ({
                    let unit = run.units@[(#[trigger] places[g]).index as int];
                    let object = run.spans@[unit.span as int].object;
                    unit.ch == '\u{fffc}' && object is Some && object->0.key@ == key
                        && object->0.object != (InlineObject::AtlasSprite { known_atlas: false })
                }) ==> after.dom().contains(key)
            &&& after.dom().contains(key) && !drawn.dom().contains(key) ==> exists|g: int|
                0 <= g < n && ({
                    let unit = run.units@[(#[trigger] places[g]).index as int];
                    let object = run.spans@[unit.span as int].object;
                    object is Some && object->0.key@ == key && object->0.object == after[key]
                })
        }),
    decreases n,
{
    if n > 0 {
        law_shown_objects_are_noted(drawn, run, places, n - 1, key);
        let before = objects_drawn(drawn, run, places, n - 1);
        let after = objects_drawn(drawn, run, places, n);
        if after.dom().contains(key) && !drawn.dom().contains(key) {
            if before.dom().contains(key) {
                let g = choose|g: int|
                    0 <= g < n - 1 && ({
                        let unit = run.units@[(#[trigger] places[g]).index as int];
                        let object = run.spans@[unit.span as int].object;
                        object is Some && object->0.key@ == key && object->0.object == before[key]
                    });
                assert(0 <= g < n);
            } else {
                assert(places[n - 1] == places[n - 1]);
            }
        }
    }
}

} // verus!
