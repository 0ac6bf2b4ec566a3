//! Text layout: resolved glyphs are laid out line by line with horizontal
//! and vertical alignment, and each glyph's cached triangles are emitted at
//! the cursor, scaled by the effective scale.
//!
//! Glyph geometry is in font units; the effective scale is the text's own
//! fixed-point scale divided by the base-scale denominator. The newline
//! character ends a line: the cursor returns to the aligned start of the
//! next line and drops by one line height.

use crate::geom::{
    floor_div, lemma_div_bound, lemma_div_bracket, lemma_mul_bound, vec2_ok, Vec2, COORD_LIMIT,
    FX_ONE,
};
use crate::mesh::{Color, DebugDrawMesh, DebugDrawVertex};
use vstd::prelude::*;

verus! {

/// The base scale is one fiftieth: a text scale of `FX_ONE` renders glyphs
/// at one fiftieth of a font unit per coordinate unit.
pub const BASE_SCALE_DEN: i64 = 50;

/// The distance between two text lines, in font units.
pub const LINE_HEIGHT: i64 = 1200;

/// Largest text scale the layout accepts: 1024 times natural size.
pub const MAX_TEXT_SCALE: i64 = FX_ONE * 1024;

/// Most characters one text may hold.
pub const MAX_TEXT_CHARS: usize = 65536;

/// Most triangles one glyph may hold.
pub const MAX_GLYPH_TRIANGLES: usize = 4096;

/// One triangle of a triangulated glyph, in glyph-local font units.
#[derive(Clone, Copy, Debug, PartialEq, Eq, Structural)]
pub struct GlyphTriangle {
    pub a: Vec2,
    pub b: Vec2,
    pub c: Vec2,
}

/// A resolved glyph: its triangulated outline and its horizontal advance in
/// font units. Immutable once produced.
#[derive(Clone, Debug)]
pub struct Glyph {
    pub triangles: Vec<GlyphTriangle>,
    pub horizontal_advance: u16,
}

/// One resolved character of a text: a glyph, or the end of a line.
#[derive(Clone, Debug)]
pub enum Character {
    Glyph(Glyph),
    Newline,
}

/// Horizontal alignment of each text line.
#[derive(Clone, Copy, Debug, PartialEq, Eq, Structural)]
pub enum DebugTextAlignment {
    Left,
    Center,
    Right,
}

/// Vertical alignment of the text block.
#[derive(Clone, Copy, Debug, PartialEq, Eq, Structural)]
pub enum DebugTextVerticalAlignment {
    Top,
    Center,
    Bottom,
}

/// A text to draw, with its characters already resolved against the font:
/// unmapped code points are dropped during resolution and newlines become
/// `Character::Newline`.
#[derive(Clone, Debug)]
pub struct DebugText {
    pub characters: Vec<Character>,
    pub position: Vec2,
    pub scale: i64,
    pub color: Color,
    pub alignment: DebugTextAlignment,
    pub vertical_alignment: DebugTextVerticalAlignment,
    pub depth: i64,
}

/// All three corners are within the coordinate limit.
pub open spec fn tri_ok(t: GlyphTriangle) -> bool {
    vec2_ok(t.a) && vec2_ok(t.b) && vec2_ok(t.c)
}

/// The glyph holds few enough triangles, all with bounded corners.
pub open spec fn glyph_wf(g: Glyph) -> bool {
    &&& g.triangles@.len() <= MAX_GLYPH_TRIANGLES
    &&& forall|i: int| 0 <= i < g.triangles@.len() ==> tri_ok(#[trigger] g.triangles@[i])
}

/// A character is well-formed when its glyph is.
pub open spec fn char_wf(c: Character) -> bool {
    match c {
        Character::Glyph(g) => glyph_wf(g),
        Character::Newline => true,
    }
}

/// A font-unit value scaled by a fixed-point factor, with floor rounding.
pub open spec fn scaled(v: int, eff: int) -> int {
    (v * eff) / (FX_ONE as int)
}

/// The width of each text line: the sum of the scaled advances of its
/// glyphs. A text always has one line more than it has newlines.
pub open spec fn line_widths(chars: Seq<Character>, eff: int) -> Seq<int>
    decreases chars.len(),
{
    if chars.len() == 0 {
        seq![0int]
    } else {
        let rest = line_widths(chars.skip(1), eff);
        match chars[0] {
            Character::Newline => seq![0int] + rest,
            Character::Glyph(g) => rest.update(0, rest[0] + scaled(g.horizontal_advance as int, eff)),
        }
    }
}

/// How many newlines the characters hold.
pub open spec fn newline_count(chars: Seq<Character>) -> int
    decreases chars.len(),
{
    if chars.len() == 0 {
        0
    } else {
        (match chars[0] {
            Character::Newline => 1int,
            Character::Glyph(g) => 0int,
        }) + newline_count(chars.skip(1))
    }
}

/// The first entry raised by `c`: how a partially accumulated line width
/// folds into the widths of the remaining characters.
spec fn bump_first(s: Seq<int>, c: int) -> Seq<int> {
    s.update(0, s[0] + c)
}

/// The cursor's horizontal start offset for a line of width `w`: flush left,
/// centered, or flush right against the text origin.
pub open spec fn h_offset(a: DebugTextAlignment, w: int) -> int {
    match a {
        DebugTextAlignment::Left => 0,
        DebugTextAlignment::Center => -(w / 2),
        DebugTextAlignment::Right => -w,
    }
}

/// The scaled distance the cursor drops at each newline.
pub open spec fn line_step(eff: int) -> int {
    scaled(LINE_HEIGHT as int, eff)
}

/// The cursor's vertical start offset for a text of `lines` total lines:
/// text grows downward from the first line, so centering or bottom
/// alignment raises the start by half of or all of the block's height.
pub open spec fn v_offset(va: DebugTextVerticalAlignment, lines: int, eff: int) -> int {
    match va {
        DebugTextVerticalAlignment::Top => 0,
        DebugTextVerticalAlignment::Center => (lines * line_step(eff)) / 2,
        DebugTextVerticalAlignment::Bottom => lines * line_step(eff),
    }
}

/// The positions emitted for one glyph at cursor `(cx, cy)`: three corners
/// per triangle, each scaled and translated to the cursor.
pub open spec fn glyph_points(tris: Seq<GlyphTriangle>, cx: int, cy: int, eff: int) -> Seq<
    (int, int),
>
    decreases tris.len(),
{
    if tris.len() == 0 {
        Seq::empty()
    } else {
        glyph_points(tris.drop_last(), cx, cy, eff) + seq![
            (cx + scaled(tris.last().a.x as int, eff), cy + scaled(tris.last().a.y as int, eff)),
            (cx + scaled(tris.last().b.x as int, eff), cy + scaled(tris.last().b.y as int, eff)),
            (cx + scaled(tris.last().c.x as int, eff), cy + scaled(tris.last().c.y as int, eff)),
        ]
    }
}

/// The vertex positions of the whole text: glyphs advance the cursor; a
/// newline moves to line `line + 1`, resets the cursor to that line's
/// aligned start and drops it by the line step.
pub open spec fn emit_points(
    chars: Seq<Character>,
    widths: Seq<int>,
    line: int,
    cx: int,
    cy: int,
    eff: int,
    ox: int,
    a: DebugTextAlignment,
) -> Seq<(int, int)>
    decreases chars.len(),
{
    if chars.len() == 0 {
        Seq::empty()
    } else {
        match chars[0] {
            Character::Glyph(g) => glyph_points(g.triangles@, cx, cy, eff) + emit_points(
                chars.skip(1),
                widths,
                line,
                cx + scaled(g.horizontal_advance as int, eff),
                cy,
                eff,
                ox,
                a,
            ),
            Character::Newline => emit_points(
                chars.skip(1),
                widths,
                line + 1,
                ox + h_offset(a, widths[line + 1]),
                cy - line_step(eff),
                eff,
                ox,
                a,
            ),
        }
    }
}

/// The vertex positions of a text, from its own parameters: the effective
/// scale, the line widths, and the aligned start cursor.
pub open spec fn text_points(t: DebugText) -> Seq<(int, int)> {
    let eff = t.scale as int / (BASE_SCALE_DEN as int);
    let widths = line_widths(t.characters@, eff);
    emit_points(
        t.characters@,
        widths,
        0,
        t.position.x + h_offset(t.alignment, widths[0]),
        t.position.y + v_offset(t.vertical_alignment, widths.len() as int, eff),
        eff,
        t.position.x as int,
        t.alignment,
    )
}

/// The position of one mesh vertex, as a pair of integers.
pub open spec fn vertex_point(v: DebugDrawVertex) -> (int, int) {
    (v.position.x as int, v.position.y as int)
}

/// The mesh a text lays out into: sequential indices, the text's uniform
/// color, its depth key, and the vertex positions of `text_points`.
pub open spec fn text_mesh(t: DebugText, m: DebugDrawMesh) -> bool {
    &&& m.depth == t.depth
    &&& m.indices@.len() == m.vertices@.len()
    &&& forall|i: int| 0 <= i < m.indices@.len() ==> (#[trigger] m.indices@[i]) as int == i
    &&& forall|i: int| 0 <= i < m.vertices@.len() ==> (#[trigger] m.vertices@[i]).color == t.color
    &&& m.vertices@.map_values(|v: DebugDrawVertex| vertex_point(v)) == text_points(t)
}

/// A text always has one more line than it has newlines.
pub proof fn lemma_widths_len(chars: Seq<Character>, eff: int)
    ensures
        line_widths(chars, eff).len() == newline_count(chars) + 1,
        0 <= newline_count(chars) <= chars.len(),
    decreases chars.len(),
{
    if chars.len() > 0 {
        lemma_widths_len(chars.skip(1), eff);
    }
}

/// Unfolds the line widths one character at a time, from position `k`.
proof fn lemma_widths_step(chars: Seq<Character>, k: int, eff: int)
    requires
        0 <= k < chars.len(),
    ensures
        chars[k] matches Character::Newline ==> line_widths(chars.skip(k), eff) == seq![0int]
            + line_widths(chars.skip(k + 1), eff),
        chars[k] matches Character::Glyph(g) ==> line_widths(chars.skip(k), eff) == bump_first(
            line_widths(chars.skip(k + 1), eff),
            scaled(g.horizontal_advance as int, eff),
        ),
{
    assert(chars.skip(k)[0] == chars[k]);
    assert(chars.skip(k).skip(1) =~= chars.skip(k + 1));
    lemma_widths_len(chars.skip(k + 1), eff);
    match chars[k] {
        Character::Newline => {
        },
        Character::Glyph(g) => {
            let rest = line_widths(chars.skip(k + 1), eff);
            assert(rest.update(0, rest[0] + scaled(g.horizontal_advance as int, eff))
                == bump_first(rest, scaled(g.horizontal_advance as int, eff)));
        },
    }
}

/// Folding zero into a width list changes nothing.
proof fn lemma_bump_zero(s: Seq<int>)
    requires
        s.len() >= 1,
    ensures
        bump_first(s, 0) == s,
{
    assert(bump_first(s, 0) =~= s);
}

/// Folding into a list that starts a fresh line turns the accumulation into
/// that first line's width.
proof fn lemma_bump_newline(rest: Seq<int>, c: int)
    ensures
        bump_first(seq![0int] + rest, c) == seq![c] + rest,
{
    assert(bump_first(seq![0int] + rest, c) =~= seq![c] + rest);
}

/// Two folds into the same list add up.
proof fn lemma_bump_bump(s: Seq<int>, a: int, c: int)
    requires
        s.len() >= 1,
    ensures
        bump_first(bump_first(s, a), c) == bump_first(s, a + c),
{
    assert(bump_first(bump_first(s, a), c) =~= bump_first(s, a + c));
}

/// Unfolds the emitted points one character at a time, from position `k`.
proof fn lemma_emit_step(
    chars: Seq<Character>,
    k: int,
    widths: Seq<int>,
    line: int,
    cx: int,
    cy: int,
    eff: int,
    ox: int,
    a: DebugTextAlignment,
)
    requires
        0 <= k < chars.len(),
    ensures
        chars[k] matches Character::Glyph(g) ==> emit_points(
            chars.skip(k),
            widths,
            line,
            cx,
            cy,
            eff,
            ox,
            a,
        ) == glyph_points(g.triangles@, cx, cy, eff) + emit_points(
            chars.skip(k + 1),
            widths,
            line,
            cx + scaled(g.horizontal_advance as int, eff),
            cy,
            eff,
            ox,
            a,
        ),
        chars[k] matches Character::Newline ==> emit_points(
            chars.skip(k),
            widths,
            line,
            cx,
            cy,
            eff,
            ox,
            a,
        ) == emit_points(
            chars.skip(k + 1),
            widths,
            line + 1,
            ox + h_offset(a, widths[line + 1]),
            cy - line_step(eff),
            eff,
            ox,
            a,
        ),
{
    assert(chars.skip(k)[0] == chars[k]);
    assert(chars.skip(k).skip(1) =~= chars.skip(k + 1));
}

/// After a newline, a left-aligned text's cursor returns exactly to the text
/// origin's x, and the cursor drops by exactly one scaled line step.
pub proof fn lemma_newline_left_reset(
    chars: Seq<Character>,
    widths: Seq<int>,
    line: int,
    cx: int,
    cy: int,
    eff: int,
    ox: int,
)
    requires
        chars.len() > 0,
        chars[0] matches Character::Newline,
    ensures
        emit_points(chars, widths, line, cx, cy, eff, ox, DebugTextAlignment::Left)
            == emit_points(
            chars.skip(1),
            widths,
            line + 1,
            ox,
            cy - line_step(eff),
            eff,
            ox,
            DebugTextAlignment::Left,
        ),
{
    assert(h_offset(DebugTextAlignment::Left, widths[line + 1]) == 0);
}

impl DebugText {
    /// The position, scale, character count and glyph geometry are all small
    /// enough for layout.
    pub open spec fn wf(&self) -> bool {
        &&& vec2_ok(self.position)
        &&& 0 <= self.scale <= MAX_TEXT_SCALE
        &&& self.characters@.len() <= MAX_TEXT_CHARS
        &&& forall|i: int| 0 <= i < self.characters@.len() ==> char_wf(#[trigger] self.characters@[i])
    }

    /// An empty black text at the origin, natural scale, top-left aligned.
    pub fn default() -> (t: DebugText)
        ensures
            t.characters@.len() == 0,
            t.position == (Vec2 { x: 0, y: 0 }),
            t.scale == FX_ONE,
            t.color == (Color { r: 0, g: 0, b: 0, a: 255 }),
            t.alignment == DebugTextAlignment::Left,
            t.vertical_alignment == DebugTextVerticalAlignment::Top,
            t.depth == 0,
            t.wf(),
    {
        DebugText {
            characters: Vec::new(),
            position: Vec2::zero(),
            scale: FX_ONE,
            color: Color::black(),
            alignment: DebugTextAlignment::Left,
            vertical_alignment: DebugTextVerticalAlignment::Top,
            depth: 0,
        }
    }

    /// Lays the text out into one mesh: every glyph's triangles translated
    /// to the cursor, the cursor advancing per glyph and wrapping per
    /// newline, with sequential indices and the text's uniform color.
    pub fn to_mesh(&self) -> (m: DebugDrawMesh)
        requires
            self.wf(),
        ensures
            m.wf(),
            m.depth == self.depth,
            m.indices@.len() == m.vertices@.len(),
            forall|i: int| 0 <= i < m.indices@.len() ==> (#[trigger] m.indices@[i]) as int == i,
            forall|i: int|
                0 <= i < m.vertices@.len() ==> (#[trigger] m.vertices@[i]).color == self.color,
            m.vertices@.map_values(|v: DebugDrawVertex| vertex_point(v)) == text_points(*self),
            text_mesh(*self, m),
    {
        proof {
            lemma_div_bound(self.scale as int, BASE_SCALE_DEN as int);
            vstd::arithmetic::div_mod::lemma_div_is_ordered(
                self.scale as int,
                MAX_TEXT_SCALE as int,
                BASE_SCALE_DEN as int,
            );
        }
        let eff = floor_div(self.scale, BASE_SCALE_DEN);
        let ghost effi = eff as int;
        let nchars = self.characters.len();

        // Pass 1: the width of each line.
        let mut widths: Vec<i64> = Vec::new();
        let mut current: i64 = 0;
        let mut k: usize = 0;
        proof {
            lemma_widths_len(self.characters@, effi);
            assert(self.characters@.skip(0) =~= self.characters@);
            lemma_bump_zero(line_widths(self.characters@, effi));
        }
        while k < nchars
            invariant
                self.wf(),
                nchars == self.characters@.len(),
                0 <= eff <= 0x200000,
                effi == eff as int,
                0 <= k <= nchars,
                0 <= current <= (k as int) * 0x200000,
                forall|i: int| 0 <= i < widths@.len() ==> 0 <= #[trigger] widths@[i] <= 0x2000000000,
                widths@.len() <= k,
                line_widths(self.characters@, effi) == widths@.map_values(|w: i64| w as int)
                    + bump_first(line_widths(self.characters@.skip(k as int), effi), current as int),
            decreases nchars - k,
        {
            proof {
                lemma_widths_step(self.characters@, k as int, effi);
                lemma_widths_len(self.characters@.skip(k as int + 1), effi);
            }
            match &self.characters[k] {
                Character::Newline => {
                    let ghost wbefore = widths@;
                    widths.push(current);
                    proof {
                        let rest = line_widths(self.characters@.skip(k as int + 1), effi);
                        lemma_bump_newline(rest, current as int);
                        lemma_bump_zero(rest);
                        assert(widths@.map_values(|w: i64| w as int) =~= wbefore.map_values(
                            |w: i64| w as int,
                        ).push(current as int));
                        assert(wbefore.map_values(|w: i64| w as int) + (seq![current as int] + rest)
                            =~= widths@.map_values(|w: i64| w as int) + rest);
                    }
                    current = 0;
                },
                Character::Glyph(g) => {
                    assert(char_wf(self.characters@[k as int]));
                    let adv = g.horizontal_advance;
                    proof {
                        lemma_mul_bound(adv as int, effi, 0x10000, 0x200000);
                        assert((adv as int) * effi >= 0) by (nonlinear_arith)
                            requires
                                adv as int >= 0,
                                effi >= 0,
                        ;
                        lemma_div_bracket((adv as int) * effi, FX_ONE as int, 0x200000);
                        lemma_div_bound((adv as int) * effi, FX_ONE as int);
                    }
                    let step = floor_div((adv as i64) * eff, FX_ONE);
                    proof {
                        let rest = line_widths(self.characters@.skip(k as int + 1), effi);
                        lemma_bump_bump(rest, scaled(adv as int, effi), current as int);
                    }
                    current = current + step;
                },
            }
            k = k + 1;
        }
        let ghost wbefore = widths@;
        widths.push(current);
        proof {
            assert(self.characters@.skip(nchars as int) =~= Seq::<Character>::empty());
            let rest = line_widths(Seq::<Character>::empty(), effi);
            assert(rest == seq![0int]);
            lemma_bump_newline(Seq::<int>::empty(), current as int);
            assert(bump_first(seq![0int], current as int) =~= seq![current as int]);
            assert(widths@.map_values(|w: i64| w as int) =~= wbefore.map_values(|w: i64| w as int)
                + seq![current as int]);
            assert(widths@.map_values(|w: i64| w as int) == line_widths(self.characters@, effi));
            lemma_widths_len(self.characters@, effi);
        }

        // The aligned start cursor.
        proof {
            assert(0 <= widths@[0] <= 0x2000000000);
            assert(widths@.len() <= 0x10001);
            lemma_mul_bound(LINE_HEIGHT as int, effi, 1200, 0x200000);
            assert((LINE_HEIGHT as int) * effi >= 0) by (nonlinear_arith)
                requires
                    effi >= 0,
            ;
            lemma_div_bracket((LINE_HEIGHT as int) * effi, FX_ONE as int, 0x10000);
            lemma_div_bound((LINE_HEIGHT as int) * effi, FX_ONE as int);
        }
        let lh = floor_div(LINE_HEIGHT * eff, FX_ONE);
        let lines = widths.len() as i64;
        proof {
            lemma_mul_bound(lines as int, lh as int, 0x10001, 0x10000);
            lemma_div_bound((lines as int) * (lh as int), 2);
        }
        let vtotal = lines * lh;
        let voff = match self.vertical_alignment {
            DebugTextVerticalAlignment::Top => 0,
            DebugTextVerticalAlignment::Center => floor_div(vtotal, 2),
            DebugTextVerticalAlignment::Bottom => vtotal,
        };
        let w0 = widths[0];
        proof {
            lemma_div_bound(w0 as int, 2);
        }
        let hoff = match self.alignment {
            DebugTextAlignment::Left => 0,
            DebugTextAlignment::Center => -floor_div(w0, 2),
            DebugTextAlignment::Right => -w0,
        };
        let mut cx = self.position.x + hoff;
        let mut cy = self.position.y + voff;
        let ghost cx0 = cx as int;
        let ghost cy0 = cy as int;
        let ghost wspec = widths@.map_values(|w: i64| w as int);

        // Pass 2: emit each glyph's triangles at the cursor.
        let mut vertices: Vec<DebugDrawVertex> = Vec::new();
        let mut indices: Vec<u32> = Vec::new();
        let mut line: usize = 0;
        k = 0;
        proof {
            assert(self.characters@.skip(0) =~= self.characters@);
        }
        while k < nchars
            invariant
                self.wf(),
                nchars == self.characters@.len(),
                0 <= eff <= 0x200000,
                effi == eff as int,
                0 <= k <= nchars,
                wspec == widths@.map_values(|w: i64| w as int),
                forall|i: int| 0 <= i < widths@.len() ==> 0 <= #[trigger] widths@[i] <= 0x2000000000,
                (line as int) + newline_count(self.characters@.skip(k as int)) + 1 == widths@.len(),
                0 <= (line as int) && (line as int) < widths@.len(),
                widths@.len() <= 65537,
                0 <= lh <= 0x10000,
                lh as int == line_step(effi),
                -0x8000000000 <= cx <= 0x8000000000 - ((nchars - k) as int) * 0x200000,
                -0x800000000 + ((nchars - k) as int) * 0x10000 <= cy <= 0x800000000,
                vertices@.len() == indices@.len(),
                vertices@.len() <= (k as int) * 12288,
                forall|i: int| 0 <= i < indices@.len() ==> (#[trigger] indices@[i]) as int == i,
                forall|i: int|
                    0 <= i < vertices@.len() ==> (#[trigger] vertices@[i]).color == self.color,
                emit_points(self.characters@, wspec, 0, cx0, cy0, effi, self.position.x as int,
                    self.alignment) == vertices@.map_values(|v: DebugDrawVertex| vertex_point(v))
                    + emit_points(self.characters@.skip(k as int), wspec, line as int, cx as int,
                    cy as int, effi, self.position.x as int, self.alignment),
            decreases nchars - k,
        {
            proof {
                lemma_emit_step(self.characters@, k as int, wspec, line as int, cx as int,
                    cy as int, effi, self.position.x as int, self.alignment);
                assert(self.characters@.skip(k as int)[0] == self.characters@[k as int]);
            }
            proof {
                assert(self.characters@.skip(k as int).skip(1) =~= self.characters@.skip(
                    k as int + 1,
                ));
                lemma_widths_len(self.characters@.skip(k as int + 1), effi);
                lemma_widths_len(self.characters@.skip(k as int), effi);
            }
            match &self.characters[k] {
                Character::Newline => {
                    proof {
                        assert(newline_count(self.characters@.skip(k as int)) == 1 + newline_count(
                            self.characters@.skip(k as int + 1),
                        ));
                        assert((line as int) + 1 < widths@.len());
                    }
                    line = line + 1;
                    proof {
                        assert(wspec[line as int] == widths@[line as int] as int);
                        lemma_div_bound(widths@[line as int] as int, 2);
                    }
                    let w = widths[line];
                    let ho = match self.alignment {
                        DebugTextAlignment::Left => 0,
                        DebugTextAlignment::Center => -floor_div(w, 2),
                        DebugTextAlignment::Right => -w,
                    };
                    cx = self.position.x + ho;
                    cy = cy - lh;
                },
                Character::Glyph(g) => {
                    assert(char_wf(self.characters@[k as int]));
                    let ghost pref = vertices@.map_values(|v: DebugDrawVertex| vertex_point(v));
                    let tcount = g.triangles.len();
                    let mut t: usize = 0;
                    proof {
                        assert(glyph_points(g.triangles@.take(0), cx as int, cy as int, effi)
                            =~= Seq::<(int, int)>::empty());
                    }
                    while t < tcount
                        invariant
                            glyph_wf(*g),
                            tcount == g.triangles@.len(),
                            0 <= t <= tcount,
                            0 <= eff <= 0x200000,
                            effi == eff as int,
                            -0x8000000000 <= cx <= 0x8000000000,
                            -0x800000000 <= cy <= 0x800000000,
                            vertices@.len() == indices@.len(),
                            vertices@.len() == pref.len() + 3 * t,
                            pref.len() <= 0x30000000,
                            forall|i: int|
                                0 <= i < indices@.len() ==> (#[trigger] indices@[i]) as int == i,
                            forall|i: int|
                                0 <= i < vertices@.len() ==> (#[trigger] vertices@[i]).color
                                    == self.color,
                            vertices@.map_values(|v: DebugDrawVertex| vertex_point(v)) == pref
                                + glyph_points(g.triangles@.take(t as int), cx as int, cy as int,
                                effi),
                        decreases tcount - t,
                    {
                        let tri = g.triangles[t];
                        proof {
                            assert(tri_ok(g.triangles@[t as int]));
                            lemma_mul_bound(tri.a.x as int, effi, COORD_LIMIT as int, 0x200000);
                            lemma_mul_bound(tri.a.y as int, effi, COORD_LIMIT as int, 0x200000);
                            lemma_mul_bound(tri.b.x as int, effi, COORD_LIMIT as int, 0x200000);
                            lemma_mul_bound(tri.b.y as int, effi, COORD_LIMIT as int, 0x200000);
                            lemma_mul_bound(tri.c.x as int, effi, COORD_LIMIT as int, 0x200000);
                            lemma_mul_bound(tri.c.y as int, effi, COORD_LIMIT as int, 0x200000);
                            lemma_div_bound((tri.a.x as int) * effi, FX_ONE as int);
                            lemma_div_bound((tri.a.y as int) * effi, FX_ONE as int);
                            lemma_div_bound((tri.b.x as int) * effi, FX_ONE as int);
                            lemma_div_bound((tri.b.y as int) * effi, FX_ONE as int);
                            lemma_div_bound((tri.c.x as int) * effi, FX_ONE as int);
                            lemma_div_bound((tri.c.y as int) * effi, FX_ONE as int);
                        }
                        let ghost vbefore = vertices@;
                        let ax = cx + floor_div(tri.a.x * eff, FX_ONE);
                        let ay = cy + floor_div(tri.a.y * eff, FX_ONE);
                        let bx = cx + floor_div(tri.b.x * eff, FX_ONE);
                        let by = cy + floor_div(tri.b.y * eff, FX_ONE);
                        let ccx = cx + floor_div(tri.c.x * eff, FX_ONE);
                        let ccy = cy + floor_div(tri.c.y * eff, FX_ONE);
                        let i0 = vertices.len() as u32;
                        indices.push(i0);
                        vertices.push(
                            DebugDrawVertex { position: Vec2 { x: ax, y: ay }, color: self.color },
                        );
                        let i1 = vertices.len() as u32;
                        indices.push(i1);
                        vertices.push(
                            DebugDrawVertex { position: Vec2 { x: bx, y: by }, color: self.color },
                        );
                        let i2 = vertices.len() as u32;
                        indices.push(i2);
                        vertices.push(
                            DebugDrawVertex { position: Vec2 { x: ccx, y: ccy }, color: self.color },
                        );
                        proof {
                            assert(g.triangles@.take(t as int + 1).drop_last() =~= g.triangles@.take(
                                t as int,
                            ));
                            assert(g.triangles@.take(t as int + 1).last() == g.triangles@[t as int]);
                            assert(vertices@ =~= vbefore.push(
                                DebugDrawVertex { position: Vec2 { x: ax, y: ay }, color: self.color },
                            ).push(
                                DebugDrawVertex { position: Vec2 { x: bx, y: by }, color: self.color },
                            ).push(
                                DebugDrawVertex {
                                    position: Vec2 { x: ccx, y: ccy },
                                    color: self.color,
                                },
                            ));
                            let newpts = seq![
                                (ax as int, ay as int),
                                (bx as int, by as int),
                                (ccx as int, ccy as int),
                            ];
                            assert(ax as int == cx as int + scaled(tri.a.x as int, effi));
                            assert(ay as int == cy as int + scaled(tri.a.y as int, effi));
                            assert(bx as int == cx as int + scaled(tri.b.x as int, effi));
                            assert(by as int == cy as int + scaled(tri.b.y as int, effi));
                            assert(ccx as int == cx as int + scaled(tri.c.x as int, effi));
                            assert(ccy as int == cy as int + scaled(tri.c.y as int, effi));
                            assert(glyph_points(g.triangles@.take(t as int + 1), cx as int,
                                cy as int, effi) == glyph_points(g.triangles@.take(t as int),
                                cx as int, cy as int, effi) + newpts);
                            assert(vertices@.map_values(|v: DebugDrawVertex| vertex_point(v))
                                =~= vbefore.map_values(|v: DebugDrawVertex| vertex_point(v))
                                + newpts);
                            assert((pref + glyph_points(g.triangles@.take(t as int), cx as int,
                                cy as int, effi)) + newpts =~= pref + (glyph_points(
                                g.triangles@.take(t as int),
                                cx as int,
                                cy as int,
                                effi,
                            ) + newpts));
                            assert(vertices@.map_values(|v: DebugDrawVertex| vertex_point(v)) =~= pref
                                + glyph_points(g.triangles@.take(t as int + 1), cx as int, cy as int,
                                effi));
                        }
                        t = t + 1;
                    }
                    proof {
                        assert(g.triangles@.take(tcount as int) =~= g.triangles@);
                        lemma_mul_bound(g.horizontal_advance as int, effi, 0x10000, 0x200000);
                        assert((g.horizontal_advance as int) * effi >= 0) by (nonlinear_arith)
                            requires
                                effi >= 0,
                        ;
                        lemma_div_bracket((g.horizontal_advance as int) * effi, FX_ONE as int,
                            0x200000);
                        lemma_div_bound((g.horizontal_advance as int) * effi, FX_ONE as int);
                    }
                    let step = floor_div((g.horizontal_advance as i64) * eff, FX_ONE);
                    cx = cx + step;
                },
            }
            k = k + 1;
        }
        proof {
            assert(self.characters@.skip(nchars as int) =~= Seq::<Character>::empty());
            assert(emit_points(Seq::<Character>::empty(), wspec, line as int, cx as int, cy as int,
                effi, self.position.x as int, self.alignment) =~= Seq::<(int, int)>::empty());
            assert(vertices@.map_values(|v: DebugDrawVertex| vertex_point(v)) + Seq::<(
                int,
                int,
            )>::empty() =~= vertices@.map_values(|v: DebugDrawVertex| vertex_point(v)));
        }
        let m = DebugDrawMesh { vertices, indices, depth: self.depth };
        proof {
            assert(text_points(*self) == m.vertices@.map_values(
                |v: DebugDrawVertex| vertex_point(v),
            ));
        }
        m
    }
}

} // verus!
