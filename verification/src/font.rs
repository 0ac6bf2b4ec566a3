//! The glyph service: one parsed font face and an append-only cache from
//! glyph identity to triangulated glyph.
//!
//! Character-to-glyph mapping and advance metrics come from the font through
//! `ttf_parser`. What the font answers is a function of the font data alone,
//! so those answers are given names (`glyph_index_of`, `advance_in_font`)
//! over the raw bytes, and the service records the very bytes and face index
//! its face was parsed from: every contract below speaks of the font through
//! those names. Outline triangulation happens outside this library, and the
//! finished triangle list is installed here. A repeated request for a cached
//! glyph returns exactly the stored entry.

use crate::text::{glyph_wf, Glyph, GlyphTriangle, MAX_GLYPH_TRIANGLES};
use std::collections::HashMap;
use vstd::prelude::*;

verus! {

broadcast use vstd::std_specs::hash::group_hash_axioms;

#[verifier::external_type_specification]
#[verifier::external_body]
pub struct ExFace<'a>(ttf_parser::Face<'a>);

/// Whether `ttf_parser::Face::parse` accepts this data at this face index: a
/// function of the bytes and the index alone.
pub uninterp spec fn parses_ok(data: Seq<u8>, index: int) -> bool;

/// The glyph `ttf_parser::Face::glyph_index` maps a character to — none for
/// an unmapped character — in the face parsed from this data at this index:
/// a function of its arguments alone.
pub uninterp spec fn glyph_index_of(data: Seq<u8>, index: int, c: char) -> Option<u16>;

/// The horizontal advance `ttf_parser::Face::glyph_hor_advance` reports for
/// a glyph — none where the font carries no metric — in the face parsed
/// from this data at this index: a function of its arguments alone.
pub uninterp spec fn advance_in_font(data: Seq<u8>, index: int, glyph: u16) -> Option<u16>;

/// The advance a glyph is cached with: what the font reports, or zero where
/// the font reports none.
pub open spec fn cached_advance(data: Seq<u8>, index: int, glyph: u16) -> u16 {
    match advance_in_font(data, index, glyph) {
        Some(a) => a,
        None => 0u16,
    }
}

/// What one character of a text needs next: it ends the line, the font does
/// not map it, its glyph is already cached, or its glyph is still missing
/// and must be triangulated and installed.
#[derive(Clone, Copy, Debug, PartialEq, Eq, Structural)]
pub enum CharQuery {
    Newline,
    Unmapped,
    Cached(u16),
    Missing(u16),
}

/// The glyph service: owns the parsed face, the data it was parsed from,
/// and the cache. Created once at startup and shared for the process
/// lifetime; entries are only added, never changed or removed.
pub struct GlyphCache<'a> {
    face: ttf_parser::Face<'a>,
    data: &'a [u8],
    face_index: u32,
    glyphs: HashMap<u16, Glyph>,
}

impl<'a> GlyphCache<'a> {
    /// The font data the face was parsed from.
    pub closed spec fn font_data(&self) -> Seq<u8> {
        self.data@
    }

    /// The face index the font was parsed at.
    pub closed spec fn font_index(&self) -> int {
        self.face_index as int
    }

    /// The cached glyphs, by glyph identity.
    pub closed spec fn entries(&self) -> Map<u16, Glyph> {
        self.glyphs@
    }

    /// Every cached glyph has bounded geometry.
    pub open spec fn wf(&self) -> bool {
        forall|g: u16| self.entries().contains_key(g) ==> glyph_wf(#[trigger] self.entries()[g])
    }

    /// Relies on `ttf_parser::Face::parse`: whether the data parses as a
    /// font depends on the bytes and the face index alone.
    #[verifier::external_body]
    fn parse_face(data: &[u8], index: u32) -> (r: Option<ttf_parser::Face<'_>>)
        ensures
            (r is Some) <==> parses_ok(data@, index as int),
    {
        ttf_parser::Face::parse(data, index).ok()
    }

    /// A service over raw font data at face index zero: none exactly when
    /// the data does not parse as a font, the one fatal condition, surfaced
    /// at initialization. This is the only constructor, so every service's
    /// face was parsed from the very data and index it records.
    pub fn from_font(data: &'a [u8]) -> (r: Option<GlyphCache<'a>>)
        ensures
            (r is Some) <==> parses_ok(data@, 0),
            r matches Some(c) ==> c.entries() == Map::<u16, Glyph>::empty() && c.wf()
                && c.font_data() == data@ && c.font_index() == 0,
    {
        match Self::parse_face(data, 0) {
            Some(face) => Some(
                GlyphCache { face, data, face_index: 0, glyphs: HashMap::new() },
            ),
            None => None,
        }
    }

    /// Relies on `ttf_parser::Face::glyph_index`: the glyph the font maps
    /// the character to depends on the font data, face index and character
    /// alone. `from_font` stores the very data and index the face was
    /// parsed from, so `font_data` and `font_index` here speak of the face.
    #[verifier::external_body]
    fn glyph_id(&self, c: char) -> (r: Option<u16>)
        ensures
            r == glyph_index_of(self.font_data(), self.font_index(), c),
    {
        self.face.glyph_index(c).map(|g| g.0)
    }

    /// Relies on `ttf_parser::Face::glyph_hor_advance`: the advance the
    /// font reports depends on the font data, face index and glyph alone;
    /// `from_font` ties `font_data` and `font_index` to the face.
    #[verifier::external_body]
    fn advance_of(&self, glyph: u16) -> (r: Option<u16>)
        ensures
            r == advance_in_font(self.font_data(), self.font_index(), glyph),
    {
        self.face.glyph_hor_advance(ttf_parser::GlyphId(glyph))
    }

    /// The face itself, for outline extraction by the embedding program.
    pub fn face(&self) -> &ttf_parser::Face<'a> {
        &self.face
    }

    /// The cached glyph under this identity, if present: exactly the stored
    /// entry, so a repeated request returns bit-identical data.
    pub fn lookup(&self, glyph: u16) -> (r: Option<&Glyph>)
        ensures
            match r {
                Some(g) => self.entries().contains_key(glyph) && *g == self.entries()[glyph],
                None => !self.entries().contains_key(glyph),
            },
    {
        self.glyphs.get(&glyph)
    }

    /// Decides what a character of a text needs: a newline marker, nothing
    /// (the font does not map it), the cached glyph of the identity the
    /// font names, or triangulation of that identity on a miss.
    pub fn classify(&self, c: char) -> (r: CharQuery)
        ensures
            (r matches CharQuery::Newline) <==> c == '\n',
            c != '\n' ==> ((r matches CharQuery::Unmapped) <==> glyph_index_of(
                self.font_data(),
                self.font_index(),
                c,
            ) is None),
            r matches CharQuery::Cached(g) ==> glyph_index_of(
                self.font_data(),
                self.font_index(),
                c,
            ) == Some(g) && self.entries().contains_key(g),
            r matches CharQuery::Missing(g) ==> glyph_index_of(
                self.font_data(),
                self.font_index(),
                c,
            ) == Some(g) && !self.entries().contains_key(g),
    {
        if c == '\n' {
            CharQuery::Newline
        } else {
            match self.glyph_id(c) {
                None => CharQuery::Unmapped,
                Some(g) => {
                    match self.lookup(g) {
                        Some(_) => CharQuery::Cached(g),
                        None => CharQuery::Missing(g),
                    }
                },
            }
        }
    }

    /// Installs a triangulated glyph under its identity, with the advance
    /// the font gives it (zero where the font gives none) — the advance is
    /// preserved even for a glyph whose outline could not be triangulated,
    /// which is installed with an empty triangle list and renders blank.
    pub fn install(&mut self, glyph: u16, triangles: Vec<GlyphTriangle>)
        requires
            old(self).wf(),
            triangles@.len() <= MAX_GLYPH_TRIANGLES,
            forall|i: int|
                0 <= i < triangles@.len() ==> crate::text::tri_ok(#[trigger] triangles@[i]),
        ensures
            final(self).wf(),
            final(self).font_data() == old(self).font_data(),
            final(self).font_index() == old(self).font_index(),
            final(self).entries().contains_key(glyph),
            final(self).entries()[glyph].triangles@ == triangles@,
            final(self).entries()[glyph].horizontal_advance == cached_advance(
                old(self).font_data(),
                old(self).font_index(),
                glyph,
            ),
            glyph_wf(final(self).entries()[glyph]),
            final(self).entries() == old(self).entries().insert(
                glyph,
                final(self).entries()[glyph],
            ),
    {
        let adv = match self.advance_of(glyph) {
            Some(a) => a,
            None => 0,
        };
        let g = Glyph { triangles, horizontal_advance: adv };
        self.glyphs.insert(glyph, g);
        proof {
            assert forall|o: u16| self.entries().contains_key(o) implies glyph_wf(
                #[trigger] self.entries()[o],
            ) by {
                if o == glyph {
                    assert(self.entries()[o] == g);
                } else {
                    assert(old(self).entries().contains_key(o));
                    assert(self.entries()[o] == old(self).entries()[o]);
                }
            }
        }
    }
}

/// Installing a glyph and looking it up round-trips: the inserted entry is
/// found under its identity, and every other entry is untouched.
pub proof fn lemma_cache_round_trip(m: Map<u16, Glyph>, id: u16, g: Glyph)
    ensures
        m.insert(id, g).contains_key(id),
        m.insert(id, g)[id] == g,
        forall|o: u16|
            o != id && m.contains_key(o) ==> m.insert(id, g).contains_key(o) && m.insert(id, g)[o]
                == m[o],
{
}

} // verus!
