//! Glyph atlas: shelf packing and caching of rasterized glyphs.
//!
//! [`FontAtlas`] owns the packing state of a fixed-size texture atlas and
//! the cache of placed glyphs. Rasterization itself, like the texture, is
//! the embedding's business: it hands the raw metrics of a freshly
//! rasterized glyph to [`FontAtlas::place_glyph`], which decides — and
//! proves — where the bitmap goes, when a new shelf row starts, and when
//! the atlas is full. A full atlas fails only the offending glyph and
//! leaves the whole state unchanged.

use crate::rat::{q_add, q_eq, q_int, rat_small, stored, Q, Rat};
use vstd::hash_map::HashMapWithView;
use vstd::prelude::*;
use vstd::string::StrSliceExecFns;

verus! {

/// The raw measurements of one rasterized glyph, as the font source
/// reports them: pixel sizes, bearing offsets, and the horizontal advance
/// in 1/64th pixels.
#[derive(Clone, Copy, Debug, PartialEq, Eq, Structural)]
pub struct GlyphMetrics {
    pub width: i32,
    pub height: i32,
    pub bearing_x: i32,
    pub bearing_y: i32,
    /// Horizontal advance in 1/64th pixels.
    pub advance: i64,
}

/// A cached glyph: its UV rectangle in the atlas, pixel size, bearing
/// offsets and advance width (in pixels, exact).
#[derive(Clone, Copy, Debug, PartialEq, Eq, Structural)]
pub struct GlyphInfo {
    /// UV coordinates of the top-left corner.
    pub uv_x: Rat,
    pub uv_y: Rat,
    /// UV size.
    pub uv_width: Rat,
    pub uv_height: Rat,
    /// Glyph size in pixels.
    pub width: i32,
    pub height: i32,
    /// Offset from the pen position to the glyph's top-left.
    pub bearing_x: i32,
    pub bearing_y: i32,
    /// Horizontal advance in pixels.
    pub advance: Rat,
}

/// The one failure of the atlas: no room left for a glyph.
#[derive(Clone, Copy, Debug, PartialEq, Eq, Structural)]
pub enum AtlasError {
    Full,
}

/// Every rational carried by a cached glyph is within the stored bound.
pub open spec fn glyph_info_wf(info: GlyphInfo) -> bool {
    &&& rat_small(info.uv_x)
    &&& rat_small(info.uv_y)
    &&& rat_small(info.uv_width)
    &&& rat_small(info.uv_height)
    &&& rat_small(info.advance)
}

/// Largest accepted atlas side and glyph side, in pixels.
pub const ATLAS_SIDE_MAX: u32 = 0x8000;

/// A font atlas: a fixed-size packing region filled shelf by shelf, plus
/// the cache of placed glyphs, keyed by character.
pub struct FontAtlas {
    /// Atlas texture size in pixels.
    pub atlas_width: u32,
    pub atlas_height: u32,
    /// Current packing position.
    pub cursor_x: u32,
    pub cursor_y: u32,
    /// Height of the current shelf row.
    pub row_height: u32,
    /// Cached glyphs, keyed by the character's code point.
    pub glyphs: HashMapWithView<u32, GlyphInfo>,
    /// Font size in pixels.
    pub font_size: u32,
}

/// The atlas invariant: positive bounded sides, the cursor inside the
/// region (one past the right edge at most), the row no taller than the
/// atlas, and every cached glyph well formed.
pub open spec fn atlas_wf(a: FontAtlas) -> bool {
    &&& 1 <= a.atlas_width <= ATLAS_SIDE_MAX
    &&& 1 <= a.atlas_height <= ATLAS_SIDE_MAX
    &&& a.cursor_x <= ATLAS_SIDE_MAX + 1
    &&& a.cursor_y <= a.atlas_height
    &&& a.row_height <= a.atlas_height
    &&& forall|k: u32| a.glyphs@.contains_key(k) ==> glyph_info_wf(#[trigger] a.glyphs@[k])
}

/// Whether placing a glyph of width `w` starts a new shelf row.
pub open spec fn atlas_wraps(a: FontAtlas, w: int) -> bool {
    a.cursor_x + w > a.atlas_width
}

/// The x pixel position a glyph of width `w` would be placed at.
pub open spec fn atlas_place_x(a: FontAtlas, w: int) -> int {
    if atlas_wraps(a, w) {
        0
    } else {
        a.cursor_x as int
    }
}

/// The y pixel position a glyph of width `w` would be placed at.
pub open spec fn atlas_place_y(a: FontAtlas, w: int) -> int {
    if atlas_wraps(a, w) {
        a.cursor_y + a.row_height + 1
    } else {
        a.cursor_y as int
    }
}

/// Whether a glyph of size `w x h` still fits the atlas.
pub open spec fn atlas_fits(a: FontAtlas, w: int, h: int) -> bool {
    atlas_place_y(a, w) + h <= a.atlas_height
}

impl FontAtlas {
    /// A fresh atlas of `atlas_size x atlas_size` pixels for the given
    /// font size.
    pub fn new(font_size: u32, atlas_size: u32) -> (a: FontAtlas)
        requires
            1 <= atlas_size <= ATLAS_SIDE_MAX,
        ensures
            a.atlas_width == atlas_size,
            a.atlas_height == atlas_size,
            a.cursor_x == 0,
            a.cursor_y == 0,
            a.row_height == 0,
            a.glyphs@ == Map::<u32, GlyphInfo>::empty(),
            a.font_size == font_size,
            atlas_wf(a),
    {
        proof {
            broadcast use vstd::std_specs::hash::group_hash_axioms;

        }
        FontAtlas {
            atlas_width: atlas_size,
            atlas_height: atlas_size,
            cursor_x: 0,
            cursor_y: 0,
            row_height: 0,
            glyphs: HashMapWithView::new(),
            font_size,
        }
    }

    /// The font size this atlas was sized for.
    pub fn font_size(&self) -> (r: u32)
        ensures
            r == self.font_size,
    {
        self.font_size
    }

    /// The cached glyph for a character, if it has been placed.
    pub fn cached_glyph(&self, ch: char) -> (r: Option<GlyphInfo>)
        ensures
            r matches Some(info) ==> self.glyphs@.contains_key(ch as u32) && info
                == self.glyphs@.index(ch as u32),
            r is None ==> !self.glyphs@.contains_key(ch as u32),
    {
        match self.glyphs.get(&(ch as u32)) {
            Some(info) => Some(*info),
            None => None,
        }
    }

    /// Place a freshly rasterized glyph into the atlas and cache it.
    ///
    /// An empty bitmap (a space) is cached with a zero-size UV rectangle
    /// and does not move the cursor. Otherwise the glyph goes at the
    /// cursor, wrapping to a new shelf row when the current one is too
    /// short; when even the new row would exceed the atlas height, the
    /// call fails with [`AtlasError::Full`] and changes nothing — only
    /// the offending glyph is lost. On success the returned pair gives
    /// the pixel position where the embedding must copy the bitmap.
    pub fn place_glyph(&mut self, ch: char, metrics: GlyphMetrics) -> (r: Result<
        (GlyphInfo, u32, u32),
        AtlasError,
    >)
        requires
            atlas_wf(*old(self)),
            !old(self).glyphs@.contains_key(ch as u32),
            0 <= metrics.width <= old(self).atlas_width,
            0 <= metrics.height <= ATLAS_SIDE_MAX,
            -0x10000000 <= metrics.advance <= 0x10000000,
        ensures
            r is Err <==> metrics.width > 0 && metrics.height > 0 && !atlas_fits(
                *old(self),
                metrics.width as int,
                metrics.height as int,
            ),
            r is Err ==> *final(self) == *old(self),
            r matches Ok((info, x, y)) ==> {
                &&& info.width == metrics.width
                &&& info.height == metrics.height
                &&& info.bearing_x == metrics.bearing_x
                &&& info.bearing_y == metrics.bearing_y
                &&& info.advance@ == (Q { n: metrics.advance as int, d: 64 })
                &&& final(self).glyphs@ == old(self).glyphs@.insert(ch as u32, info)
                &&& final(self).atlas_width == old(self).atlas_width
                &&& final(self).atlas_height == old(self).atlas_height
                &&& final(self).font_size == old(self).font_size
                &&& atlas_wf(*final(self))
                &&& if metrics.width == 0 || metrics.height == 0 {
                    // cached, cursor untouched, empty UV rectangle
                    &&& info.uv_x@ == q_int(0)
                    &&& info.uv_y@ == q_int(0)
                    &&& info.uv_width@ == q_int(0)
                    &&& info.uv_height@ == q_int(0)
                    &&& final(self).cursor_x == old(self).cursor_x
                    &&& final(self).cursor_y == old(self).cursor_y
                    &&& final(self).row_height == old(self).row_height
                    &&& x == 0 && y == 0
                } else {
                    // placed at the packing position, cursor advanced
                    &&& x == atlas_place_x(*old(self), metrics.width as int)
                    &&& y == atlas_place_y(*old(self), metrics.width as int)
                    &&& x + metrics.width <= old(self).atlas_width
                    &&& y + metrics.height <= old(self).atlas_height
                    &&& info.uv_x@ == (Q { n: x as int, d: old(self).atlas_width as int })
                    &&& info.uv_y@ == (Q { n: y as int, d: old(self).atlas_height as int })
                    &&& info.uv_width@ == (Q {
                        n: metrics.width as int,
                        d: old(self).atlas_width as int,
                    })
                    &&& info.uv_height@ == (Q {
                        n: metrics.height as int,
                        d: old(self).atlas_height as int,
                    })
                    &&& final(self).cursor_x == x + metrics.width + 1
                    &&& final(self).cursor_y == y
                    &&& final(self).row_height == vstd::math::max(
                        if atlas_wraps(*old(self), metrics.width as int) {
                            0
                        } else {
                            old(self).row_height as int
                        },
                        metrics.height as int,
                    )
                }
            },
    {
        let advance_px = Rat::new(metrics.advance, 64);
        if metrics.width == 0 || metrics.height == 0 {
            let info = GlyphInfo {
                uv_x: Rat::zero(),
                uv_y: Rat::zero(),
                uv_width: Rat::zero(),
                uv_height: Rat::zero(),
                width: metrics.width,
                height: metrics.height,
                bearing_x: metrics.bearing_x,
                bearing_y: metrics.bearing_y,
                advance: advance_px,
            };
            self.glyphs.insert(ch as u32, info);
            return Ok((info, 0, 0));
        }
        let w = metrics.width as u32;
        let h = metrics.height as u32;
        let wraps = self.cursor_x + w > self.atlas_width;
        let x = if wraps {
            0
        } else {
            self.cursor_x
        };
        let y = if wraps {
            self.cursor_y + self.row_height + 1
        } else {
            self.cursor_y
        };
        if y + h > self.atlas_height {
            return Err(AtlasError::Full);
        }
        let row_base = if wraps {
            0
        } else {
            self.row_height
        };
        let info = GlyphInfo {
            uv_x: Rat::new(x as i64, self.atlas_width as i64),
            uv_y: Rat::new(y as i64, self.atlas_height as i64),
            uv_width: Rat::new(w as i64, self.atlas_width as i64),
            uv_height: Rat::new(h as i64, self.atlas_height as i64),
            width: metrics.width,
            height: metrics.height,
            bearing_x: metrics.bearing_x,
            bearing_y: metrics.bearing_y,
            advance: advance_px,
        };
        self.glyphs.insert(ch as u32, info);
        self.cursor_x = x + w + 1;
        self.cursor_y = y;
        self.row_height = if row_base >= h {
            row_base
        } else {
            h
        };
        Ok((info, x, y))
    }

    /// The width of a string in pixels: the sum of the advances of its
    /// cached glyphs. Characters without a cached glyph contribute
    /// nothing. `None` when the exact sum is not representable.
    pub fn measure_text(&self, text: &str) -> (r: Option<Rat>)
        requires
            atlas_wf(*self),
        ensures
            r matches Some(v) ==> q_eq(v@, measure_spec(self.glyphs@, text@)) && rat_small(v)
                && measure_stored(self.glyphs@, text@) == Some(v@),
            r is None ==> measure_stored(self.glyphs@, text@) is None,
    {
        let n = text.unicode_len();
        let mut width = Rat::zero();
        let mut i: usize = 0;
        while i < n
            invariant
                atlas_wf(*self),
                i <= n,
                n == text@.len(),
                q_eq(width@, measure_spec(self.glyphs@, text@.take(i as int))),
                measure_stored(self.glyphs@, text@.take(i as int)) == Some(width@),
                rat_small(width),
            decreases n - i,
        {
            let ch = text.get_char(i);
            let ghost prefix = text@.take(i as int);
            let ghost prefix2 = text@.take(i as int + 1);
            proof {
                assert(prefix2.drop_last() =~= prefix);
                assert(prefix2.last() == text@[i as int]);
            }
            match self.cached_glyph(ch) {
                Some(info) => {
                    let next = match width.checked_add(info.advance) {
                        Some(v) => v,
                        None => {
                            proof {
                                assert(measure_stored(self.glyphs@, prefix2) is None);
                                lemma_measure_stored_none(self.glyphs@, text@, i as int + 1);
                            }
                            return None;
                        },
                    };
                    proof {
                        broadcast use vstd::arithmetic::mul::lemma_mul_nonzero;

                        crate::rat::lemma_q_add_congr(
                            width@,
                            measure_spec(self.glyphs@, prefix),
                            info.advance@,
                        );
                        crate::rat::lemma_q_eq_trans(
                            next@,
                            q_add(width@, info.advance@),
                            q_add(measure_spec(self.glyphs@, prefix), info.advance@),
                        );
                    }
                    width = next;
                },
                None => {
                },
            }
            i = i + 1;
        }
        proof {
            assert(text@.take(n as int) =~= text@);
        }
        Some(width)
    }
}

/// The outcome of the checked advance summation: each cached character
/// folds its advance in through [`stored`]; `Some` exactly when the
/// executable `measure_text` returns a width.
pub open spec fn measure_stored(m: Map<u32, GlyphInfo>, s: Seq<char>) -> Option<Q>
    decreases s.len(),
{
    if s.len() == 0 {
        Some(q_int(0))
    } else {
        match measure_stored(m, s.drop_last()) {
            Some(acc) => if m.contains_key(s.last() as u32) {
                stored(q_add(acc, m[s.last() as u32].advance@))
            } else {
                Some(acc)
            },
            None => None,
        }
    }
}

/// Once a prefix of the summation fails, the whole summation fails.
proof fn lemma_measure_stored_none(m: Map<u32, GlyphInfo>, s: Seq<char>, j: int)
    requires
        0 <= j <= s.len(),
        measure_stored(m, s.take(j)) is None,
    ensures
        measure_stored(m, s) is None,
    decreases s.len() - j,
{
    if j == s.len() {
        assert(s.take(j) =~= s);
    } else {
        assert(s.take(j + 1).drop_last() =~= s.take(j));
        lemma_measure_stored_none(m, s, j + 1);
    }
}

/// The exact width of a string under a glyph cache: the sum of the cached
/// advances, uncached characters contributing nothing.
pub open spec fn measure_spec(m: Map<u32, GlyphInfo>, s: Seq<char>) -> Q
    decreases s.len(),
{
    if s.len() == 0 {
        q_int(0)
    } else {
        let rest = measure_spec(m, s.drop_last());
        if m.contains_key(s.last() as u32) {
            q_add(rest, m[s.last() as u32].advance@)
        } else {
            rest
        }
    }
}

/// An owned registry of font atlases, keyed by a font identifier and a
/// pixel size; it replaces a process-wide cache, so sharing and clearing
/// are explicit.
pub struct FontRegistry {
    pub atlases: Vec<((u64, u32), FontAtlas)>,
}

impl FontRegistry {
    /// An empty registry.
    pub fn new() -> (r: FontRegistry)
        ensures
            r.atlases@.len() == 0,
    {
        FontRegistry { atlases: Vec::new() }
    }

    /// The index of the atlas for a font and size, if one is registered.
    pub fn find(&self, font_id: u64, font_size: u32) -> (r: Option<usize>)
        ensures
            r matches Some(i) ==> i < self.atlases@.len() && self.atlases@[i as int].0
                == (font_id, font_size),
            r is None ==> forall|i: int|
                0 <= i < self.atlases@.len() ==> (#[trigger] self.atlases@[i].0) != (
                font_id,
                font_size,
                ),
    {
        let n = self.atlases.len();
        let mut i: usize = 0;
        while i < n
            invariant
                i <= n,
                n == self.atlases@.len(),
                forall|j: int|
                    0 <= j < i ==> (#[trigger] self.atlases@[j].0) != (font_id, font_size),
            decreases n - i,
        {
            let key = self.atlases[i].0;
            if key.0 == font_id && key.1 == font_size {
                return Some(i);
            }
            i = i + 1;
        }
        None
    }

    /// Register an atlas under a font and size.
    pub fn insert(&mut self, font_id: u64, font_size: u32, atlas: FontAtlas)
        ensures
            final(self).atlases@ == old(self).atlases@.push(((font_id, font_size), atlas)),
    {
        self.atlases.push(((font_id, font_size), atlas));
    }
}

/// Release every cached font atlas. New text recreates atlases as needed.
pub fn clear_font_cache(registry: &mut FontRegistry)
    ensures
        final(registry).atlases@.len() == 0,
{
    registry.atlases = Vec::new();
}

} // verus!
