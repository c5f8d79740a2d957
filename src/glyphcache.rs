//! Shaped glyphs, rasterized glyphs, and the cache that places them in
//! the atlas.
use vstd::prelude::*;

use crate::atlas::{disjoint, within, Atlas, OutOfTextureSpace, Sprite};

verus! {

/// One glyph that shaping produced.  Lengths are in device pixels.
#[derive(Clone, Copy, Debug, PartialEq, Eq, Structural)]
pub struct GlyphInfo {
    /// Byte offset of the glyph's text in the shaped run.
    pub cluster: u32,
    /// Number of cells the glyph covers.
    pub num_cells: u8,
    /// Index of the font of the fallback list that supplied the glyph.
    pub font_idx: usize,
    /// Glyph id in that font.
    pub glyph_pos: u32,
    pub x_advance: i32,
    pub y_advance: i32,
    pub x_offset: i32,
    pub y_offset: i32,
}

/// A glyph as a rasterizer produced it: the size of its bitmap and where
/// the bitmap sits relative to the pen position.
#[derive(Clone, Copy, Debug, PartialEq, Eq, Structural)]
pub struct RasterizedGlyph {
    pub width: u32,
    pub height: u32,
    pub bearing_x: i32,
    pub bearing_y: i32,
    /// Set for glyphs with their own colors (emoji), which are not tinted.
    pub has_color: bool,
}

/// The glyph to cache after a rasterization attempt: the rasterized one,
/// or, when rasterization failed, an empty one that draws as blank.
pub fn raster_or_blank(outcome: Option<RasterizedGlyph>) -> (r: RasterizedGlyph)
    ensures
        outcome matches Some(g) ==> r == g,
        outcome is None ==> r.width == 0 && r.height == 0 && !r.has_color && r.bearing_x == 0
            && r.bearing_y == 0,
{
    match outcome {
        Some(g) => g,
        None => RasterizedGlyph { width: 0, height: 0, bearing_x: 0, bearing_y: 0, has_color: false },
    }
}

/// What the cache keeps of a glyph.  A glyph without pixels (a space)
/// has no texture.
#[derive(Clone, Copy, Debug, PartialEq, Eq, Structural)]
pub struct CachedGlyph {
    pub texture: Option<Sprite>,
    pub has_color: bool,
    pub bearing_x: i32,
    pub bearing_y: i32,
}

/// Identifies a glyph: the loaded font it came from (its slot in the font
/// cache), the fallback index within that font, and the glyph id.
#[derive(Clone, Copy, Debug, PartialEq, Eq, Structural)]
pub struct GlyphKey {
    pub font_id: usize,
    pub font_idx: usize,
    pub glyph_pos: u32,
}

pub open spec fn keys_unique<K, V>(s: Seq<(K, V)>) -> bool {
    forall|i: int, j: int| 0 <= i < j < s.len() ==> (#[trigger] s[i]).0 != (#[trigger] s[j]).0
}

/// The value stored under `k`, if any.
pub open spec fn lookup<K, V>(s: Seq<(K, V)>, k: K) -> Option<V> {
    if exists|i: int| 0 <= i < s.len() && (#[trigger] s[i]).0 == k {
        Some(s[choose|i: int| 0 <= i < s.len() && (#[trigger] s[i]).0 == k].1)
    } else {
        None
    }
}

pub proof fn lemma_lookup_push<K, V>(s: Seq<(K, V)>, k: K, v: V, q: K)
    requires
        keys_unique(s),
        lookup(s, k) is None,
    ensures
        keys_unique(s.push((k, v))),
        lookup(s.push((k, v)), q) == if q == k {
            Some(v)
        } else {
            lookup(s, q)
        },
{
    let t = s.push((k, v));
    assert forall|i: int, j: int| 0 <= i < j < t.len() implies (#[trigger] t[i]).0 != (
    #[trigger] t[j]).0 by {
        if j == s.len() {
            assert(t[i] == s[i]);
        } else {
            assert(t[i] == s[i] && t[j] == s[j]);
        }
    }
    if q == k {
        assert(t[s.len() as int].0 == k);
    } else if exists|i: int| 0 <= i < s.len() && (#[trigger] s[i]).0 == q {
        let i = choose|i: int| 0 <= i < s.len() && (#[trigger] s[i]).0 == q;
        assert(t[i] == s[i]);
        let j = choose|j: int| 0 <= j < t.len() && (#[trigger] t[j]).0 == q;
        assert(j < s.len());
        assert(t[j] == s[j]);
    } else {
        assert forall|i: int| 0 <= i < t.len() implies (#[trigger] t[i]).0 != q by {
            if i < s.len() {
                assert(t[i] == s[i]);
            }
        }
    }
}

/// Looks `k` up in a list of pairs with unique keys.
fn find_glyph(s: &Vec<(GlyphKey, CachedGlyph)>, k: GlyphKey) -> (r: Option<CachedGlyph>)
    requires
        keys_unique(s@),
    ensures
        r == lookup(s@, k),
{
    let mut i: usize = 0;
    while i < s.len()
        invariant
            i <= s.len(),
            keys_unique(s@),
            forall|j: int| 0 <= j < i ==> (#[trigger] s@[j]).0 != k,
        decreases s.len() - i,
    {
        if s[i].0 == k {
            proof {
                assert(s@[i as int].0 == k);
                let c = choose|j: int| 0 <= j < s@.len() && (#[trigger] s@[j]).0 == k;
                if c != i {
                    if c < i {
                        assert(s@[c].0 != s@[i as int].0);
                    } else {
                        assert(s@[i as int].0 != s@[c].0);
                    }
                }
            }
            return Some(s[i].1);
        }
        i = i + 1;
    }
    None
}

/// Looks `k` up in a list of pairs with unique keys.
fn find_image(s: &Vec<(u64, Sprite)>, k: u64) -> (r: Option<Sprite>)
    requires
        keys_unique(s@),
    ensures
        r == lookup(s@, k),
{
    let mut i: usize = 0;
    while i < s.len()
        invariant
            i <= s.len(),
            keys_unique(s@),
            forall|j: int| 0 <= j < i ==> (#[trigger] s@[j]).0 != k,
        decreases s.len() - i,
    {
        if s[i].0 == k {
            proof {
                assert(s@[i as int].0 == k);
                let c = choose|j: int| 0 <= j < s@.len() && (#[trigger] s@[j]).0 == k;
                if c != i {
                    if c < i {
                        assert(s@[c].0 != s@[i as int].0);
                    } else {
                        assert(s@[i as int].0 != s@[c].0);
                    }
                }
            }
            return Some(s[i].1);
        }
        i = i + 1;
    }
    None
}

/// Rasterized glyphs and images, placed in one atlas.
pub struct GlyphCache {
    glyphs: Vec<(GlyphKey, CachedGlyph)>,
    images: Vec<(u64, Sprite)>,
    atlas: Atlas,
    font_epoch: u64,
}

impl GlyphCache {
    pub closed spec fn spec_glyphs(&self) -> Seq<(GlyphKey, CachedGlyph)> {
        self.glyphs@
    }

    pub closed spec fn spec_images(&self) -> Seq<(u64, Sprite)> {
        self.images@
    }

    pub closed spec fn spec_atlas(&self) -> Atlas {
        self.atlas
    }

    /// The font cache epoch that the glyph entries' font ids belong to.
    pub closed spec fn spec_font_epoch(&self) -> u64 {
        self.font_epoch
    }

    /// Keys are unique, and every texture that an entry refers to is a
    /// rectangle that the atlas handed out: no two live entries share
    /// texels.
    pub closed spec fn wf(&self) -> bool {
        &&& self.atlas.wf()
        &&& keys_unique(self.glyphs@)
        &&& keys_unique(self.images@)
        &&& forall|i: int|
            0 <= i < self.glyphs@.len() ==> ((#[trigger] self.glyphs@[i]).1.texture matches Some(
                t,
            ) ==> self.atlas.spec_allocated().contains(t))
        &&& forall|i: int|
            0 <= i < self.images@.len() ==> self.atlas.spec_allocated().contains(
                (#[trigger] self.images@[i]).1,
            )
    }

    /// An empty cache over an empty `side` x `side` atlas.
    pub fn new(side: u32) -> (r: GlyphCache)
        ensures
            r.wf(),
            r.spec_glyphs().len() == 0,
            r.spec_images().len() == 0,
            r.spec_atlas().spec_side() == side,
            r.spec_atlas().spec_allocated().len() == 0,
    {
        GlyphCache { glyphs: Vec::new(), images: Vec::new(), atlas: Atlas::new(side), font_epoch: 0 }
    }

    /// Drops the glyph entries if the font cache was dropped since they
    /// were made (its epoch differs): their font ids may now name other
    /// fonts.  Images are kept.
    pub fn sync_font_epoch(&mut self, epoch: u64)
        requires
            old(self).wf(),
        ensures
            final(self).wf(),
            final(self).spec_font_epoch() == epoch,
            final(self).spec_images() == old(self).spec_images(),
            final(self).spec_atlas() == old(self).spec_atlas(),
            epoch == old(self).spec_font_epoch()
                ==> final(self).spec_glyphs() == old(self).spec_glyphs(),
            epoch != old(self).spec_font_epoch() ==> final(self).spec_glyphs().len() == 0,
    {
        if epoch != self.font_epoch {
            self.glyphs = Vec::new();
            self.font_epoch = epoch;
        }
    }

    /// Side of the atlas in texels.
    pub fn atlas_side(&self) -> (r: u32)
        ensures
            r == self.spec_atlas().spec_side(),
    {
        self.atlas.side()
    }

    /// The glyph entries that hold for font cache epoch `epoch`: all of
    /// them when they were made under it, none otherwise.
    pub open spec fn spec_live_glyphs(&self, epoch: u64) -> Seq<(GlyphKey, CachedGlyph)> {
        if epoch == self.spec_font_epoch() {
            self.spec_glyphs()
        } else {
            Seq::empty()
        }
    }

    /// The cached entry for `key` under font cache epoch `epoch`, if any;
    /// entries made under another epoch do not count.
    pub fn lookup_glyph(&self, epoch: u64, key: GlyphKey) -> (r: Option<CachedGlyph>)
        requires
            self.wf(),
        ensures
            r == lookup(self.spec_live_glyphs(epoch), key),
    {
        if epoch != self.font_epoch {
            return None;
        }
        find_glyph(&self.glyphs, key)
    }

    /// The entry for `key` under font cache epoch `epoch`: the cache first
    /// drops glyph entries made under another epoch, then returns the
    /// cached entry, or else one made from `raster`, whose bitmap is placed
    /// in the atlas.  Fails when the atlas has no room for the bitmap,
    /// leaving the live entries, the images and the atlas as they were.
    pub fn cached_glyph(&mut self, epoch: u64, key: GlyphKey, raster: &RasterizedGlyph) -> (r: Result<
        CachedGlyph,
        OutOfTextureSpace,
    >)
        requires
            old(self).wf(),
        ensures
            final(self).wf(),
            final(self).spec_font_epoch() == epoch,
            final(self).spec_atlas().spec_side() == old(self).spec_atlas().spec_side(),
            lookup(old(self).spec_live_glyphs(epoch), key) matches Some(g) ==> {
                &&& r == Ok::<CachedGlyph, OutOfTextureSpace>(g)
                &&& final(self).spec_glyphs() == old(self).spec_live_glyphs(epoch)
                &&& final(self).spec_images() == old(self).spec_images()
                &&& final(self).spec_atlas() == old(self).spec_atlas()
            },
            lookup(old(self).spec_live_glyphs(epoch), key) is None ==> {
                let empty = raster.width == 0 || raster.height == 0;
                &&& (r is Err <==> !empty && !old(self).spec_atlas().spec_fits(
                    raster.width,
                    raster.height,
                ))
                &&& r matches Err(e) ==> {
                    &&& final(self).spec_glyphs() == old(self).spec_live_glyphs(epoch)
                    &&& final(self).spec_images() == old(self).spec_images()
                    &&& final(self).spec_atlas() == old(self).spec_atlas()
                    &&& e.size == Atlas::spec_grown_side(
                        old(self).spec_atlas().spec_side(),
                        raster.width,
                        raster.height,
                    )
                }
                &&& r matches Ok(g) ==> {
                    &&& g.has_color == raster.has_color
                    &&& g.bearing_x == raster.bearing_x
                    &&& g.bearing_y == raster.bearing_y
                    &&& (empty ==> g.texture is None)
                    &&& (!empty ==> (g.texture matches Some(t) && t.width == raster.width
                        && t.height == raster.height))
                    &&& lookup(final(self).spec_live_glyphs(epoch), key) == Some(g)
                }
            },
    {
        self.sync_font_epoch(epoch);
        proof {
            assert(self.spec_glyphs() =~= old(self).spec_live_glyphs(epoch));
        }
        self.insert_glyph(key, raster)
    }

    fn find_entry(&self, key: GlyphKey) -> (r: Option<CachedGlyph>)
        requires
            self.wf(),
        ensures
            r == lookup(self.spec_glyphs(), key),
    {
        find_glyph(&self.glyphs, key)
    }

    fn insert_glyph(&mut self, key: GlyphKey, raster: &RasterizedGlyph) -> (r: Result<
        CachedGlyph,
        OutOfTextureSpace,
    >)
        requires
            old(self).wf(),
        ensures
            final(self).wf(),
            final(self).spec_atlas().spec_side() == old(self).spec_atlas().spec_side(),
            final(self).spec_font_epoch() == old(self).spec_font_epoch(),
            final(self).spec_images() == old(self).spec_images(),
            lookup(old(self).spec_glyphs(), key) matches Some(g) ==> r == Ok::<
                CachedGlyph,
                OutOfTextureSpace,
            >(g) && *final(self) == *old(self),
            lookup(old(self).spec_glyphs(), key) is None ==> {
                let empty = raster.width == 0 || raster.height == 0;
                &&& (r is Err <==> !empty && !old(self).spec_atlas().spec_fits(
                    raster.width,
                    raster.height,
                ))
                &&& r matches Err(e) ==> *final(self) == *old(self) && e.size
                    == Atlas::spec_grown_side(
                    old(self).spec_atlas().spec_side(),
                    raster.width,
                    raster.height,
                )
                &&& r matches Ok(g) ==> {
                    &&& g.has_color == raster.has_color
                    &&& g.bearing_x == raster.bearing_x
                    &&& g.bearing_y == raster.bearing_y
                    &&& (empty ==> g.texture is None)
                    &&& (!empty ==> (g.texture matches Some(t) && t.width == raster.width
                        && t.height == raster.height))
                    &&& lookup(final(self).spec_glyphs(), key) == Some(g)
                }
            },
    {
        if let Some(g) = self.find_entry(key) {
            return Ok(g);
        }
        let texture = if raster.width == 0 || raster.height == 0 {
            None
        } else {
            match self.atlas.allocate(raster.width, raster.height) {
                Ok(s) => Some(s),
                Err(e) => {
                    return Err(e);
                },
            }
        };
        let g = CachedGlyph {
            texture,
            has_color: raster.has_color,
            bearing_x: raster.bearing_x,
            bearing_y: raster.bearing_y,
        };
        let ghost before = self.glyphs@;
        proof {
            lemma_lookup_push(before, key, g, key);
        }
        self.glyphs.push((key, g));
        proof {
            let alloc = self.atlas.spec_allocated();
            assert forall|i: int| 0 <= i < self.glyphs@.len() implies ((
            #[trigger] self.glyphs@[i]).1.texture matches Some(t) ==> alloc.contains(t)) by {
                if i < before.len() {
                    assert(self.glyphs@[i] == before[i]);
                    if let Some(t) = before[i].1.texture {
                        let k = choose|k: int|
                            0 <= k < old(self).atlas.spec_allocated().len()
                                && old(self).atlas.spec_allocated()[k] == t;
                        assert(alloc[k] == t);
                    }
                } else {
                    if let Some(t) = g.texture {
                        assert(alloc[alloc.len() - 1] == t);
                    }
                }
            }
            assert forall|i: int| 0 <= i < self.images@.len() implies alloc.contains(
                (#[trigger] self.images@[i]).1,
            ) by {
                let t = self.images@[i].1;
                let k = choose|k: int|
                    0 <= k < old(self).atlas.spec_allocated().len()
                        && old(self).atlas.spec_allocated()[k] == t;
                assert(alloc[k] == t);
            }
        }
        Ok(g)
    }

    /// The atlas rectangle of image `image_id`, allocating a `width` x
    /// `height` one on first use.
    pub fn cached_image(&mut self, image_id: u64, width: u32, height: u32) -> (r: Result<
        Sprite,
        OutOfTextureSpace,
    >)
        requires
            old(self).wf(),
        ensures
            final(self).wf(),
            final(self).spec_atlas().spec_side() == old(self).spec_atlas().spec_side(),
            lookup(old(self).spec_images(), image_id) matches Some(s) ==> r == Ok::<
                Sprite,
                OutOfTextureSpace,
            >(s) && *final(self) == *old(self),
            lookup(old(self).spec_images(), image_id) is None ==> {
                &&& (r is Err <==> !old(self).spec_atlas().spec_fits(width, height))
                &&& r matches Err(e) ==> *final(self) == *old(self) && e.size
                    == Atlas::spec_grown_side(old(self).spec_atlas().spec_side(), width, height)
                &&& r matches Ok(s) ==> s.width == width && s.height == height && lookup(
                    final(self).spec_images(),
                    image_id,
                ) == Some(s)
            },
    {
        if let Some(s) = find_image(&self.images, image_id) {
            return Ok(s);
        }
        let s = match self.atlas.allocate(width, height) {
            Ok(s) => s,
            Err(e) => {
                return Err(e);
            },
        };
        let ghost before = self.images@;
        proof {
            lemma_lookup_push(before, image_id, s, image_id);
        }
        self.images.push((image_id, s));
        proof {
            let alloc = self.atlas.spec_allocated();
            assert forall|i: int| 0 <= i < self.glyphs@.len() implies ((
            #[trigger] self.glyphs@[i]).1.texture matches Some(t) ==> alloc.contains(t)) by {
                if let Some(t) = self.glyphs@[i].1.texture {
                    let k = choose|k: int|
                        0 <= k < old(self).atlas.spec_allocated().len()
                            && old(self).atlas.spec_allocated()[k] == t;
                    assert(alloc[k] == t);
                }
            }
            assert forall|i: int| 0 <= i < self.images@.len() implies alloc.contains(
                (#[trigger] self.images@[i]).1,
            ) by {
                if i < before.len() {
                    assert(self.images@[i] == before[i]);
                    let t = before[i].1;
                    let k = choose|k: int|
                        0 <= k < old(self).atlas.spec_allocated().len()
                            && old(self).atlas.spec_allocated()[k] == t;
                    assert(alloc[k] == t);
                } else {
                    assert(alloc[alloc.len() - 1] == s);
                }
            }
        }
        Ok(s)
    }
}

/// Why the atlas could not be recreated.
#[derive(Clone, Copy, Debug, PartialEq, Eq, Structural)]
pub enum AtlasError {
    /// The requested side exceeds what the drawing backend can hold.
    TooLarge { requested: u64, max_side: u32 },
}

/// Recreates `cache` with an empty atlas: of side `size` where one is
/// given, else of the current side.  Every cached entry is dropped, since
/// their rectangles are gone.  Fails, leaving the cache as it was, when
/// the side exceeds `max_side`, the largest the backend supports.
pub fn recreate_texture_atlas(cache: &mut GlyphCache, size: Option<u64>, max_side: u32) -> (r: Result<
    (),
    AtlasError,
>)
    requires
        old(cache).wf(),
    ensures
        final(cache).wf(),
        ({
            let side = match size {
                Some(s) => s,
                None => old(cache).spec_atlas().spec_side() as u64,
            };
            &&& (r is Err <==> side > max_side)
            &&& r is Err ==> *final(cache) == *old(cache)
            &&& r is Ok ==> {
                &&& final(cache).spec_atlas().spec_side() == side
                &&& final(cache).spec_glyphs().len() == 0
                &&& final(cache).spec_images().len() == 0
                &&& final(cache).spec_atlas().spec_allocated().len() == 0
            }
        }),
{
    let side: u64 = match size {
        Some(s) => s,
        None => cache.atlas_side() as u64,
    };
    if side > max_side as u64 {
        return Err(AtlasError::TooLarge { requested: side, max_side });
    }
    *cache = GlyphCache::new(side as u32);
    Ok(())
}

} // verus!
