//! The font cache: loaded fonts keyed by text style, invalidated when the
//! configuration generation or the scaling changes.
use vstd::prelude::*;

use crate::attrs::CellAttributes;
use crate::config::Config;
use crate::fontsearch::{search_fonts, spec_search_result, FontDataHandle, FontSearch, FontSources};
use crate::style::{select_style, spec_match_style, TextStyle, TextStyleModel};

verus! {

/// Metrics of a font at its resolved size, in pixels.
#[derive(Clone, Copy, Debug, PartialEq, Eq, Structural)]
pub struct FontMetrics {
    pub cell_width: i32,
    pub cell_height: i32,
    pub descender: i32,
    pub underline_thickness: i32,
    pub underline_position: i32,
}

/// A font stack resolved for one style: its handles (preferred fonts,
/// then fallbacks), which of their rasterizers exist, its metrics, and
/// the size and dpi it was built for.
#[derive(Debug)]
pub struct LoadedFont {
    style: TextStyle,
    handles: Vec<FontDataHandle>,
    rasterizers: Vec<bool>,
    metrics: FontMetrics,
    font_size_centipoints: u64,
    dpi: u64,
}

/// What the caller must do to rasterize a glyph: build the rasterizer
/// for handle `fallback` first when `construct` is set, then rasterize
/// glyph `glyph_pos` at the font's size and dpi.
#[derive(Clone, Copy, Debug, PartialEq, Eq, Structural)]
pub struct RasterRequest {
    pub fallback: usize,
    pub construct: bool,
    pub glyph_pos: u32,
    pub font_size_centipoints: u64,
    pub dpi: u64,
}

/// Errors of the font cache.
#[derive(Clone, Copy, Debug, PartialEq, Eq, Structural)]
pub enum FontError {
    /// The fallback index names no handle of the font.
    NoSuchFallback(usize),
    /// The font id names no loaded font.
    NoSuchFont(usize),
}

impl LoadedFont {
    pub closed spec fn spec_style(&self) -> TextStyleModel {
        self.style@
    }

    pub closed spec fn spec_handles(&self) -> Seq<FontDataHandle> {
        self.handles@
    }

    /// Which rasterizers have been built.
    pub closed spec fn spec_rasterizers(&self) -> Seq<bool> {
        self.rasterizers@
    }

    pub closed spec fn spec_metrics(&self) -> FontMetrics {
        self.metrics
    }

    pub closed spec fn spec_font_size(&self) -> u64 {
        self.font_size_centipoints
    }

    pub closed spec fn spec_dpi(&self) -> u64 {
        self.dpi
    }

    /// One rasterizer slot per handle.
    pub open spec fn wf(&self) -> bool {
        self.spec_rasterizers().len() == self.spec_handles().len()
    }

    pub fn metrics(&self) -> (r: FontMetrics)
        ensures
            r == self.spec_metrics(),
    {
        self.metrics
    }

    /// Number of handles: preferred fonts and fallbacks.
    pub fn num_handles(&self) -> (r: usize)
        ensures
            r == self.spec_handles().len(),
    {
        self.handles.len()
    }

    /// The handle of fallback index `idx`.
    pub fn handle(&self, idx: usize) -> (r: &FontDataHandle)
        requires
            idx < self.spec_handles().len(),
        ensures
            *r == self.spec_handles()[idx as int],
    {
        &self.handles[idx]
    }

    /// Plans the rasterization of glyph `glyph_pos` with the font of
    /// fallback index `fallback`: the caller builds the rasterizer of that
    /// index first when `construct` is set, that is, until it has reported
    /// one built with `rasterizer_built`.
    pub fn rasterize_glyph(&self, glyph_pos: u32, fallback: usize) -> (r: Result<
        RasterRequest,
        FontError,
    >)
        requires
            self.wf(),
        ensures
            r is Err <==> fallback >= self.spec_handles().len(),
            r matches Err(e) ==> e == FontError::NoSuchFallback(fallback),
            r matches Ok(req) ==> {
                &&& req.fallback == fallback
                &&& req.glyph_pos == glyph_pos
                &&& req.construct == !self.spec_rasterizers()[fallback as int]
                &&& req.font_size_centipoints == self.spec_font_size()
                &&& req.dpi == self.spec_dpi()
            },
    {
        if fallback >= self.rasterizers.len() {
            return Err(FontError::NoSuchFallback(fallback));
        }
        Ok(
            RasterRequest {
                fallback,
                construct: !self.rasterizers[fallback],
                glyph_pos,
                font_size_centipoints: self.font_size_centipoints,
                dpi: self.dpi,
            },
        )
    }

    /// Records that the rasterizer of fallback index `fallback` was built,
    /// so that it is not built again.
    pub fn rasterizer_built(&mut self, fallback: usize) -> (r: Result<(), FontError>)
        requires
            old(self).wf(),
        ensures
            final(self).wf(),
            final(self).spec_handles() == old(self).spec_handles(),
            final(self).spec_style() == old(self).spec_style(),
            final(self).spec_metrics() == old(self).spec_metrics(),
            final(self).spec_font_size() == old(self).spec_font_size(),
            final(self).spec_dpi() == old(self).spec_dpi(),
            r is Err <==> fallback >= old(self).spec_handles().len(),
            r matches Err(e) ==> e == FontError::NoSuchFallback(fallback)
                && final(self).spec_rasterizers() == old(self).spec_rasterizers(),
            r is Ok ==> final(self).spec_rasterizers() == old(self).spec_rasterizers().update(
                fallback as int,
                true,
            ),
    {
        if fallback >= self.rasterizers.len() {
            return Err(FontError::NoSuchFallback(fallback));
        }
        self.rasterizers.set(fallback, true);
        Ok(())
    }
}

/// The outcome of a cache lookup: the id of the cached font, or the
/// search that a miss ran, whose faces the caller loads and passes to
/// `FontConfiguration::insert_font`.
#[derive(Debug)]
pub enum FontResolution {
    Cached(usize),
    Miss(FontSearch),
}

/// Loads fonts by style, caching them for the current configuration
/// generation and scale.
#[derive(Debug)]
pub struct FontConfiguration {
    fonts: Vec<LoadedFont>,
    metrics: Option<FontMetrics>,
    dpi_scale_permille: u32,
    font_scale_permille: u32,
    config_generation: u64,
    epoch: u64,
}

pub open spec fn styles_unique(fonts: Seq<LoadedFont>) -> bool {
    forall|i: int, j: int|
        0 <= i < j < fonts.len() ==> (#[trigger] fonts[i]).spec_style() != (
        #[trigger] fonts[j]).spec_style()
}

/// Index of the cached font of style `s`, if any.
pub open spec fn spec_find_style(fonts: Seq<LoadedFont>, s: TextStyleModel) -> Option<int> {
    if exists|i: int| 0 <= i < fonts.len() && (#[trigger] fonts[i]).spec_style() == s {
        Some(choose|i: int| 0 <= i < fonts.len() && (#[trigger] fonts[i]).spec_style() == s)
    } else {
        None
    }
}

/// The font size for a configured size and a scale in thousandths.
pub open spec fn spec_scaled_size(size_centipoints: u32, scale_permille: u32) -> u64 {
    (size_centipoints as int * scale_permille as int / 1000) as u64
}

impl FontConfiguration {
    pub closed spec fn spec_fonts(&self) -> Seq<LoadedFont> {
        self.fonts@
    }

    pub closed spec fn spec_metrics(&self) -> Option<FontMetrics> {
        self.metrics
    }

    pub closed spec fn spec_generation(&self) -> u64 {
        self.config_generation
    }

    pub closed spec fn spec_font_scale(&self) -> u32 {
        self.font_scale_permille
    }

    /// The dpi scale, in thousandths.
    pub closed spec fn spec_dpi_scale(&self) -> u32 {
        self.dpi_scale_permille
    }

    /// Changes whenever the cache is dropped, so that font ids handed out
    /// before can be told from those handed out after.
    pub closed spec fn spec_epoch(&self) -> u64 {
        self.epoch
    }

    /// The current epoch.
    pub fn epoch(&self) -> (r: u64)
        ensures
            r == self.spec_epoch(),
    {
        self.epoch
    }

    fn next_epoch(&mut self)
        ensures
            final(self).spec_epoch() != old(self).spec_epoch(),
            final(self).spec_fonts() == old(self).spec_fonts(),
            final(self).spec_metrics() == old(self).spec_metrics(),
            final(self).spec_generation() == old(self).spec_generation(),
            final(self).spec_font_scale() == old(self).spec_font_scale(),
            final(self).spec_dpi_scale() == old(self).spec_dpi_scale(),
    {
        self.epoch = if self.epoch == u64::MAX {
            0
        } else {
            self.epoch + 1
        };
    }

    /// Styles are unique, and every font has one rasterizer slot per
    /// handle.
    pub open spec fn wf(&self) -> bool {
        &&& styles_unique(self.spec_fonts())
        &&& forall|i: int| 0 <= i < self.spec_fonts().len() ==> (#[trigger] self.spec_fonts()[i]).wf()
    }

    /// An empty cache for configuration generation `generation`, at font
    /// and dpi scale 1.
    pub fn new(generation: u64) -> (r: FontConfiguration)
        ensures
            r.wf(),
            r.spec_fonts().len() == 0,
            r.spec_metrics() is None,
            r.spec_generation() == generation,
            r.spec_font_scale() == 1000,
            r.spec_dpi_scale() == 1000,
    {
        FontConfiguration {
            fonts: Vec::new(),
            metrics: None,
            dpi_scale_permille: 1000,
            font_scale_permille: 1000,
            config_generation: generation,
            epoch: 0,
        }
    }

    /// The font scale, in thousandths.
    pub fn get_font_scale(&self) -> (r: u32)
        ensures
            r == self.spec_font_scale(),
    {
        self.font_scale_permille
    }

    /// Changes the scaling and drops every cached font and the cached
    /// default metrics: a scale change invalidates everything derived.
    pub fn change_scaling(&mut self, font_scale_permille: u32, dpi_scale_permille: u32)
        ensures
            final(self).wf(),
            final(self).spec_fonts().len() == 0,
            final(self).spec_metrics() is None,
            final(self).spec_font_scale() == font_scale_permille,
            final(self).spec_dpi_scale() == dpi_scale_permille,
            final(self).spec_generation() == old(self).spec_generation(),
            final(self).spec_epoch() != old(self).spec_epoch(),
    {
        self.next_epoch();
        self.dpi_scale_permille = dpi_scale_permille;
        self.font_scale_permille = font_scale_permille;
        self.fonts = Vec::new();
        self.metrics = None;
    }

    /// Drops the cache if `config` is of another generation than the one
    /// the cache was filled under.
    fn check_generation(&mut self, config: &Config)
        requires
            old(self).wf(),
        ensures
            final(self).wf(),
            final(self).spec_generation() == config.generation,
            final(self).spec_font_scale() == old(self).spec_font_scale(),
            final(self).spec_dpi_scale() == old(self).spec_dpi_scale(),
            old(self).spec_generation() == config.generation ==> *final(self) == *old(self),
            old(self).spec_generation() != config.generation ==> final(self).spec_fonts().len()
                == 0 && final(self).spec_metrics() is None
                && final(self).spec_epoch() != old(self).spec_epoch(),
    {
        if self.config_generation != config.generation {
            self.next_epoch();
            self.fonts = Vec::new();
            self.metrics = None;
            self.config_generation = config.generation;
        }
    }

    fn find_style(&self, style: &TextStyle) -> (r: Option<usize>)
        requires
            self.wf(),
        ensures
            r matches Some(i) ==> spec_find_style(self.spec_fonts(), style@) == Some(i as int),
            r is None ==> spec_find_style(self.spec_fonts(), style@) is None,
    {
        let mut i: usize = 0;
        while i < self.fonts.len()
            invariant
                self.wf(),
                i <= self.fonts.len(),
                forall|j: int| 0 <= j < i ==> (#[trigger] self.fonts@[j]).spec_style() != style@,
            decreases self.fonts.len() - i,
        {
            if self.fonts[i].style.eq(style) {
                proof {
                    assert(self.fonts@[i as int].spec_style() == style@);
                    let c = choose|j: int|
                        0 <= j < self.fonts@.len() && (#[trigger] self.fonts@[j]).spec_style()
                            == style@;
                    if c != i {
                        if c < i {
                            assert(self.fonts@[c].spec_style() != self.fonts@[i as int].spec_style());
                        } else {
                            assert(self.fonts@[i as int].spec_style() != self.fonts@[c].spec_style());
                        }
                    }
                }
                return Some(i);
            }
            i = i + 1;
        }
        None
    }

    /// Looks `style` up.  The cache is first dropped if the configuration
    /// generation changed since it was filled.  On a hit, the id of the
    /// cached font; on a miss, the search for the style's fonts.
    pub fn resolve_font(&mut self, config: &Config, style: &TextStyle, sources: &FontSources) -> (r:
        FontResolution)
        requires
            old(self).wf(),
        ensures
            final(self).wf(),
            final(self).spec_generation() == config.generation,
            final(self).spec_font_scale() == old(self).spec_font_scale(),
            final(self).spec_dpi_scale() == old(self).spec_dpi_scale(),
            old(self).spec_generation() == config.generation ==> *final(self) == *old(self),
            old(self).spec_generation() != config.generation ==> final(self).spec_fonts().len()
                == 0 && final(self).spec_metrics() is None
                && final(self).spec_epoch() != old(self).spec_epoch(),
            r matches FontResolution::Cached(i) ==> spec_find_style(final(self).spec_fonts(), style@)
                == Some(i as int),
            r is Miss <==> spec_find_style(final(self).spec_fonts(), style@) is None,
            r matches FontResolution::Miss(search) ==> spec_search_result(
                config.font.font@,
                style.font@,
                *sources,
                search,
            ),
    {
        self.check_generation(config);
        match self.find_style(style) {
            Some(i) => FontResolution::Cached(i),
            None => FontResolution::Miss(search_fonts(&config.font.font, &style.font, sources)),
        }
    }

    /// Caches the font of `style`, built from the handles that a search
    /// found and the metrics of that stack, at the current scale, and
    /// returns its id.  A style that is cached already keeps its entry.
    pub fn insert_font(
        &mut self,
        config: &Config,
        style: &TextStyle,
        handles: Vec<FontDataHandle>,
        metrics: FontMetrics,
    ) -> (r: usize)
        requires
            old(self).wf(),
        ensures
            final(self).wf(),
            final(self).spec_generation() == config.generation,
            r < final(self).spec_fonts().len(),
            final(self).spec_fonts()[r as int].spec_style() == style@,
            spec_find_style(final(self).spec_fonts(), style@) == Some(r as int),
            old(self).spec_generation() == config.generation && spec_find_style(
                old(self).spec_fonts(),
                style@,
            ) is None ==> {
                let f = final(self).spec_fonts()[r as int];
                &&& final(self).spec_fonts() == old(self).spec_fonts().push(f)
                &&& f.spec_handles() == handles@
                &&& f.spec_metrics() == metrics
                &&& f.spec_rasterizers() == Seq::new(handles@.len(), |i: int| false)
                &&& f.spec_font_size() == spec_scaled_size(
                    config.font_size_centipoints,
                    old(self).spec_font_scale(),
                )
                &&& f.spec_dpi() == old(self).spec_dpi_scale() as int * config.dpi as int / 1000
            },
            old(self).spec_generation() == config.generation
                ==> final(self).spec_metrics() == old(self).spec_metrics(),
            old(self).spec_generation() != config.generation ==> final(self).spec_metrics() is None,
    {
        self.check_generation(config);
        if let Some(i) = self.find_style(style) {
            return i;
        }
        let mut rasterizers: Vec<bool> = Vec::new();
        let mut k: usize = 0;
        while k < handles.len()
            invariant
                k <= handles.len(),
                rasterizers@ == Seq::new(k as nat, |i: int| false),
            decreases handles.len() - k,
        {
            rasterizers.push(false);
            k = k + 1;
            proof {
                assert(rasterizers@ =~= Seq::new(k as nat, |i: int| false));
            }
        }
        assert(config.font_size_centipoints as int * self.font_scale_permille as int <= u32::MAX as int
            * u32::MAX as int) by (nonlinear_arith);
        let font_size = (config.font_size_centipoints as u64) * (self.font_scale_permille as u64)
            / 1000;
        assert(self.dpi_scale_permille as int * config.dpi as int <= u32::MAX as int * u32::MAX as int)
            by (nonlinear_arith);
        let dpi = (self.dpi_scale_permille as u64 * config.dpi as u64) / 1000;
        let font = LoadedFont {
            style: style_clone(style),
            handles,
            rasterizers,
            metrics,
            font_size_centipoints: font_size,
            dpi,
        };
        let ghost before = self.fonts@;
        self.fonts.push(font);
        proof {
            let n = before.len() as int;
            assert(self.fonts@[n].spec_style() == style@);
            assert forall|i: int, j: int| 0 <= i < j < self.fonts@.len() implies (
            #[trigger] self.fonts@[i]).spec_style() != (#[trigger] self.fonts@[j]).spec_style() by {
                if j == n {
                    assert(self.fonts@[i] == before[i]);
                    assert(before[i].spec_style() != style@);
                } else {
                    assert(self.fonts@[i] == before[i] && self.fonts@[j] == before[j]);
                }
            }
            assert forall|i: int| 0 <= i < self.fonts@.len() implies (
            #[trigger] self.fonts@[i]).wf() by {
                if i < n {
                    assert(self.fonts@[i] == before[i]);
                }
            }
        }
        self.fonts.len() - 1
    }

    /// The loaded font with id `id`.
    pub fn font(&self, id: usize) -> (r: Result<&LoadedFont, FontError>)
        ensures
            r is Err <==> id >= self.spec_fonts().len(),
            r matches Ok(f) ==> *f == self.spec_fonts()[id as int],
            r matches Err(e) ==> e == FontError::NoSuchFont(id),
    {
        if id < self.fonts.len() {
            Ok(&self.fonts[id])
        } else {
            Err(FontError::NoSuchFont(id))
        }
    }

    /// Plans the rasterization of a glyph of loaded font `id`.
    pub fn rasterize_glyph(&self, id: usize, glyph_pos: u32, fallback: usize) -> (r: Result<
        RasterRequest,
        FontError,
    >)
        requires
            self.wf(),
        ensures
            id >= self.spec_fonts().len() ==> r == Err::<RasterRequest, FontError>(
                FontError::NoSuchFont(id),
            ),
            id < self.spec_fonts().len() ==> {
                let f = self.spec_fonts()[id as int];
                &&& (r is Err <==> fallback >= f.spec_handles().len())
                &&& r matches Ok(req) ==> req.construct == !f.spec_rasterizers()[fallback as int]
                    && req.fallback == fallback && req.glyph_pos == glyph_pos
                    && req.font_size_centipoints == f.spec_font_size() && req.dpi == f.spec_dpi()
            },
    {
        if id >= self.fonts.len() {
            return Err(FontError::NoSuchFont(id));
        }
        self.fonts[id].rasterize_glyph(glyph_pos, fallback)
    }

    /// Records that the rasterizer of fallback index `fallback` of loaded
    /// font `id` was built, so that later plans do not build it again.
    pub fn rasterizer_built(&mut self, id: usize, fallback: usize) -> (r: Result<(), FontError>)
        requires
            old(self).wf(),
        ensures
            final(self).wf(),
            final(self).spec_fonts().len() == old(self).spec_fonts().len(),
            final(self).spec_generation() == old(self).spec_generation(),
            final(self).spec_epoch() == old(self).spec_epoch(),
            final(self).spec_metrics() == old(self).spec_metrics(),
            id >= old(self).spec_fonts().len() ==> r == Err::<(), FontError>(FontError::NoSuchFont(id))
                && final(self).spec_fonts() == old(self).spec_fonts(),
            id < old(self).spec_fonts().len() ==> {
                let f = old(self).spec_fonts()[id as int];
                let g = final(self).spec_fonts()[id as int];
                &&& (r is Err <==> fallback >= f.spec_handles().len())
                &&& r is Err ==> final(self).spec_fonts() == old(self).spec_fonts()
                &&& r is Ok ==> g.spec_rasterizers() == f.spec_rasterizers().update(fallback as int, true)
                &&& g.spec_handles() == f.spec_handles()
                &&& g.spec_style() == f.spec_style()
                &&& g.spec_font_size() == f.spec_font_size()
                &&& g.spec_dpi() == f.spec_dpi()
                &&& forall|i: int|
                    0 <= i < old(self).spec_fonts().len() && i != id ==> final(self).spec_fonts()[i]
                        == old(self).spec_fonts()[i]
            },
    {
        if id >= self.fonts.len() {
            return Err(FontError::NoSuchFont(id));
        }
        if fallback >= self.fonts[id].rasterizers.len() {
            return Err(FontError::NoSuchFallback(fallback));
        }
        let ghost before = self.fonts@;
        let r = self.fonts[id].rasterizer_built(fallback);
        proof {
            assert forall|i: int, j: int| 0 <= i < j < self.fonts@.len() implies (
            #[trigger] self.fonts@[i]).spec_style() != (#[trigger] self.fonts@[j]).spec_style() by {
                assert(before[i].spec_style() != before[j].spec_style());
            }
            assert forall|i: int| 0 <= i < self.fonts@.len() implies (
            #[trigger] self.fonts@[i]).wf() by {
                if i != id {
                    assert(self.fonts@[i] == before[i]);
                }
            }
        }
        r
    }

    /// Picks the style for a cell from the configuration's rules; the
    /// first rule whose set predicates all hold wins, and the default
    /// style is used where none does.
    pub fn match_style<'a>(&self, config: &'a Config, attrs: &CellAttributes) -> (r: &'a TextStyle)
        ensures
            *r == spec_match_style(config.font_rules@, config.font, *attrs),
    {
        select_style(&config.font_rules, &config.font, attrs)
    }

    /// Metrics of the default font under the generation of `config`.  The
    /// cache is first dropped if the generation changed since it was
    /// filled, so that stale metrics are never returned.  Then: the cached
    /// metrics, else those of the loaded default font, which are cached;
    /// `None` while the default font is not loaded under this generation.
    pub fn default_font_metrics(&mut self, config: &Config) -> (r: Option<FontMetrics>)
        requires
            old(self).wf(),
        ensures
            final(self).wf(),
            final(self).spec_generation() == config.generation,
            final(self).spec_font_scale() == old(self).spec_font_scale(),
            final(self).spec_dpi_scale() == old(self).spec_dpi_scale(),
            old(self).spec_generation() != config.generation ==> {
                &&& r is None
                &&& final(self).spec_fonts().len() == 0
                &&& final(self).spec_metrics() is None
                &&& final(self).spec_epoch() != old(self).spec_epoch()
            },
            old(self).spec_generation() == config.generation ==> {
                &&& final(self).spec_fonts() == old(self).spec_fonts()
                &&& final(self).spec_epoch() == old(self).spec_epoch()
                &&& old(self).spec_metrics() matches Some(m) ==> r == Some(m)
                &&& old(self).spec_metrics() is None ==> {
                    &&& (r is Some <==> spec_find_style(old(self).spec_fonts(), config.font@) is Some)
                    &&& r matches Some(m) ==> m == old(self).spec_fonts()[spec_find_style(
                        old(self).spec_fonts(),
                        config.font@,
                    )->Some_0].spec_metrics() && final(self).spec_metrics() == Some(m)
                }
            },
    {
        self.check_generation(config);
        if let Some(m) = self.metrics {
            return Some(m);
        }
        match self.find_style(&config.font) {
            Some(i) => {
                let m = self.fonts[i].metrics;
                self.metrics = Some(m);
                Some(m)
            },
            None => None,
        }
    }
}

/// Copies a style, keeping its value.
pub fn style_clone(s: &TextStyle) -> (r: TextStyle)
    ensures
        r@ == s@,
{
    let mut font: Vec<crate::style::FontAttributes> = Vec::new();
    let mut i: usize = 0;
    while i < s.font.len()
        invariant
            i <= s.font.len(),
            font@.len() == i,
            forall|j: int| 0 <= j < i ==> (#[trigger] font@[j])@ == s.font@[j]@,
        decreases s.font.len() - i,
    {
        font.push(crate::style::clone_font_attributes(&s.font[i]));
        i = i + 1;
    }
    proof {
        assert(font@.map_values(|a: crate::style::FontAttributes| a@) =~= s.font@.map_values(
            |a: crate::style::FontAttributes| a@,
        ));
    }
    TextStyle { font, foreground: s.foreground }
}

} // verus!
