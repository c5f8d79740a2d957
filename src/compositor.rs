//! The per-line compositor: from runs of attributed cells and their shaped
//! glyphs to one draw unit per physical cell.
use vstd::prelude::*;

use crate::atlas::Sprite;
use crate::attrs::{CellAttributes, ImageCell, Intensity, Underline, IMAGE_FRACTION_ONE};
use crate::cluster::{CellCluster, ClusterModel};
use crate::color::{
    lemma_bold_brightens,
    opaque_color,
    resolve_cell_colors,
    rgbcolor_to_window_color,
    spec_cell_colors,
    Color,
    ColorAttribute,
    ColorPalette,
};
use crate::config::Config;
use crate::cursor::{
    compute_cell_fg_bg,
    spec_cell_fg_bg,
    spec_is_cursor_cell,
    CursorOverlay,
    Selection,
};
use crate::glyphcache::{CachedGlyph, GlyphInfo};
use crate::style::{select_style, spec_match_style};

verus! {

/// Size of a cell and the font's descender, in pixels.
#[derive(Clone, Copy, Debug, PartialEq, Eq, Structural)]
pub struct RenderMetrics {
    pub cell_width: u16,
    pub cell_height: u16,
    pub descender: i32,
}

/// A shaped glyph together with its glyph cache entry.
#[derive(Clone, Copy, Debug, PartialEq, Eq, Structural)]
pub struct RenderGlyph {
    pub info: GlyphInfo,
    pub glyph: CachedGlyph,
}

/// The glyphs that shaping gave for one cell cluster, and the atlas
/// rectangle of the cluster's image where it has one that is cached.
#[derive(Clone, Debug)]
pub struct ShapedCluster {
    pub glyphs: Vec<RenderGlyph>,
    pub image: Option<Sprite>,
}

/// What a line is drawn against: where it is, how wide the screen is,
/// the cursor, the selection and the hyperlink under the pointer.
#[derive(Clone, Copy, Debug, PartialEq, Eq, Structural)]
pub struct LineContext {
    pub line_idx: usize,
    pub num_cols: usize,
    pub cursor: CursorOverlay,
    pub selection: Selection,
    pub highlight: Option<u64>,
    pub metrics: RenderMetrics,
}

/// What one physical cell shows.
#[derive(Clone, Copy, Debug, PartialEq, Eq, Structural)]
pub enum CellContent {
    /// Cell `slice` of a glyph that covers `num_cells` cells.  `left` and
    /// `top` place the glyph's bitmap relative to its first cell.
    Glyph {
        texture: Option<Sprite>,
        slice: u8,
        num_cells: u8,
        left: i64,
        top: i64,
        has_color: bool,
        underline: Underline,
        strikethrough: bool,
    },
    /// A part of a cached image, with the cell's underline and
    /// strikethrough drawn over it.
    Image { source: Sprite, underline: Underline, strikethrough: bool },
    /// Background only.
    Blank,
}

/// One draw unit: a physical cell, its final colors and its content.
#[derive(Clone, Copy, Debug, PartialEq, Eq, Structural)]
pub struct CellDraw {
    pub cell_idx: usize,
    pub fg: Color,
    pub bg: Color,
    pub content: CellContent,
}

/// Why a line could not be composed.
#[derive(Clone, Copy, Debug, PartialEq, Eq, Structural)]
pub enum RenderError {
    /// The shaping results do not line up with the clusters: their counts
    /// differ, or a glyph's byte offset lies outside its cluster.
    ShapingMismatch,
    /// The line does not lie within the quad buffer of the screen.
    ScreenSizeMismatch,
}

/// The cluster's hyperlink is the one under the pointer.
pub open spec fn spec_is_highlighted(attrs: CellAttributes, highlight: Option<u64>) -> bool {
    attrs.hyperlink is Some && attrs.hyperlink == highlight
}

/// The underline drawn: a highlighted hyperlink without an underline of
/// its own gets a single one.
pub open spec fn spec_effective_underline(highlighted: bool, underline: Underline) -> Underline {
    if highlighted && underline == Underline::Off {
        Underline::Single
    } else {
        underline
    }
}

/// Colors of a cluster before overlays, as window colors.
pub open spec fn spec_cluster_colors(
    config: Config,
    palette: ColorPalette,
    attrs: CellAttributes,
) -> (Color, Color) {
    let style = spec_match_style(config.font_rules@, config.font, attrs);
    let p = spec_cell_colors(attrs, style.foreground, palette);
    (opaque_color(p.0), opaque_color(p.1))
}

pub open spec fn frac_of(f: u32, len: u32) -> int {
    (f as int * len as int) / (IMAGE_FRACTION_ONE as int)
}

/// The part of image sprite `sprite` that an image cell shows, if the
/// cell's corners are well formed and the part is addressable.
pub open spec fn spec_image_source(cell: Option<ImageCell>, sprite: Option<Sprite>) -> Option<Sprite> {
    match (cell, sprite) {
        (Some(c), Some(s)) => {
            let x = s.x + frac_of(c.left, s.width);
            let y = s.y + frac_of(c.top, s.height);
            if c.wf() && x <= u32::MAX && y <= u32::MAX {
                Some(
                    Sprite {
                        x: x as u32,
                        y: y as u32,
                        width: (frac_of(c.right, s.width) - frac_of(c.left, s.width)) as u32,
                        height: (frac_of(c.bottom, s.height) - frac_of(c.top, s.height)) as u32,
                    },
                )
            } else {
                None
            }
        },
        _ => None,
    }
}

pub proof fn lemma_frac_bounds(a: u32, b: u32, len: u32)
    requires
        a <= b <= IMAGE_FRACTION_ONE,
    ensures
        0 <= frac_of(a, len) <= frac_of(b, len) <= len,
{
    assert(a as int * len as int <= b as int * len as int) by (nonlinear_arith)
        requires
            a <= b,
    ;
    assert(b as int * len as int <= IMAGE_FRACTION_ONE as int * len as int) by (nonlinear_arith)
        requires
            b <= IMAGE_FRACTION_ONE,
    ;
    assert((IMAGE_FRACTION_ONE as int * len as int) / (IMAGE_FRACTION_ONE as int) == len as int)
        by (nonlinear_arith);
    assert(0 <= frac_of(a, len) <= frac_of(b, len) <= len) by (nonlinear_arith)
        requires
            0 <= a as int * len as int <= b as int * len as int <= IMAGE_FRACTION_ONE as int
                * len as int,
            (IMAGE_FRACTION_ONE as int * len as int) / (IMAGE_FRACTION_ONE as int) == len as int,
            frac_of(a, len) == (a as int * len as int) / (IMAGE_FRACTION_ONE as int),
            frac_of(b, len) == (b as int * len as int) / (IMAGE_FRACTION_ONE as int),
    ;
}

fn frac(f: u32, len: u32) -> (r: u64)
    ensures
        r == frac_of(f, len),
{
    assert(f as int * len as int <= u32::MAX as int * u32::MAX as int) by (nonlinear_arith);
    (f as u64 * len as u64) / (IMAGE_FRACTION_ONE as u64)
}

/// The part of an image sprite that an image cell shows.
pub fn image_source(cell: Option<ImageCell>, sprite: Option<Sprite>) -> (r: Option<Sprite>)
    ensures
        r == spec_image_source(cell, sprite),
{
    match (cell, sprite) {
        (Some(c), Some(s)) => {
            if !(c.left <= c.right && c.right <= IMAGE_FRACTION_ONE && c.top <= c.bottom
                && c.bottom <= IMAGE_FRACTION_ONE) {
                return None;
            }
            proof {
                lemma_frac_bounds(c.left, c.right, s.width);
                lemma_frac_bounds(c.top, c.bottom, s.height);
            }
            let x = s.x as u64 + frac(c.left, s.width);
            let y = s.y as u64 + frac(c.top, s.height);
            if x > u32::MAX as u64 || y > u32::MAX as u64 {
                return None;
            }
            Some(
                Sprite {
                    x: x as u32,
                    y: y as u32,
                    width: (frac(c.right, s.width) - frac(c.left, s.width)) as u32,
                    height: (frac(c.bottom, s.height) - frac(c.top, s.height)) as u32,
                },
            )
        },
        _ => None,
    }
}

/// Number of cells a glyph starting at `start` and covering `n` cells
/// draws on a line `num_cols` wide: it stops at the line's end.
pub open spec fn spec_glyph_span(start: int, n: int, num_cols: int) -> int {
    if start >= num_cols {
        0
    } else if n <= num_cols - start {
        n
    } else {
        num_cols - start
    }
}

/// What cell `slice` of glyph `g` shows.
pub open spec fn spec_glyph_content(
    ctx: LineContext,
    attrs: CellAttributes,
    image: Option<Sprite>,
    g: RenderGlyph,
    slice: int,
) -> CellContent {
    match image {
        Some(source) => CellContent::Image {
            source,
            underline: spec_effective_underline(
                spec_is_highlighted(attrs, ctx.highlight),
                attrs.underline,
            ),
            strikethrough: attrs.strikethrough,
        },
        None => CellContent::Glyph {
            texture: g.glyph.texture,
            slice: slice as u8,
            num_cells: g.info.num_cells,
            left: (g.info.x_offset + g.glyph.bearing_x) as i64,
            top: (ctx.metrics.cell_height + ctx.metrics.descender - (g.info.y_offset
                + g.glyph.bearing_y)) as i64,
            has_color: g.glyph.has_color,
            underline: spec_effective_underline(
                spec_is_highlighted(attrs, ctx.highlight),
                attrs.underline,
            ),
            strikethrough: attrs.strikethrough,
        },
    }
}

/// The unit of physical cell `cell` with pre-overlay colors `colors`.
pub open spec fn spec_unit(
    ctx: LineContext,
    palette: ColorPalette,
    colors: (Color, Color),
    cell: int,
    content: CellContent,
) -> CellDraw {
    let c = cell as usize;
    let fb = spec_cell_fg_bg(
        spec_is_cursor_cell(ctx.cursor.position, ctx.line_idx, c),
        ctx.cursor.shows,
        ctx.selection.spec_contains(c),
        colors.0,
        colors.1,
        palette,
    );
    CellDraw { cell_idx: c, fg: fb.0, bg: fb.1, content }
}

/// Start column of glyph `g` in cluster `cl`.
pub open spec fn spec_glyph_start(cl: ClusterModel, g: RenderGlyph) -> int {
    cl.byte_to_cell_idx[g.info.cluster as int] as int
}

/// The units of one glyph: one per cell it covers, up to the line's end.
pub open spec fn spec_glyph_units(
    ctx: LineContext,
    palette: ColorPalette,
    cl: ClusterModel,
    colors: (Color, Color),
    image: Option<Sprite>,
    g: RenderGlyph,
) -> Seq<CellDraw> {
    let start = spec_glyph_start(cl, g);
    Seq::new(
        spec_glyph_span(start, g.info.num_cells as int, ctx.num_cols as int) as nat,
        |k: int|
            spec_unit(
                ctx,
                palette,
                colors,
                start + k,
                spec_glyph_content(ctx, cl.attrs, image, g, k),
            ),
    )
}

/// The units of the first `j` glyphs of a cluster.
pub open spec fn spec_cluster_units(
    ctx: LineContext,
    palette: ColorPalette,
    cl: ClusterModel,
    colors: (Color, Color),
    image: Option<Sprite>,
    glyphs: Seq<RenderGlyph>,
    j: int,
) -> Seq<CellDraw>
    decreases j,
{
    if j <= 0 {
        Seq::empty()
    } else {
        spec_cluster_units(ctx, palette, cl, colors, image, glyphs, j - 1) + spec_glyph_units(
            ctx,
            palette,
            cl,
            colors,
            image,
            glyphs[j - 1],
        )
    }
}

/// The units of the glyphs of cluster `i`.
pub open spec fn spec_whole_cluster_units(
    ctx: LineContext,
    config: Config,
    palette: ColorPalette,
    cl: ClusterModel,
    shaped: ShapedCluster,
) -> Seq<CellDraw> {
    spec_cluster_units(
        ctx,
        palette,
        cl,
        spec_cluster_colors(config, palette, cl.attrs),
        spec_image_source(cl.attrs.image, shaped.image),
        shaped.glyphs@,
        shaped.glyphs@.len() as int,
    )
}

/// The glyph units of the first `i` clusters.
pub open spec fn spec_line_glyph_units(
    ctx: LineContext,
    config: Config,
    palette: ColorPalette,
    clusters: Seq<ClusterModel>,
    shaped: Seq<ShapedCluster>,
    i: int,
) -> Seq<CellDraw>
    decreases i,
{
    if i <= 0 {
        Seq::empty()
    } else {
        spec_line_glyph_units(ctx, config, palette, clusters, shaped, i - 1)
            + spec_whole_cluster_units(ctx, config, palette, clusters[i - 1], shaped[i - 1])
    }
}

/// Some unit of `units` draws on column `k`.
pub open spec fn spec_covers(units: Seq<CellDraw>, k: int) -> bool {
    exists|i: int| 0 <= i < units.len() && (#[trigger] units[i]).cell_idx == k
}

/// Background-only units, in column order, for each of the first `n`
/// columns that no unit of `units` draws on.  Cursor and selection still
/// color them.
pub open spec fn spec_clear_units(
    ctx: LineContext,
    palette: ColorPalette,
    units: Seq<CellDraw>,
    n: int,
) -> Seq<CellDraw>
    decreases n,
{
    if n <= 0 {
        Seq::empty()
    } else {
        let prev = spec_clear_units(ctx, palette, units, n - 1);
        if spec_covers(units, n - 1) {
            prev
        } else {
            prev.push(
                spec_unit(
                    ctx,
                    palette,
                    (opaque_color(palette.foreground), opaque_color(palette.background)),
                    n - 1,
                    CellContent::Blank,
                ),
            )
        }
    }
}

/// Bound on how far a glyph bitmap is placed from its cell.
pub const MAX_GLYPH_OFFSET: i64 = 0x10_0000_0000;

/// The unit lies on the line, and its glyph offsets are bounded.
pub open spec fn spec_unit_in_range(u: CellDraw, num_cols: usize) -> bool {
    &&& u.cell_idx < num_cols
    &&& u.content matches CellContent::Glyph { left, top, .. } ==> -MAX_GLYPH_OFFSET <= left
        <= MAX_GLYPH_OFFSET && -MAX_GLYPH_OFFSET <= top <= MAX_GLYPH_OFFSET
}

/// Every glyph's byte offset lies in its cluster's table.
pub open spec fn spec_shaping_fits(clusters: Seq<ClusterModel>, shaped: Seq<ShapedCluster>) -> bool {
    &&& clusters.len() == shaped.len()
    &&& forall|i: int, j: int|
        0 <= i < clusters.len() && 0 <= j < shaped[i].glyphs@.len() ==> (
        #[trigger] shaped[i].glyphs@[j]).info.cluster < clusters[i].byte_to_cell_idx.len()
}

/// All units of a line.
pub open spec fn spec_compose_line(
    ctx: LineContext,
    config: Config,
    palette: ColorPalette,
    clusters: Seq<ClusterModel>,
    shaped: Seq<ShapedCluster>,
) -> Seq<CellDraw> {
    let units = spec_line_glyph_units(ctx, config, palette, clusters, shaped, clusters.len() as int);
    units + spec_clear_units(ctx, palette, units, ctx.num_cols as int)
}

pub open spec fn cluster_models(clusters: Seq<CellCluster>) -> Seq<ClusterModel> {
    clusters.map_values(|c: CellCluster| c@)
}

/// Whether every glyph's byte offset lies in its cluster's table.
pub fn shaping_fits(clusters: &Vec<CellCluster>, shaped: &Vec<ShapedCluster>) -> (r: bool)
    ensures
        r == spec_shaping_fits(cluster_models(clusters@), shaped@),
{
    let ghost models = cluster_models(clusters@);
    if clusters.len() != shaped.len() {
        return false;
    }
    let mut i: usize = 0;
    while i < clusters.len()
        invariant
            i <= clusters.len() == shaped.len(),
            models == cluster_models(clusters@),
            forall|a: int, j: int|
                0 <= a < i && 0 <= j < shaped@[a].glyphs@.len() ==> (
                #[trigger] shaped@[a].glyphs@[j]).info.cluster
                    < models[a].byte_to_cell_idx.len(),
        decreases clusters.len() - i,
    {
        let glyphs = &shaped[i].glyphs;
        let table_len = clusters[i].byte_to_cell_idx.len();
        let mut j: usize = 0;
        while j < glyphs.len()
            invariant
                i < clusters.len() == shaped.len(),
                glyphs == shaped@[i as int].glyphs,
                table_len == models[i as int].byte_to_cell_idx.len(),
                models == cluster_models(clusters@),
                j <= glyphs.len(),
                forall|b: int| 0 <= b < j ==> (#[trigger] glyphs@[b]).info.cluster < table_len,
            decreases glyphs.len() - j,
        {
            if glyphs[j].info.cluster as usize >= table_len {
                return false;
            }
            j = j + 1;
        }
        i = i + 1;
    }
    true
}

/// The unit of physical cell `cell`.
fn make_unit(
    ctx: &LineContext,
    palette: &ColorPalette,
    colors: (Color, Color),
    cell: usize,
    content: CellContent,
) -> (r: CellDraw)
    ensures
        r == spec_unit(*ctx, *palette, colors, cell as int, content),
{
    let (fg, bg) = compute_cell_fg_bg(
        ctx.line_idx,
        cell,
        &ctx.cursor,
        &ctx.selection,
        colors.0,
        colors.1,
        palette,
    );
    CellDraw { cell_idx: cell, fg, bg, content }
}

fn glyph_content(
    ctx: &LineContext,
    attrs: &CellAttributes,
    image: Option<Sprite>,
    g: &RenderGlyph,
    slice: u8,
) -> (r: CellContent)
    ensures
        r == spec_glyph_content(*ctx, *attrs, image, *g, slice as int),
{
    let highlighted = match attrs.hyperlink {
        Some(h) => match ctx.highlight {
            Some(c) => h == c,
            None => false,
        },
        None => false,
    };
    let underline = if highlighted && attrs.underline == Underline::Off {
        Underline::Single
    } else {
        attrs.underline
    };
    match image {
        Some(source) => CellContent::Image { source, underline, strikethrough: attrs.strikethrough },
        None => {
            CellContent::Glyph {
                texture: g.glyph.texture,
                slice,
                num_cells: g.info.num_cells,
                left: g.info.x_offset as i64 + g.glyph.bearing_x as i64,
                top: ctx.metrics.cell_height as i64 + ctx.metrics.descender as i64 - (
                g.info.y_offset as i64 + g.glyph.bearing_y as i64),
                has_color: g.glyph.has_color,
                underline,
                strikethrough: attrs.strikethrough,
            }
        },
    }
}

/// Composes a line: each glyph of each cluster is mapped back to its
/// starting cell and drawn on each cell it covers (stopping at the line's
/// end), with the overlays applied per cell; then every column that no
/// glyph covers is cleared.  Fails when the shaping results do not line up
/// with the clusters.
pub fn compose_line(
    ctx: &LineContext,
    config: &Config,
    palette: &ColorPalette,
    clusters: &Vec<CellCluster>,
    shaped: &Vec<ShapedCluster>,
) -> (r: Result<Vec<CellDraw>, RenderError>)
    requires
        palette.wf(),
    ensures
        r is Ok <==> spec_shaping_fits(cluster_models(clusters@), shaped@),
        r matches Ok(units) ==> units@ == spec_compose_line(
            *ctx,
            *config,
            *palette,
            cluster_models(clusters@),
            shaped@,
        ),
        r matches Ok(units) ==> forall|q: int|
            0 <= q < units@.len() ==> spec_unit_in_range(#[trigger] units@[q], ctx.num_cols),
{
    if !shaping_fits(clusters, shaped) {
        return Err(RenderError::ShapingMismatch);
    }
    let ghost models = cluster_models(clusters@);
    let mut out: Vec<CellDraw> = Vec::new();
    let mut i: usize = 0;
    while i < clusters.len()
        invariant
            palette.wf(),
            i <= clusters.len(),
            models == cluster_models(clusters@),
            spec_shaping_fits(models, shaped@),
            out@ == spec_line_glyph_units(*ctx, *config, *palette, models, shaped@, i as int),
            forall|q: int| 0 <= q < out@.len() ==> spec_unit_in_range(#[trigger] out@[q], ctx.num_cols),
        decreases clusters.len() - i,
    {
        let cl = &clusters[i];
        let sc = &shaped[i];
        let style = select_style(&config.font_rules, &config.font, &cl.attrs);
        let (fg, bg) = resolve_cell_colors(&cl.attrs, style.foreground, palette);
        let colors = (rgbcolor_to_window_color(fg), rgbcolor_to_window_color(bg));
        let image = image_source(cl.attrs.image, sc.image);
        let ghost before = out@;
        let ghost clm = models[i as int];
        proof {
            assert(clm == cl@);
            assert(colors == spec_cluster_colors(*config, *palette, cl.attrs));
        }
        let mut j: usize = 0;
        while j < sc.glyphs.len()
            invariant
                palette.wf(),
                i < clusters.len(),
                models == cluster_models(clusters@),
                spec_shaping_fits(models, shaped@),
                clm == models[i as int],
                clm == cl@,
                sc == shaped@[i as int],
                j <= sc.glyphs.len(),
                forall|q: int| 0 <= q < out@.len() ==> spec_unit_in_range(#[trigger] out@[q], ctx.num_cols),
                out@ == before + spec_cluster_units(
                    *ctx,
                    *palette,
                    clm,
                    colors,
                    image,
                    sc.glyphs@,
                    j as int,
                ),
            decreases sc.glyphs.len() - j,
        {
            let g = &sc.glyphs[j];
            proof {
                assert(sc.glyphs@[j as int].info.cluster < clm.byte_to_cell_idx.len());
            }
            let start = cl.byte_to_cell_idx[g.info.cluster as usize];
            let n = g.info.num_cells as usize;
            let span: usize = if start >= ctx.num_cols {
                0
            } else if n <= ctx.num_cols - start {
                n
            } else {
                ctx.num_cols - start
            };
            let ghost mid = out@;
            let mut k: usize = 0;
            while k < span
                invariant
                    palette.wf(),
                    clm == cl@,
                    k <= span,
                    span == spec_glyph_span(start as int, n as int, ctx.num_cols as int),
                    n == g.info.num_cells,
                    n <= 255,
                    start == spec_glyph_start(clm, *g),
                    span > 0 ==> start + span <= ctx.num_cols,
                    forall|q: int| 0 <= q < out@.len() ==> spec_unit_in_range(#[trigger] out@[q], ctx.num_cols),
                    out@ == mid + Seq::new(
                        k as nat,
                        |q: int|
                            spec_unit(
                                *ctx,
                                *palette,
                                colors,
                                start + q,
                                spec_glyph_content(*ctx, clm.attrs, image, *g, q),
                            ),
                    ),
                decreases span - k,
            {
                proof {
                    assert((k as u8) as int == k as int);
                }
                let content = glyph_content(ctx, &cl.attrs, image, g, k as u8);
                let unit = make_unit(ctx, palette, colors, start + k, content);
                let ghost f = |q: int|
                    spec_unit(
                        *ctx,
                        *palette,
                        colors,
                        start + q,
                        spec_glyph_content(*ctx, clm.attrs, image, *g, q),
                    );
                proof {
                    assert(unit == f(k as int));
                    assert(Seq::new((k + 1) as nat, f) =~= Seq::new(k as nat, f).push(f(k as int)));
                }
                out.push(unit);
                k = k + 1;
                proof {
                    assert(out@ =~= mid + Seq::new(
                        k as nat,
                        |q: int|
                            spec_unit(
                                *ctx,
                                *palette,
                                colors,
                                start + q,
                                spec_glyph_content(*ctx, clm.attrs, image, *g, q),
                            ),
                    ));
                }
            }
            proof {
                assert(out@ =~= before + spec_cluster_units(
                    *ctx,
                    *palette,
                    clm,
                    colors,
                    image,
                    sc.glyphs@,
                    j + 1,
                ));
            }
            j = j + 1;
        }
        i = i + 1;
        proof {
            assert(out@ =~= spec_line_glyph_units(*ctx, *config, *palette, models, shaped@, i as int));
        }
    }
    let ghost units = out@;
    let mut covered: Vec<bool> = Vec::new();
    let mut k: usize = 0;
    while k < ctx.num_cols
        invariant
            k <= ctx.num_cols,
            covered@ == Seq::new(k as nat, |q: int| false),
        decreases ctx.num_cols - k,
    {
        covered.push(false);
        k = k + 1;
        proof {
            assert(covered@ =~= Seq::new(k as nat, |q: int| false));
        }
    }
    let mut j: usize = 0;
    while j < out.len()
        invariant
            j <= out.len(),
            out@ == units,
            covered@.len() == ctx.num_cols,
            forall|q: int| 0 <= q < out@.len() ==> spec_unit_in_range(#[trigger] out@[q], ctx.num_cols),
            forall|c: int|
                0 <= c < ctx.num_cols ==> (#[trigger] covered@[c] <==> exists|i: int|
                    0 <= i < j && (#[trigger] units[i]).cell_idx == c),
        decreases out.len() - j,
    {
        let c = out[j].cell_idx;
        proof {
            assert(spec_unit_in_range(out@[j as int], ctx.num_cols));
        }
        covered.set(c, true);
        proof {
            assert forall|d: int| 0 <= d < ctx.num_cols implies (#[trigger] covered@[d] <==> exists|i: int|
                0 <= i < j + 1 && (#[trigger] units[i]).cell_idx == d) by {
                if d == c {
                    assert(units[j as int].cell_idx == d);
                } else {
                    if exists|i: int| 0 <= i < j + 1 && (#[trigger] units[i]).cell_idx == d {
                        let i = choose|i: int| 0 <= i < j + 1 && (#[trigger] units[i]).cell_idx == d;
                        assert(i != j);
                    }
                }
            }
        }
        j = j + 1;
    }
    let plain = (rgbcolor_to_window_color(palette.foreground), rgbcolor_to_window_color(palette.background));
    let mut c: usize = 0;
    while c < ctx.num_cols
        invariant
            palette.wf(),
            c <= ctx.num_cols,
            covered@.len() == ctx.num_cols,
            forall|d: int|
                0 <= d < ctx.num_cols ==> (#[trigger] covered@[d] <==> spec_covers(units, d)),
            plain == (opaque_color(palette.foreground), opaque_color(palette.background)),
            forall|q: int| 0 <= q < out@.len() ==> spec_unit_in_range(#[trigger] out@[q], ctx.num_cols),
            out@ == units + spec_clear_units(*ctx, *palette, units, c as int),
        decreases ctx.num_cols - c,
    {
        if !covered[c] {
            let unit = make_unit(ctx, palette, plain, c, CellContent::Blank);
            out.push(unit);
        }
        c = c + 1;
        proof {
            assert(out@ =~= units + spec_clear_units(*ctx, *palette, units, c as int));
        }
    }
    proof {
        assert(out@ =~= spec_compose_line(*ctx, *config, *palette, models, shaped@));
    }
    Ok(out)
}

/// A glyph that covers two cells draws on exactly the two cells from its
/// mapped start, and only on the first where the second lies past the
/// line's end.
pub proof fn lemma_double_width_glyph(
    ctx: LineContext,
    palette: ColorPalette,
    cl: ClusterModel,
    colors: (Color, Color),
    image: Option<Sprite>,
    g: RenderGlyph,
)
    requires
        g.info.num_cells == 2,
        g.info.cluster < cl.byte_to_cell_idx.len(),
    ensures
        ({
            let units = spec_glyph_units(ctx, palette, cl, colors, image, g);
            let start = cl.byte_to_cell_idx[g.info.cluster as int] as int;
            &&& start + 1 < ctx.num_cols ==> units.len() == 2 && units[0].cell_idx == start
                && units[1].cell_idx == start + 1
            &&& start + 1 == ctx.num_cols ==> units.len() == 1 && units[0].cell_idx == start
            &&& start >= ctx.num_cols ==> units.len() == 0
        }),
{
}

/// Composing an unchanged line against unchanged cursor, selection and
/// highlight state gives the same units again.
pub proof fn lemma_compose_idempotent(
    ctx: LineContext,
    config: Config,
    palette: ColorPalette,
    clusters: Seq<ClusterModel>,
    shaped: Seq<ShapedCluster>,
    first: Seq<CellDraw>,
    second: Seq<CellDraw>,
)
    requires
        first == spec_compose_line(ctx, config, palette, clusters, shaped),
        second == spec_compose_line(ctx, config, palette, clusters, shaped),
    ensures
        first == second,
{
}

pub proof fn lemma_clear_units_cover(
    ctx: LineContext,
    palette: ColorPalette,
    units: Seq<CellDraw>,
    n: int,
    k: int,
)
    requires
        0 <= k < n <= ctx.num_cols,
        !spec_covers(units, k),
    ensures
        spec_covers(spec_clear_units(ctx, palette, units, n), k),
    decreases n,
{
    let prev = spec_clear_units(ctx, palette, units, n - 1);
    if k < n - 1 {
        lemma_clear_units_cover(ctx, palette, units, n - 1, k);
        let i = choose|i: int| 0 <= i < prev.len() && (#[trigger] prev[i]).cell_idx == k;
        let cur = spec_clear_units(ctx, palette, units, n);
        assert(cur[i] == prev[i]);
    } else {
        let cur = spec_clear_units(ctx, palette, units, n);
        assert(cur[prev.len() as int].cell_idx == k);
    }
}

/// Every column of the line is drawn: by a glyph, or by a clear.
pub proof fn lemma_every_column_drawn(
    ctx: LineContext,
    config: Config,
    palette: ColorPalette,
    clusters: Seq<ClusterModel>,
    shaped: Seq<ShapedCluster>,
    k: int,
)
    requires
        0 <= k < ctx.num_cols,
    ensures
        spec_covers(spec_compose_line(ctx, config, palette, clusters, shaped), k),
{
    let units = spec_line_glyph_units(ctx, config, palette, clusters, shaped, clusters.len() as int);
    let all = spec_compose_line(ctx, config, palette, clusters, shaped);
    let clears = spec_clear_units(ctx, palette, units, ctx.num_cols as int);
    if spec_covers(units, k) {
        let i = choose|i: int| 0 <= i < units.len() && (#[trigger] units[i]).cell_idx == k;
        assert(all[i] == units[i]);
    } else {
        lemma_clear_units_cover(ctx, palette, units, ctx.num_cols as int, k);
        let i = choose|i: int| 0 <= i < clears.len() && (#[trigger] clears[i]).cell_idx == k;
        assert(all[units.len() + i] == clears[i]);
    }
}

/// The unit is not the showing cursor's cell and is not selected, so it
/// keeps the colors of its cluster.
pub open spec fn spec_plain_cell(ctx: LineContext, u: CellDraw) -> bool {
    &&& !(spec_is_cursor_cell(ctx.cursor.position, ctx.line_idx, u.cell_idx) && ctx.cursor.shows)
    &&& !ctx.selection.spec_contains(u.cell_idx)
}

pub proof fn lemma_cluster_units_colors(
    ctx: LineContext,
    palette: ColorPalette,
    cl: ClusterModel,
    colors: (Color, Color),
    image: Option<Sprite>,
    glyphs: Seq<RenderGlyph>,
    j: int,
    q: int,
)
    requires
        0 <= q < spec_cluster_units(ctx, palette, cl, colors, image, glyphs, j).len(),
        spec_plain_cell(ctx, spec_cluster_units(ctx, palette, cl, colors, image, glyphs, j)[q]),
    ensures
        ({
            let u = spec_cluster_units(ctx, palette, cl, colors, image, glyphs, j)[q];
            u.fg == colors.0 && u.bg == colors.1
        }),
    decreases j,
{
    if j > 0 {
        let prev = spec_cluster_units(ctx, palette, cl, colors, image, glyphs, j - 1);
        if q < prev.len() {
            lemma_cluster_units_colors(ctx, palette, cl, colors, image, glyphs, j - 1, q);
        }
    }
}

/// Unit `q` of cluster `i` stands in the line at the length of the units
/// of the clusters before it, plus `q`.
pub proof fn lemma_line_unit(
    ctx: LineContext,
    config: Config,
    palette: ColorPalette,
    clusters: Seq<ClusterModel>,
    shaped: Seq<ShapedCluster>,
    i: int,
    n: int,
    q: int,
)
    requires
        0 <= i < n,
        0 <= q < spec_whole_cluster_units(ctx, config, palette, clusters[i], shaped[i]).len(),
    ensures
        ({
            let off = spec_line_glyph_units(ctx, config, palette, clusters, shaped, i).len();
            let line = spec_line_glyph_units(ctx, config, palette, clusters, shaped, n);
            &&& off + q < line.len()
            &&& line[off + q] == spec_whole_cluster_units(
                ctx,
                config,
                palette,
                clusters[i],
                shaped[i],
            )[q]
        }),
    decreases n,
{
    if n > i + 1 {
        lemma_line_unit(ctx, config, palette, clusters, shaped, i, n - 1, q);
    }
}

/// A covered cell of cluster `i` that is neither the showing cursor's
/// cell nor selected has its cluster's colors: the resolved foreground
/// and background, swapped when the cluster is reversed.
pub proof fn lemma_line_unit_colors(
    ctx: LineContext,
    config: Config,
    palette: ColorPalette,
    clusters: Seq<ClusterModel>,
    shaped: Seq<ShapedCluster>,
    i: int,
    q: int,
)
    requires
        0 <= i < clusters.len(),
        clusters.len() == shaped.len(),
        0 <= q < spec_whole_cluster_units(ctx, config, palette, clusters[i], shaped[i]).len(),
        spec_plain_cell(
            ctx,
            spec_compose_line(ctx, config, palette, clusters, shaped)[spec_line_glyph_units(
                ctx,
                config,
                palette,
                clusters,
                shaped,
                i,
            ).len() + q],
        ),
    ensures
        ({
            let u = spec_compose_line(ctx, config, palette, clusters, shaped)[spec_line_glyph_units(
                ctx,
                config,
                palette,
                clusters,
                shaped,
                i,
            ).len() + q];
            (u.fg, u.bg) == spec_cluster_colors(config, palette, clusters[i].attrs)
        }),
{
    let n = clusters.len() as int;
    lemma_line_unit(ctx, config, palette, clusters, shaped, i, n, q);
    let off = spec_line_glyph_units(ctx, config, palette, clusters, shaped, i).len();
    let line = spec_line_glyph_units(ctx, config, palette, clusters, shaped, n);
    let all = spec_compose_line(ctx, config, palette, clusters, shaped);
    assert(all[off + q] == line[off + q]);
    let cl = clusters[i];
    lemma_cluster_units_colors(
        ctx,
        palette,
        cl,
        spec_cluster_colors(config, palette, cl.attrs),
        spec_image_source(cl.attrs.image, shaped[i].image),
        shaped[i].glyphs@,
        shaped[i].glyphs@.len() as int,
        q,
    );
}

/// Bold brightening as drawn: a covered, plain cell of a cluster whose
/// foreground is standard color `idx < 8` and which is not reversed gets
/// palette entry `idx + 8` as its foreground when bold, `idx` otherwise.
pub proof fn lemma_line_bold_brightens(
    ctx: LineContext,
    config: Config,
    palette: ColorPalette,
    clusters: Seq<ClusterModel>,
    shaped: Seq<ShapedCluster>,
    i: int,
    q: int,
    idx: u8,
)
    requires
        palette.wf(),
        0 <= i < clusters.len(),
        clusters.len() == shaped.len(),
        0 <= q < spec_whole_cluster_units(ctx, config, palette, clusters[i], shaped[i]).len(),
        clusters[i].attrs.foreground == ColorAttribute::PaletteIndex(idx),
        idx < 8,
        !clusters[i].attrs.reverse,
        spec_plain_cell(
            ctx,
            spec_compose_line(ctx, config, palette, clusters, shaped)[spec_line_glyph_units(
                ctx,
                config,
                palette,
                clusters,
                shaped,
                i,
            ).len() + q],
        ),
    ensures
        ({
            let u = spec_compose_line(ctx, config, palette, clusters, shaped)[spec_line_glyph_units(
                ctx,
                config,
                palette,
                clusters,
                shaped,
                i,
            ).len() + q];
            &&& clusters[i].attrs.intensity == Intensity::Bold ==> u.fg == opaque_color(
                palette.colors@[idx + 8],
            )
            &&& clusters[i].attrs.intensity != Intensity::Bold ==> u.fg == opaque_color(
                palette.colors@[idx as int],
            )
        }),
{
    lemma_line_unit_colors(ctx, config, palette, clusters, shaped, i, q);
    let a = clusters[i].attrs;
    lemma_bold_brightens(a, spec_match_style(config.font_rules@, config.font, a).foreground, palette, idx);
}

/// Reverse video as drawn: a covered, plain cell of a reversed cluster
/// gets as foreground the background, and as background the foreground,
/// that the same attributes without `reverse` resolve to (where both pick
/// a style with the same foreground); swapping back gives those colors.
pub proof fn lemma_line_reverse_swaps(
    ctx: LineContext,
    config: Config,
    palette: ColorPalette,
    clusters: Seq<ClusterModel>,
    shaped: Seq<ShapedCluster>,
    i: int,
    q: int,
)
    requires
        0 <= i < clusters.len(),
        clusters.len() == shaped.len(),
        0 <= q < spec_whole_cluster_units(ctx, config, palette, clusters[i], shaped[i]).len(),
        clusters[i].attrs.reverse,
        spec_match_style(config.font_rules@, config.font, clusters[i].attrs).foreground
            == spec_match_style(
            config.font_rules@,
            config.font,
            CellAttributes { reverse: false, ..clusters[i].attrs },
        ).foreground,
        spec_plain_cell(
            ctx,
            spec_compose_line(ctx, config, palette, clusters, shaped)[spec_line_glyph_units(
                ctx,
                config,
                palette,
                clusters,
                shaped,
                i,
            ).len() + q],
        ),
    ensures
        ({
            let u = spec_compose_line(ctx, config, palette, clusters, shaped)[spec_line_glyph_units(
                ctx,
                config,
                palette,
                clusters,
                shaped,
                i,
            ).len() + q];
            let plain = spec_cluster_colors(
                config,
                palette,
                CellAttributes { reverse: false, ..clusters[i].attrs },
            );
            &&& u.fg == plain.1 && u.bg == plain.0
            &&& (u.bg, u.fg) == plain
        }),
{
    lemma_line_unit_colors(ctx, config, palette, clusters, shaped, i, q);
}

/// The underline a cell shows, whether it draws a glyph or an image.
pub open spec fn spec_content_underline(c: CellContent) -> Option<Underline> {
    match c {
        CellContent::Glyph { underline, .. } => Some(underline),
        CellContent::Image { underline, .. } => Some(underline),
        CellContent::Blank => None,
    }
}

/// A covered cell of the hyperlink under the pointer gets a single
/// underline when it has none of its own, and keeps its own otherwise;
/// a cell outside that link keeps its own underline.  This holds for
/// image cells as for glyph cells.
pub proof fn lemma_highlight_underline(
    ctx: LineContext,
    attrs: CellAttributes,
    image: Option<Sprite>,
    g: RenderGlyph,
    slice: int,
)
    ensures
        ({
            let u = spec_content_underline(spec_glyph_content(ctx, attrs, image, g, slice));
            &&& spec_is_highlighted(attrs, ctx.highlight) && attrs.underline == Underline::Off
                ==> u == Some(Underline::Single)
            &&& !(spec_is_highlighted(attrs, ctx.highlight) && attrs.underline == Underline::Off)
                ==> u == Some(attrs.underline)
        }),
{
}

} // verus!
