//! The two drawing backends: immediate draw calls for the software
//! renderer and per-cell quads for the GPU renderer.  Both draw the units
//! that the compositor produced.
use vstd::prelude::*;

use crate::atlas::Sprite;
use crate::attrs::Underline;
use crate::cluster::CellCluster;
use crate::color::{opaque_color, rgbcolor_to_window_color, Color, ColorPalette};
use crate::compositor::{
    cluster_models,
    compose_line,
    spec_compose_line,
    spec_line_glyph_units,
    spec_plain_cell,
    spec_cluster_colors,
    spec_whole_cluster_units,
    spec_shaping_fits,
    CellContent,
    CellDraw,
    LineContext,
    spec_unit_in_range,
    RenderError,
    ShapedCluster,
};
use crate::config::{Config, WindowPadding};
use crate::style::spec_match_style;

verus! {

/// How a bitmap is combined with what is under it.
#[derive(Clone, Copy, Debug, PartialEq, Eq, Structural)]
pub enum DrawOp {
    /// Drawn as it is (images, color glyphs).
    Over,
    /// Tinted with the color, then drawn over the background.
    MultiplyThenOver(Color),
}

/// The line sprites that the software renderer draws.
#[derive(Clone, Copy, Debug, PartialEq, Eq, Structural)]
pub enum UtilSprite {
    SingleUnderline,
    DoubleUnderline,
    StrikeThrough,
}

/// One draw call of the software renderer.  Positions are in window
/// pixels.
#[derive(Clone, Copy, Debug, PartialEq, Eq, Structural)]
pub enum Primitive {
    ClearRect { x: i64, y: i64, width: i64, height: i64, color: Color },
    Decoration { x: i64, y: i64, sprite: UtilSprite, op: DrawOp },
    /// Cell `slice` of a glyph bitmap that covers `num_cells` cells.
    GlyphSlice { x: i64, y: i64, texture: Sprite, slice: u8, num_cells: u8, op: DrawOp },
    ImagePart { x: i64, y: i64, source: Sprite },
}

/// The combined underline and strikethrough sprite of a GPU quad.
#[derive(Clone, Copy, Debug, PartialEq, Eq, Structural)]
pub enum LineSprite {
    Blank,
    Single,
    Double,
    Strike,
    SingleStrike,
    DoubleStrike,
}

/// What a GPU quad samples.
#[derive(Clone, Copy, Debug, PartialEq, Eq, Structural)]
pub enum QuadTexture {
    Glyph { texture: Sprite, slice: u8, num_cells: u8 },
    Image(Sprite),
    WhiteSpace,
}

/// The vertex attributes of the quad of one cell.
#[derive(Clone, Copy, Debug, PartialEq, Eq, Structural)]
pub struct Quad {
    pub cell_idx: usize,
    pub fg: Color,
    pub bg: Color,
    pub texture: QuadTexture,
    pub left: i64,
    pub top: i64,
    pub underline: LineSprite,
    pub has_color: bool,
}

pub open spec fn spec_line_sprite(underline: Underline, strikethrough: bool) -> LineSprite {
    match (underline, strikethrough) {
        (Underline::Off, false) => LineSprite::Blank,
        (Underline::Single, false) => LineSprite::Single,
        (Underline::Double, false) => LineSprite::Double,
        (Underline::Off, true) => LineSprite::Strike,
        (Underline::Single, true) => LineSprite::SingleStrike,
        (Underline::Double, true) => LineSprite::DoubleStrike,
    }
}

/// The line sprite for an underline style and a strikethrough flag.
pub fn select_line_sprite(underline: Underline, strikethrough: bool) -> (r: LineSprite)
    ensures
        r == spec_line_sprite(underline, strikethrough),
{
    match (underline, strikethrough) {
        (Underline::Off, false) => LineSprite::Blank,
        (Underline::Single, false) => LineSprite::Single,
        (Underline::Double, false) => LineSprite::Double,
        (Underline::Off, true) => LineSprite::Strike,
        (Underline::Single, true) => LineSprite::SingleStrike,
        (Underline::Double, true) => LineSprite::DoubleStrike,
    }
}

/// The quad of one unit.
pub open spec fn spec_unit_quad(u: CellDraw) -> Quad {
    match u.content {
        CellContent::Glyph {
            texture,
            slice,
            num_cells,
            left,
            top,
            has_color,
            underline,
            strikethrough,
        } => Quad {
            cell_idx: u.cell_idx,
            fg: u.fg,
            bg: u.bg,
            texture: match texture {
                Some(t) => QuadTexture::Glyph { texture: t, slice, num_cells },
                None => QuadTexture::WhiteSpace,
            },
            left: if slice == 0 {
                left
            } else {
                0
            },
            top,
            underline: spec_line_sprite(underline, strikethrough),
            has_color,
        },
        CellContent::Image { source, underline, strikethrough } => Quad {
            cell_idx: u.cell_idx,
            fg: u.fg,
            bg: u.bg,
            texture: QuadTexture::Image(source),
            left: 0,
            top: 0,
            underline: spec_line_sprite(underline, strikethrough),
            has_color: true,
        },
        CellContent::Blank => Quad {
            cell_idx: u.cell_idx,
            fg: u.fg,
            bg: u.bg,
            texture: QuadTexture::WhiteSpace,
            left: 0,
            top: 0,
            underline: LineSprite::Blank,
            has_color: false,
        },
    }
}

/// The quad of one unit.
pub fn unit_quad(u: &CellDraw) -> (r: Quad)
    ensures
        r == spec_unit_quad(*u),
{
    match u.content {
        CellContent::Glyph {
            texture,
            slice,
            num_cells,
            left,
            top,
            has_color,
            underline,
            strikethrough,
        } => Quad {
            cell_idx: u.cell_idx,
            fg: u.fg,
            bg: u.bg,
            texture: match texture {
                Some(t) => QuadTexture::Glyph { texture: t, slice, num_cells },
                None => QuadTexture::WhiteSpace,
            },
            left: if slice == 0 {
                left
            } else {
                0
            },
            top,
            underline: select_line_sprite(underline, strikethrough),
            has_color,
        },
        CellContent::Image { source, underline, strikethrough } => Quad {
            cell_idx: u.cell_idx,
            fg: u.fg,
            bg: u.bg,
            texture: QuadTexture::Image(source),
            left: 0,
            top: 0,
            underline: select_line_sprite(underline, strikethrough),
            has_color: true,
        },
        CellContent::Blank => Quad {
            cell_idx: u.cell_idx,
            fg: u.fg,
            bg: u.bg,
            texture: QuadTexture::WhiteSpace,
            left: 0,
            top: 0,
            underline: LineSprite::Blank,
            has_color: false,
        },
    }
}

/// The quads of a line's units, one per unit, in order.
pub fn emit_quads(units: &Vec<CellDraw>) -> (r: Vec<Quad>)
    ensures
        r@ == units@.map_values(|u: CellDraw| spec_unit_quad(u)),
{
    let mut out: Vec<Quad> = Vec::new();
    let mut i: usize = 0;
    while i < units.len()
        invariant
            i <= units.len(),
            out@ == units@.subrange(0, i as int).map_values(|u: CellDraw| spec_unit_quad(u)),
        decreases units.len() - i,
    {
        out.push(unit_quad(&units[i]));
        i = i + 1;
        proof {
            assert(out@ =~= units@.subrange(0, i as int).map_values(|u: CellDraw| spec_unit_quad(u)));
        }
    }
    proof {
        assert(units@.subrange(0, units@.len() as int) =~= units@);
    }
    out
}

/// Geometry of the software renderer's target.
#[derive(Clone, Copy, Debug, PartialEq, Eq, Structural)]
pub struct SurfaceGeometry {
    pub cell_width: u16,
    pub cell_height: u16,
    pub padding: WindowPadding,
    /// Width of the window in pixels.
    pub pixel_width: u32,
}

/// Top-left pixel of a cell.
pub open spec fn spec_cell_origin(geo: SurfaceGeometry, line_idx: usize, cell_idx: usize) -> (i64, i64) {
    (
        (cell_idx * geo.cell_width + geo.padding.left) as i64,
        (line_idx * geo.cell_height + geo.padding.top) as i64,
    )
}

/// The underline and strikethrough of a cell, tinted with `fg`.
pub open spec fn spec_decorations(x: i64, y: i64, fg: Color, underline: Underline, strikethrough: bool) -> Seq<
    Primitive,
> {
    let tint = DrawOp::MultiplyThenOver(fg);
    let under = match underline {
        Underline::Off => Seq::empty(),
        Underline::Single => seq![
            Primitive::Decoration { x, y, sprite: UtilSprite::SingleUnderline, op: tint },
        ],
        Underline::Double => seq![
            Primitive::Decoration { x, y, sprite: UtilSprite::DoubleUnderline, op: tint },
        ],
    };
    let strike = if strikethrough {
        seq![Primitive::Decoration { x, y, sprite: UtilSprite::StrikeThrough, op: tint }]
    } else {
        Seq::empty()
    };
    under + strike
}

fn push_decorations(out: &mut Vec<Primitive>, x: i64, y: i64, fg: Color, underline: Underline, strikethrough: bool)
    ensures
        final(out)@ == old(out)@ + spec_decorations(x, y, fg, underline, strikethrough),
{
    let tint = DrawOp::MultiplyThenOver(fg);
    match underline {
        Underline::Off => {},
        Underline::Single => {
            out.push(Primitive::Decoration { x, y, sprite: UtilSprite::SingleUnderline, op: tint });
        },
        Underline::Double => {
            out.push(Primitive::Decoration { x, y, sprite: UtilSprite::DoubleUnderline, op: tint });
        },
    }
    if strikethrough {
        out.push(Primitive::Decoration { x, y, sprite: UtilSprite::StrikeThrough, op: tint });
    }
    proof {
        assert(final(out)@ =~= old(out)@ + spec_decorations(x, y, fg, underline, strikethrough));
    }
}

/// The draw calls of one unit: the background, then the underline and
/// strikethrough, then the glyph slice or the image part.
pub open spec fn spec_unit_prims(geo: SurfaceGeometry, line_idx: usize, u: CellDraw) -> Seq<
    Primitive,
> {
    let (x, y) = spec_cell_origin(geo, line_idx, u.cell_idx);
    let clear = Primitive::ClearRect {
        x,
        y,
        width: geo.cell_width as i64,
        height: geo.cell_height as i64,
        color: u.bg,
    };
    match u.content {
        CellContent::Blank => seq![clear],
        CellContent::Image { source, underline, strikethrough } => seq![clear] + spec_decorations(
            x,
            y,
            u.fg,
            underline,
            strikethrough,
        ) + seq![Primitive::ImagePart { x, y, source }],
        CellContent::Glyph {
            texture,
            slice,
            num_cells,
            left,
            top,
            has_color,
            underline,
            strikethrough,
        } => {
            let tint = DrawOp::MultiplyThenOver(u.fg);
            let glyph = match texture {
                Some(t) => seq![
                    Primitive::GlyphSlice {
                        x: (x + if slice == 0 {
                            left
                        } else {
                            0
                        }) as i64,
                        y: (y + top) as i64,
                        texture: t,
                        slice,
                        num_cells,
                        op: if has_color {
                            DrawOp::Over
                        } else {
                            tint
                        },
                    },
                ],
                None => Seq::empty(),
            };
            seq![clear] + spec_decorations(x, y, u.fg, underline, strikethrough) + glyph
        },
    }
}

/// The draw calls of the first `n` units.
pub open spec fn spec_units_prims(geo: SurfaceGeometry, line_idx: usize, units: Seq<CellDraw>, n: int) -> Seq<
    Primitive,
>
    decreases n,
{
    if n <= 0 {
        Seq::empty()
    } else {
        spec_units_prims(geo, line_idx, units, n - 1) + spec_unit_prims(geo, line_idx, units[n - 1])
    }
}

/// The fill of the margin right of the last column.
pub open spec fn spec_margin_rect(geo: SurfaceGeometry, line_idx: usize, num_cols: usize, color: Color) -> Primitive {
    let cells_right = geo.padding.left + num_cols * geo.cell_width;
    Primitive::ClearRect {
        x: cells_right as i64,
        y: (line_idx * geo.cell_height + geo.padding.top) as i64,
        width: (if geo.pixel_width > cells_right {
            geo.pixel_width - cells_right
        } else {
            0
        }) as i64,
        height: geo.cell_height as i64,
        color,
    }
}

/// Positions that stay far from the limits of `i64`.
pub open spec fn spec_geometry_fits(line_idx: usize, num_cols: usize) -> bool {
    line_idx <= u32::MAX && num_cols <= u32::MAX
}

fn unit_prims(geo: &SurfaceGeometry, line_idx: usize, u: &CellDraw, out: &mut Vec<Primitive>)
    requires
        line_idx <= u32::MAX,
        u.cell_idx <= u32::MAX,
        spec_unit_in_range(*u, (u.cell_idx + 1) as usize),
    ensures
        final(out)@ == old(out)@ + spec_unit_prims(*geo, line_idx, *u),
{
    assert(u.cell_idx * geo.cell_width <= u32::MAX as int * 0xffff) by (nonlinear_arith)
        requires
            u.cell_idx <= u32::MAX,
            geo.cell_width <= 0xffff,
    ;
    assert(line_idx * geo.cell_height <= u32::MAX as int * 0xffff) by (nonlinear_arith)
        requires
            line_idx <= u32::MAX,
            geo.cell_height <= 0xffff,
    ;
    let x = (u.cell_idx as i64) * (geo.cell_width as i64) + geo.padding.left as i64;
    let y = (line_idx as i64) * (geo.cell_height as i64) + geo.padding.top as i64;
    out.push(
        Primitive::ClearRect {
            x,
            y,
            width: geo.cell_width as i64,
            height: geo.cell_height as i64,
            color: u.bg,
        },
    );
    match u.content {
        CellContent::Blank => {},
        CellContent::Image { source, underline, strikethrough } => {
            push_decorations(out, x, y, u.fg, underline, strikethrough);
            out.push(Primitive::ImagePart { x, y, source });
        },
        CellContent::Glyph {
            texture,
            slice,
            num_cells,
            left,
            top,
            has_color,
            underline,
            strikethrough,
        } => {
            let tint = DrawOp::MultiplyThenOver(u.fg);
            push_decorations(out, x, y, u.fg, underline, strikethrough);
            if let Some(t) = texture {
                let dx: i64 = if slice == 0 {
                    left
                } else {
                    0
                };
                out.push(
                    Primitive::GlyphSlice {
                        x: x + dx,
                        y: y + top,
                        texture: t,
                        slice,
                        num_cells,
                        op: if has_color {
                            DrawOp::Over
                        } else {
                            tint
                        },
                    },
                );
            }
        },
    }
    proof {
        assert(final(out)@ =~= old(out)@ + spec_unit_prims(*geo, line_idx, *u));
    }
}

/// The software renderer's draw calls for a line's units, followed by
/// the fill of the margin right of the last column.
pub open spec fn spec_software_prims(
    geo: SurfaceGeometry,
    line_idx: usize,
    num_cols: usize,
    margin_color: Color,
    units: Seq<CellDraw>,
) -> Seq<Primitive> {
    spec_units_prims(geo, line_idx, units, units.len() as int).push(
        spec_margin_rect(geo, line_idx, num_cols, margin_color),
    )
}

/// The software renderer's draw calls for a line's units.
pub fn emit_software(
    geo: &SurfaceGeometry,
    line_idx: usize,
    num_cols: usize,
    margin_color: Color,
    units: &Vec<CellDraw>,
) -> (r: Vec<Primitive>)
    requires
        spec_geometry_fits(line_idx, num_cols),
        forall|q: int| 0 <= q < units@.len() ==> spec_unit_in_range(#[trigger] units@[q], num_cols),
    ensures
        r@ == spec_software_prims(*geo, line_idx, num_cols, margin_color, units@),
{
    let mut out: Vec<Primitive> = Vec::new();
    let mut i: usize = 0;
    while i < units.len()
        invariant
            i <= units.len(),
            spec_geometry_fits(line_idx, num_cols),
            forall|q: int| 0 <= q < units@.len() ==> spec_unit_in_range(#[trigger] units@[q], num_cols),
            out@ == spec_units_prims(*geo, line_idx, units@, i as int),
        decreases units.len() - i,
    {
        proof {
            assert(spec_unit_in_range(units@[i as int], num_cols));
        }
        unit_prims(geo, line_idx, &units[i], &mut out);
        i = i + 1;
    }
    assert(num_cols * geo.cell_width <= u32::MAX as int * 0xffff) by (nonlinear_arith)
        requires
            num_cols <= u32::MAX,
            geo.cell_width <= 0xffff,
    ;
    assert(line_idx * geo.cell_height <= u32::MAX as int * 0xffff) by (nonlinear_arith)
        requires
            line_idx <= u32::MAX,
            geo.cell_height <= 0xffff,
    ;
    let cells_right: u64 = geo.padding.left as u64 + (num_cols as u64) * (geo.cell_width as u64);
    let width: u64 = if geo.pixel_width as u64 > cells_right {
        geo.pixel_width as u64 - cells_right
    } else {
        0
    };
    out.push(
        Primitive::ClearRect {
            x: cells_right as i64,
            y: (line_idx as i64) * (geo.cell_height as i64) + geo.padding.top as i64,
            width: width as i64,
            height: geo.cell_height as i64,
            color: margin_color,
        },
    );
    out
}

/// Renders a line with the software renderer: composes it, then turns
/// each unit into draw calls and fills the margin right of the last
/// column with the palette's background.  Fails on a line index or width
/// past 32 bits, whose pixel positions would not be representable.
pub fn render_screen_line(
    geo: &SurfaceGeometry,
    ctx: &LineContext,
    config: &Config,
    palette: &ColorPalette,
    clusters: &Vec<CellCluster>,
    shaped: &Vec<ShapedCluster>,
) -> (r: Result<Vec<Primitive>, RenderError>)
    requires
        palette.wf(),
    ensures
        !spec_geometry_fits(ctx.line_idx, ctx.num_cols) ==> r == Err::<Vec<Primitive>, RenderError>(
            RenderError::ScreenSizeMismatch,
        ),
        spec_geometry_fits(ctx.line_idx, ctx.num_cols) ==> (r is Ok <==> spec_shaping_fits(
            cluster_models(clusters@),
            shaped@,
        )),
        r matches Ok(prims) ==> prims@ == spec_software_prims(
            *geo,
            ctx.line_idx,
            ctx.num_cols,
            opaque_color(palette.background),
            spec_compose_line(*ctx, *config, *palette, cluster_models(clusters@), shaped@),
        ),
        r is Ok ==> forall|q: int|
            0 <= q < spec_compose_line(*ctx, *config, *palette, cluster_models(clusters@), shaped@).len()
                ==> spec_unit_in_range(
                #[trigger] spec_compose_line(
                    *ctx,
                    *config,
                    *palette,
                    cluster_models(clusters@),
                    shaped@,
                )[q],
                ctx.num_cols,
            ),
{
    if ctx.line_idx > u32::MAX as usize || ctx.num_cols > u32::MAX as usize {
        return Err(RenderError::ScreenSizeMismatch);
    }
    let units = match compose_line(ctx, config, palette, clusters, shaped) {
        Ok(units) => units,
        Err(e) => {
            return Err(e);
        },
    };
    Ok(
        emit_software(
            geo,
            ctx.line_idx,
            ctx.num_cols,
            rgbcolor_to_window_color(palette.background),
            &units,
        ),
    )
}

/// The range of quads that line `line_idx` occupies in a buffer of
/// `buffer_len` quads, `num_cols` per line; an error when the line lies
/// outside the buffer.
pub fn line_quad_range(line_idx: usize, num_cols: usize, buffer_len: usize) -> (r: Result<
    (usize, usize),
    RenderError,
>)
    ensures
        r is Ok <==> (line_idx + 1) * num_cols <= buffer_len,
        r matches Ok(range) ==> range.0 == line_idx * num_cols && range.1 == (line_idx + 1)
            * num_cols,
        r matches Err(e) ==> e == RenderError::ScreenSizeMismatch,
{
    if num_cols == 0 {
        assert((line_idx + 1) * num_cols == 0) by (nonlinear_arith)
            requires
                num_cols == 0,
        ;
        assert(line_idx * num_cols == 0) by (nonlinear_arith)
            requires
                num_cols == 0,
        ;
        return Ok((0, 0));
    }
    let lines = buffer_len / num_cols;
    if line_idx >= lines {
        assert((line_idx + 1) * num_cols > buffer_len) by (nonlinear_arith)
            requires
                num_cols > 0,
                line_idx >= lines,
                lines == buffer_len / num_cols,
        ;
        return Err(RenderError::ScreenSizeMismatch);
    }
    assert((line_idx + 1) * num_cols <= buffer_len) by (nonlinear_arith)
        requires
            num_cols > 0,
            line_idx < lines,
            lines == buffer_len / num_cols,
    ;
    assert((line_idx + 1) * num_cols == line_idx * num_cols + num_cols) by (nonlinear_arith);
    let start = line_idx * num_cols;
    Ok((start, start + num_cols))
}

/// Renders a line with the GPU renderer: checks that the line lies within
/// a quad buffer of `buffer_len` quads, composes it, then writes one quad
/// per unit.
pub fn render_screen_line_opengl(
    ctx: &LineContext,
    config: &Config,
    palette: &ColorPalette,
    clusters: &Vec<CellCluster>,
    shaped: &Vec<ShapedCluster>,
    buffer_len: usize,
) -> (r: Result<Vec<Quad>, RenderError>)
    requires
        palette.wf(),
    ensures
        (ctx.line_idx + 1) * ctx.num_cols > buffer_len ==> r == Err::<Vec<Quad>, RenderError>(
            RenderError::ScreenSizeMismatch,
        ),
        (ctx.line_idx + 1) * ctx.num_cols <= buffer_len ==> (r is Ok <==> spec_shaping_fits(
            cluster_models(clusters@),
            shaped@,
        )),
        r matches Ok(quads) ==> quads@ == spec_compose_line(
            *ctx,
            *config,
            *palette,
            cluster_models(clusters@),
            shaped@,
        ).map_values(|u: CellDraw| spec_unit_quad(u)),
        r is Ok ==> forall|q: int|
            0 <= q < spec_compose_line(*ctx, *config, *palette, cluster_models(clusters@), shaped@).len()
                ==> spec_unit_in_range(
                #[trigger] spec_compose_line(
                    *ctx,
                    *config,
                    *palette,
                    cluster_models(clusters@),
                    shaped@,
                )[q],
                ctx.num_cols,
            ),
{
    if let Err(e) = line_quad_range(ctx.line_idx, ctx.num_cols, buffer_len) {
        return Err(e);
    }
    let units = match compose_line(ctx, config, palette, clusters, shaped) {
        Ok(units) => units,
        Err(e) => {
            return Err(e);
        },
    };
    Ok(emit_quads(&units))
}

/// Both backends draw the same cells with the same colors: the i-th quad
/// and the i-th unit's background fill agree on cell and colors.
pub proof fn lemma_backends_agree(geo: SurfaceGeometry, line_idx: usize, units: Seq<CellDraw>, i: int)
    requires
        0 <= i < units.len(),
    ensures
        ({
            let q = units.map_values(|u: CellDraw| spec_unit_quad(u))[i];
            let p = spec_unit_prims(geo, line_idx, units[i]);
            &&& q.cell_idx == units[i].cell_idx
            &&& q.fg == units[i].fg
            &&& q.bg == units[i].bg
            &&& p[0] == Primitive::ClearRect {
                x: spec_cell_origin(geo, line_idx, units[i].cell_idx).0,
                y: spec_cell_origin(geo, line_idx, units[i].cell_idx).1,
                width: geo.cell_width as i64,
                height: geo.cell_height as i64,
                color: q.bg,
            }
        }),
{
}

/// The draw calls of unit `m` stand in the line's draw calls right after
/// those of the units before it.
pub proof fn lemma_units_prims_segment(
    geo: SurfaceGeometry,
    line_idx: usize,
    units: Seq<CellDraw>,
    m: int,
    n: int,
    p: int,
)
    requires
        0 <= m < n <= units.len(),
        0 <= p < spec_unit_prims(geo, line_idx, units[m]).len(),
    ensures
        ({
            let off = spec_units_prims(geo, line_idx, units, m).len();
            let all = spec_units_prims(geo, line_idx, units, n);
            off + p < all.len() && all[off + p] == spec_unit_prims(geo, line_idx, units[m])[p]
        }),
    decreases n,
{
    if n > m + 1 {
        lemma_units_prims_segment(geo, line_idx, units, m, n - 1, p);
    }
}

/// A cell's underline and strikethrough are tinted with its foreground,
/// and a single underline comes first.
pub proof fn lemma_decorations_tinted(x: i64, y: i64, fg: Color, underline: Underline, strikethrough: bool)
    ensures
        ({
            let d = spec_decorations(x, y, fg, underline, strikethrough);
            forall|p: int|
                0 <= p < d.len() ==> ((#[trigger] d[p]) matches Primitive::Decoration { op, .. }
                    && op == DrawOp::MultiplyThenOver(fg))
        }),
        underline != Underline::Off ==> spec_decorations(x, y, fg, underline, strikethrough).len()
            > 0,
        underline == Underline::Single ==> spec_decorations(x, y, fg, underline, strikethrough)[0]
            == (Primitive::Decoration {
            x,
            y,
            sprite: UtilSprite::SingleUnderline,
            op: DrawOp::MultiplyThenOver(fg),
        }),
{
}

/// How a unit's colors reach its draw calls: the background fill has the
/// unit's background; underline, strikethrough and an untinted glyph are
/// tinted with its foreground, a color glyph is drawn as it is; its quad
/// carries the same two colors.
pub proof fn lemma_unit_draw_colors(geo: SurfaceGeometry, line_idx: usize, u: CellDraw)
    ensures
        ({
            let prims = spec_unit_prims(geo, line_idx, u);
            &&& prims[0] matches Primitive::ClearRect { color, .. } && color == u.bg
            &&& forall|p: int|
                0 < p < prims.len() ==> match #[trigger] prims[p] {
                    Primitive::Decoration { op, .. } => op == DrawOp::MultiplyThenOver(u.fg),
                    Primitive::GlyphSlice { op, .. } => op == (if u.content->Glyph_has_color {
                        DrawOp::Over
                    } else {
                        DrawOp::MultiplyThenOver(u.fg)
                    }),
                    Primitive::ImagePart { .. } => u.content is Image,
                    Primitive::ClearRect { .. } => false,
                }
            &&& u.content matches CellContent::Glyph { texture: Some(t), has_color: false, .. }
                ==> prims.last() matches Primitive::GlyphSlice { op, .. } && op
                == DrawOp::MultiplyThenOver(u.fg)
            &&& spec_unit_quad(u).fg == u.fg
            &&& spec_unit_quad(u).bg == u.bg
        }),
{
    let prims = spec_unit_prims(geo, line_idx, u);
    let (x, y) = spec_cell_origin(geo, line_idx, u.cell_idx);
    match u.content {
        CellContent::Glyph { underline, strikethrough, .. } => {
            let d = spec_decorations(x, y, u.fg, underline, strikethrough);
            lemma_decorations_tinted(x, y, u.fg, underline, strikethrough);
            assert forall|p: int| 0 < p < prims.len() implies match #[trigger] prims[p] {
                Primitive::Decoration { op, .. } => op == DrawOp::MultiplyThenOver(u.fg),
                Primitive::GlyphSlice { op, .. } => op == (if u.content->Glyph_has_color {
                    DrawOp::Over
                } else {
                    DrawOp::MultiplyThenOver(u.fg)
                }),
                Primitive::ImagePart { .. } => u.content is Image,
                Primitive::ClearRect { .. } => false,
            } by {
                if p - 1 < d.len() {
                    assert(prims[p] == d[p - 1]);
                }
            }
        },
        CellContent::Image { underline, strikethrough, .. } => {
            let d = spec_decorations(x, y, u.fg, underline, strikethrough);
            lemma_decorations_tinted(x, y, u.fg, underline, strikethrough);
            assert forall|p: int| 0 < p < prims.len() implies match #[trigger] prims[p] {
                Primitive::Decoration { op, .. } => op == DrawOp::MultiplyThenOver(u.fg),
                Primitive::GlyphSlice { op, .. } => op == (if u.content->Glyph_has_color {
                    DrawOp::Over
                } else {
                    DrawOp::MultiplyThenOver(u.fg)
                }),
                Primitive::ImagePart { .. } => u.content is Image,
                Primitive::ClearRect { .. } => false,
            } by {
                if p - 1 < d.len() {
                    assert(prims[p] == d[p - 1]);
                }
            }
        },
        _ => {},
    }
}

/// Rendering an unchanged line against unchanged cursor, selection and
/// highlight state gives the same draw calls and the same quads again.
pub proof fn lemma_render_idempotent(
    geo: SurfaceGeometry,
    ctx: LineContext,
    config: Config,
    palette: ColorPalette,
    clusters: Seq<crate::cluster::ClusterModel>,
    shaped: Seq<ShapedCluster>,
    first: Seq<Primitive>,
    second: Seq<Primitive>,
    first_quads: Seq<Quad>,
    second_quads: Seq<Quad>,
)
    requires
        first == spec_software_prims(
            geo,
            ctx.line_idx,
            ctx.num_cols,
            opaque_color(palette.background),
            spec_compose_line(ctx, config, palette, clusters, shaped),
        ),
        second == spec_software_prims(
            geo,
            ctx.line_idx,
            ctx.num_cols,
            opaque_color(palette.background),
            spec_compose_line(ctx, config, palette, clusters, shaped),
        ),
        first_quads == spec_compose_line(ctx, config, palette, clusters, shaped).map_values(
            |u: CellDraw| spec_unit_quad(u),
        ),
        second_quads == spec_compose_line(ctx, config, palette, clusters, shaped).map_values(
            |u: CellDraw| spec_unit_quad(u),
        ),
    ensures
        first == second,
        first_quads == second_quads,
{
}

/// Position of the unit for cell slot `q` of cluster `i` among a line's
/// units.
pub open spec fn spec_unit_index(
    ctx: LineContext,
    config: Config,
    palette: ColorPalette,
    clusters: Seq<crate::cluster::ClusterModel>,
    shaped: Seq<ShapedCluster>,
    i: int,
    q: int,
) -> int {
    spec_line_glyph_units(ctx, config, palette, clusters, shaped, i).len() + q
}

/// Bold brightening in the draw calls: for a plain covered cell of a
/// cluster with standard foreground `idx < 8`, not reversed, the software
/// renderer fills the cell with the cluster's background and tints its
/// (uncolored) glyph with palette entry `idx + 8` when bold, `idx`
/// otherwise; the GPU quad carries the same foreground.
pub proof fn lemma_bold_brightens_drawn(
    geo: SurfaceGeometry,
    ctx: LineContext,
    config: Config,
    palette: ColorPalette,
    clusters: Seq<crate::cluster::ClusterModel>,
    shaped: Seq<ShapedCluster>,
    i: int,
    q: int,
    idx: u8,
)
    requires
        palette.wf(),
        0 <= i < clusters.len(),
        clusters.len() == shaped.len(),
        0 <= q < spec_whole_cluster_units(ctx, config, palette, clusters[i], shaped[i]).len(),
        clusters[i].attrs.foreground == crate::color::ColorAttribute::PaletteIndex(idx),
        idx < 8,
        !clusters[i].attrs.reverse,
        spec_plain_cell(
            ctx,
            spec_compose_line(ctx, config, palette, clusters, shaped)[spec_unit_index(
                ctx,
                config,
                palette,
                clusters,
                shaped,
                i,
                q,
            )],
        ),
    ensures
        ({
            let units = spec_compose_line(ctx, config, palette, clusters, shaped);
            let t = spec_unit_index(ctx, config, palette, clusters, shaped, i, q);
            let u = units[t];
            let expected = if clusters[i].attrs.intensity == crate::attrs::Intensity::Bold {
                opaque_color(palette.colors@[idx + 8])
            } else {
                opaque_color(palette.colors@[idx as int])
            };
            let prims = spec_unit_prims(geo, ctx.line_idx, u);
            &&& u.fg == expected
            &&& units.map_values(|v: CellDraw| spec_unit_quad(v))[t].fg == expected
            &&& u.content matches CellContent::Glyph { texture: Some(tx), has_color: false, .. }
                ==> prims.last() matches Primitive::GlyphSlice { op, .. } && op
                == DrawOp::MultiplyThenOver(expected)
        }),
{
    let units = spec_compose_line(ctx, config, palette, clusters, shaped);
    let t = spec_unit_index(ctx, config, palette, clusters, shaped, i, q);
    crate::compositor::lemma_line_unit(ctx, config, palette, clusters, shaped, i, clusters.len() as int, q);
    crate::compositor::lemma_line_bold_brightens(ctx, config, palette, clusters, shaped, i, q, idx);
    lemma_unit_draw_colors(geo, ctx.line_idx, units[t]);
}

/// Reverse video in the draw calls: for a plain covered cell of a
/// reversed cluster, the software renderer fills the cell with the
/// foreground that the attributes resolve to without `reverse`, and tints
/// the (uncolored) glyph with the background they resolve to; the GPU quad
/// carries the same swapped pair.
pub proof fn lemma_reverse_swaps_drawn(
    geo: SurfaceGeometry,
    ctx: LineContext,
    config: Config,
    palette: ColorPalette,
    clusters: Seq<crate::cluster::ClusterModel>,
    shaped: Seq<ShapedCluster>,
    i: int,
    q: int,
)
    requires
        0 <= i < clusters.len(),
        clusters.len() == shaped.len(),
        0 <= q < spec_whole_cluster_units(ctx, config, palette, clusters[i], shaped[i]).len(),
        clusters[i].attrs.reverse,
        spec_match_style(config.font_rules@, config.font, clusters[i].attrs).foreground
            == spec_match_style(
            config.font_rules@,
            config.font,
            crate::attrs::CellAttributes { reverse: false, ..clusters[i].attrs },
        ).foreground,
        spec_plain_cell(
            ctx,
            spec_compose_line(ctx, config, palette, clusters, shaped)[spec_unit_index(
                ctx,
                config,
                palette,
                clusters,
                shaped,
                i,
                q,
            )],
        ),
    ensures
        ({
            let units = spec_compose_line(ctx, config, palette, clusters, shaped);
            let t = spec_unit_index(ctx, config, palette, clusters, shaped, i, q);
            let u = units[t];
            let plain = spec_cluster_colors(
                config,
                palette,
                crate::attrs::CellAttributes { reverse: false, ..clusters[i].attrs },
            );
            let prims = spec_unit_prims(geo, ctx.line_idx, u);
            let quad = units.map_values(|v: CellDraw| spec_unit_quad(v))[t];
            &&& prims[0] matches Primitive::ClearRect { color, .. } && color == plain.0
            &&& u.content matches CellContent::Glyph { texture: Some(tx), has_color: false, .. }
                ==> prims.last() matches Primitive::GlyphSlice { op, .. } && op
                == DrawOp::MultiplyThenOver(plain.1)
            &&& quad.fg == plain.1 && quad.bg == plain.0
        }),
{
    let units = spec_compose_line(ctx, config, palette, clusters, shaped);
    let t = spec_unit_index(ctx, config, palette, clusters, shaped, i, q);
    crate::compositor::lemma_line_unit(ctx, config, palette, clusters, shaped, i, clusters.len() as int, q);
    crate::compositor::lemma_line_reverse_swaps(ctx, config, palette, clusters, shaped, i, q);
    lemma_unit_draw_colors(geo, ctx.line_idx, units[t]);
}

/// The underline of a glyph or image cell is drawn right after its fill:
/// the single or double underline sprite, tinted with the cell's
/// foreground; the GPU quad carries the matching line sprite.
pub proof fn lemma_underline_drawn(geo: SurfaceGeometry, line_idx: usize, u: CellDraw)
    requires
        crate::compositor::spec_content_underline(u.content) matches Some(ul) && ul
            != Underline::Off,
    ensures
        ({
            let prims = spec_unit_prims(geo, line_idx, u);
            let (x, y) = spec_cell_origin(geo, line_idx, u.cell_idx);
            let ul = crate::compositor::spec_content_underline(u.content)->Some_0;
            let sprite = if ul == Underline::Single {
                UtilSprite::SingleUnderline
            } else {
                UtilSprite::DoubleUnderline
            };
            &&& prims.len() > 1
            &&& prims[1] == (Primitive::Decoration {
                x,
                y,
                sprite,
                op: DrawOp::MultiplyThenOver(u.fg),
            })
            &&& spec_unit_quad(u).underline != LineSprite::Blank
            &&& spec_unit_quad(u).underline != LineSprite::Strike
        }),
{
}

/// Bold brightening in the line's draw calls, as `render_screen_line`
/// returns them: for a plain covered cell showing an uncolored glyph of a
/// cluster with standard foreground `idx < 8`, not reversed, the line's
/// draw calls hold that cell's fill and then its glyph slice, tinted with
/// palette entry `idx + 8` when bold, `idx` otherwise.
pub proof fn lemma_bold_brightens_in_line(
    geo: SurfaceGeometry,
    ctx: LineContext,
    config: Config,
    palette: ColorPalette,
    clusters: Seq<crate::cluster::ClusterModel>,
    shaped: Seq<ShapedCluster>,
    i: int,
    q: int,
    idx: u8,
)
    requires
        palette.wf(),
        0 <= i < clusters.len(),
        clusters.len() == shaped.len(),
        0 <= q < spec_whole_cluster_units(ctx, config, palette, clusters[i], shaped[i]).len(),
        clusters[i].attrs.foreground == crate::color::ColorAttribute::PaletteIndex(idx),
        idx < 8,
        !clusters[i].attrs.reverse,
        ({
            let u = spec_compose_line(ctx, config, palette, clusters, shaped)[spec_unit_index(
                ctx,
                config,
                palette,
                clusters,
                shaped,
                i,
                q,
            )];
            &&& spec_plain_cell(ctx, u)
            &&& u.content matches CellContent::Glyph { texture: Some(tx), has_color: false, .. }
        }),
    ensures
        ({
            let units = spec_compose_line(ctx, config, palette, clusters, shaped);
            let t = spec_unit_index(ctx, config, palette, clusters, shaped, i, q);
            let prims = spec_software_prims(
                geo,
                ctx.line_idx,
                ctx.num_cols,
                opaque_color(palette.background),
                units,
            );
            let start = spec_units_prims(geo, ctx.line_idx, units, t).len() as int;
            let last = start + spec_unit_prims(geo, ctx.line_idx, units[t]).len() - 1;
            let expected = if clusters[i].attrs.intensity == crate::attrs::Intensity::Bold {
                opaque_color(palette.colors@[idx + 8])
            } else {
                opaque_color(palette.colors@[idx as int])
            };
            &&& prims[start] == spec_unit_prims(geo, ctx.line_idx, units[t])[0]
            &&& prims[last] matches Primitive::GlyphSlice { op, .. } && op
                == DrawOp::MultiplyThenOver(expected)
        }),
{
    let units = spec_compose_line(ctx, config, palette, clusters, shaped);
    let t = spec_unit_index(ctx, config, palette, clusters, shaped, i, q);
    lemma_bold_brightens_drawn(geo, ctx, config, palette, clusters, shaped, i, q, idx);
    crate::compositor::lemma_line_unit(ctx, config, palette, clusters, shaped, i, clusters.len() as int, q);
    assert(t < units.len());
    let up = spec_unit_prims(geo, ctx.line_idx, units[t]);
    lemma_units_prims_segment(geo, ctx.line_idx, units, t, units.len() as int, 0);
    lemma_units_prims_segment(geo, ctx.line_idx, units, t, units.len() as int, up.len() - 1);
}

} // verus!
