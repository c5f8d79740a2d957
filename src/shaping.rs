//! Splitting text into runs that the primary font can shape and runs left
//! for the fallback fonts, and numbering the shaped output by byte offset.
use vstd::prelude::*;

use crate::cluster::{spec_utf8_len_seq, utf8_len};
use crate::glyphcache::GlyphInfo;

verus! {

/// The variation selectors that pick a glyph variant.
#[derive(Clone, Copy, Debug, PartialEq, Eq, Structural)]
pub enum VariationSelector {
    VS01,
    VS02,
    VS03,
    VS15,
    VS16,
}

pub open spec fn spec_variation_selector(c: char) -> Option<VariationSelector> {
    if c == '\u{FE00}' {
        Some(VariationSelector::VS01)
    } else if c == '\u{FE01}' {
        Some(VariationSelector::VS02)
    } else if c == '\u{FE02}' {
        Some(VariationSelector::VS03)
    } else if c == '\u{FE0E}' {
        Some(VariationSelector::VS15)
    } else if c == '\u{FE0F}' {
        Some(VariationSelector::VS16)
    } else {
        None
    }
}

pub open spec fn spec_selector_char(v: VariationSelector) -> char {
    match v {
        VariationSelector::VS01 => '\u{FE00}',
        VariationSelector::VS02 => '\u{FE01}',
        VariationSelector::VS03 => '\u{FE02}',
        VariationSelector::VS15 => '\u{FE0E}',
        VariationSelector::VS16 => '\u{FE0F}',
    }
}

/// The variation selector that `c` is, if it is one.
pub fn variation_selector(c: char) -> (r: Option<VariationSelector>)
    ensures
        r == spec_variation_selector(c),
{
    if c == '\u{FE00}' {
        Some(VariationSelector::VS01)
    } else if c == '\u{FE01}' {
        Some(VariationSelector::VS02)
    } else if c == '\u{FE02}' {
        Some(VariationSelector::VS03)
    } else if c == '\u{FE0E}' {
        Some(VariationSelector::VS15)
    } else if c == '\u{FE0F}' {
        Some(VariationSelector::VS16)
    } else {
        None
    }
}

/// The character of a variation selector.
pub fn selector_char(v: VariationSelector) -> (r: char)
    ensures
        r == spec_selector_char(v),
{
    match v {
        VariationSelector::VS01 => '\u{FE00}',
        VariationSelector::VS02 => '\u{FE01}',
        VariationSelector::VS03 => '\u{FE02}',
        VariationSelector::VS15 => '\u{FE0E}',
        VariationSelector::VS16 => '\u{FE0F}',
    }
}

/// Whether `c` is in the Unicode general category Enclosing_Mark (Me), as
/// of Unicode 12.1.
pub open spec fn enclosing_mark(c: char) -> bool {
    let u = c as u32;
    ||| (0x0488 <= u && u <= 0x0489)
    ||| u == 0x1ABE
    ||| (0x20DD <= u && u <= 0x20E0)
    ||| (0x20E2 <= u && u <= 0x20E4)
    ||| (0xA670 <= u && u <= 0xA672)
}

/// Relies on unicode_general_category::get_general_category: the category
/// of a character from the crate's Unicode 12.1 tables, where
/// EnclosingMark covers exactly the ranges of `enclosing_mark`; it never
/// panics (characters past the table are PrivateUse).
#[verifier::external_body]
fn is_enclosing_mark(c: char) -> (r: bool)
    ensures
        r == enclosing_mark(c),
{
    matches!(
        unicode_general_category::get_general_category(c),
        unicode_general_category::GeneralCategory::EnclosingMark
    )
}

/// A character that the primary font has a glyph for.
#[derive(Clone, Copy, Debug, PartialEq, Eq, Structural)]
pub struct RawGlyph {
    pub ch: char,
    pub glyph_index: u16,
    pub variation: Option<VariationSelector>,
}

/// A run of text: glyphs of the primary font, or text it cannot show.
#[derive(Clone, Debug)]
pub enum Run {
    Glyphs(Vec<RawGlyph>),
    Unresolved(Vec<char>),
}

pub enum RunModel {
    Glyphs(Seq<RawGlyph>),
    Unresolved(Seq<char>),
}

pub open spec fn run_view(r: Run) -> RunModel {
    match r {
        Run::Glyphs(g) => RunModel::Glyphs(g@),
        Run::Unresolved(s) => RunModel::Unresolved(s@),
    }
}

pub open spec fn runs_view(rs: Seq<Run>) -> Seq<RunModel> {
    rs.map_values(|r: Run| run_view(r))
}

/// The text a glyph stands for: its character and its selector.
pub open spec fn spec_glyph_text(g: RawGlyph) -> Seq<char> {
    match g.variation {
        Some(v) => seq![g.ch, spec_selector_char(v)],
        None => seq![g.ch],
    }
}

/// Appends character `c` to the last run if it is unresolved, else opens
/// an unresolved run.
pub open spec fn spec_push_unresolved(runs: Seq<RunModel>, c: char) -> Seq<RunModel> {
    if runs.len() > 0 && runs.last() is Unresolved {
        runs.drop_last().push(RunModel::Unresolved(runs.last()->Unresolved_0.push(c)))
    } else {
        runs.push(RunModel::Unresolved(seq![c]))
    }
}

/// Takes the last glyph off the last run, if that run holds glyphs, and
/// opens an unresolved run with its text: an enclosing mark that the font
/// cannot show takes the character it encloses along to the fallback.
pub open spec fn spec_sweep_prior(runs: Seq<RunModel>) -> Seq<RunModel> {
    if runs.len() > 0 && runs.last() is Glyphs && runs.last()->Glyphs_0.len() > 0 {
        let gs = runs.last()->Glyphs_0;
        runs.drop_last().push(RunModel::Glyphs(gs.drop_last())).push(
            RunModel::Unresolved(spec_glyph_text(gs.last())),
        )
    } else {
        runs
    }
}

/// Processes character `i` of `text`, whose glyph in the primary font is
/// `glyph` and which is an enclosing mark when `mark` is set.
pub open spec fn spec_split_step(
    runs: Seq<RunModel>,
    text: Seq<char>,
    i: int,
    glyph: Option<u16>,
    mark: bool,
) -> Seq<RunModel> {
    let c = text[i];
    if spec_variation_selector(c) is Some {
        runs
    } else {
        let next = if i + 1 < text.len() {
            spec_variation_selector(text[i + 1])
        } else {
            None
        };
        match glyph {
            Some(gid) => {
                let g = RawGlyph { ch: c, glyph_index: gid, variation: next };
                if runs.len() > 0 && runs.last() is Glyphs {
                    runs.drop_last().push(RunModel::Glyphs(runs.last()->Glyphs_0.push(g)))
                } else {
                    runs.push(RunModel::Glyphs(seq![g]))
                }
            },
            None => {
                let r1 = if mark {
                    spec_sweep_prior(runs)
                } else {
                    runs
                };
                let r2 = spec_push_unresolved(r1, c);
                if next is Some {
                    spec_push_unresolved(r2, text[i + 1])
                } else {
                    r2
                }
            },
        }
    }
}

/// The runs of the first `n` characters.
pub open spec fn spec_split_runs(
    text: Seq<char>,
    glyphs: Seq<Option<u16>>,
    marks: Seq<bool>,
    n: int,
) -> Seq<RunModel>
    decreases n,
{
    if n <= 0 {
        Seq::empty()
    } else {
        spec_split_step(
            spec_split_runs(text, glyphs, marks, n - 1),
            text,
            n - 1,
            glyphs[n - 1],
            marks[n - 1],
        )
    }
}

fn push_unresolved(runs: &mut Vec<Run>, c: char)
    ensures
        runs_view(final(runs)@) == spec_push_unresolved(runs_view(old(runs)@), c),
{
    let ghost m = runs_view(runs@);
    let last = runs.pop();
    match last {
        Some(Run::Unresolved(s)) => {
            let mut s = s;
            s.push(c);
            runs.push(Run::Unresolved(s));
            proof {
                assert(runs_view(runs@) =~= spec_push_unresolved(m, c));
            }
        },
        Some(other) => {
            runs.push(other);
            let mut s: Vec<char> = Vec::new();
            s.push(c);
            runs.push(Run::Unresolved(s));
            proof {
                assert(runs_view(runs@).drop_last() =~= m);
                assert(s@ =~= seq![c]);
                assert(runs_view(runs@) =~= spec_push_unresolved(m, c));
            }
        },
        None => {
            let mut s: Vec<char> = Vec::new();
            s.push(c);
            runs.push(Run::Unresolved(s));
            proof {
                assert(s@ =~= seq![c]);
                assert(runs_view(runs@) =~= spec_push_unresolved(m, c));
            }
        },
    }
}

fn push_glyph(runs: &mut Vec<Run>, g: RawGlyph)
    ensures
        runs_view(final(runs)@) == ({
            let m = runs_view(old(runs)@);
            if m.len() > 0 && m.last() is Glyphs {
                m.drop_last().push(RunModel::Glyphs(m.last()->Glyphs_0.push(g)))
            } else {
                m.push(RunModel::Glyphs(seq![g]))
            }
        }),
{
    let ghost m = runs_view(runs@);
    let last = runs.pop();
    match last {
        Some(Run::Glyphs(gs)) => {
            let mut gs = gs;
            gs.push(g);
            runs.push(Run::Glyphs(gs));
            proof {
                assert(runs_view(runs@) =~= m.drop_last().push(
                    RunModel::Glyphs(m.last()->Glyphs_0.push(g)),
                ));
            }
        },
        Some(other) => {
            runs.push(other);
            let mut gs: Vec<RawGlyph> = Vec::new();
            gs.push(g);
            runs.push(Run::Glyphs(gs));
            proof {
                assert(gs@ =~= seq![g]);
                assert(runs_view(runs@) =~= m.push(RunModel::Glyphs(seq![g])));
            }
        },
        None => {
            let mut gs: Vec<RawGlyph> = Vec::new();
            gs.push(g);
            runs.push(Run::Glyphs(gs));
            proof {
                assert(gs@ =~= seq![g]);
                assert(runs_view(runs@) =~= m.push(RunModel::Glyphs(seq![g])));
            }
        },
    }
}

fn sweep_prior(runs: &mut Vec<Run>)
    ensures
        runs_view(final(runs)@) == spec_sweep_prior(runs_view(old(runs)@)),
{
    let ghost m = runs_view(runs@);
    let last = runs.pop();
    match last {
        Some(Run::Glyphs(gs)) => {
            let mut gs = gs;
            let ghost before = gs@;
            match gs.pop() {
                Some(g) => {
                    let mut s: Vec<char> = Vec::new();
                    s.push(g.ch);
                    if let Some(v) = g.variation {
                        s.push(selector_char(v));
                    }
                    runs.push(Run::Glyphs(gs));
                    runs.push(Run::Unresolved(s));
                    proof {
                        assert(s@ =~= spec_glyph_text(g));
                        assert(gs@ =~= before.drop_last());
                        assert(runs_view(runs@) =~= spec_sweep_prior(m));
                    }
                },
                None => {
                    runs.push(Run::Glyphs(gs));
                    proof {
                        assert(runs_view(runs@) =~= m);
                    }
                },
            }
        },
        Some(other) => {
            runs.push(other);
            proof {
                assert(runs_view(runs@) =~= m);
            }
        },
        None => {},
    }
}

/// Splits `text` into runs, given for each character its glyph in the
/// primary font (`glyphs`) and whether it is an enclosing mark (`marks`).
/// A variation selector joins the character before it.  A character
/// without a glyph starts or extends an unresolved run; if it is an
/// enclosing mark, the glyph before it is moved into that run too.
pub fn split_runs_with(text: &Vec<char>, glyphs: &Vec<Option<u16>>, marks: &Vec<bool>) -> (r: Vec<Run>)
    requires
        glyphs@.len() == text@.len(),
        marks@.len() == text@.len(),
    ensures
        runs_view(r@) == spec_split_runs(text@, glyphs@, marks@, text@.len() as int),
{
    let mut runs: Vec<Run> = Vec::new();
    let mut i: usize = 0;
    proof {
        assert(runs_view(runs@) =~= Seq::<RunModel>::empty());
    }
    while i < text.len()
        invariant
            i <= text.len(),
            glyphs@.len() == text@.len(),
            marks@.len() == text@.len(),
            runs_view(runs@) == spec_split_runs(text@, glyphs@, marks@, i as int),
        decreases text.len() - i,
    {
        let c = text[i];
        if variation_selector(c).is_none() {
            let next = if i + 1 < text.len() {
                variation_selector(text[i + 1])
            } else {
                None
            };
            match glyphs[i] {
                Some(gid) => {
                    push_glyph(&mut runs, RawGlyph { ch: c, glyph_index: gid, variation: next });
                },
                None => {
                    if marks[i] {
                        sweep_prior(&mut runs);
                    }
                    push_unresolved(&mut runs, c);
                    if next.is_some() {
                        push_unresolved(&mut runs, text[i + 1]);
                    }
                },
            }
        }
        i = i + 1;
    }
    runs
}

/// Splits `text` into runs, given the glyph of each character in the
/// primary font; whether a character is an enclosing mark is looked up
/// in the Unicode tables.
pub fn split_runs(text: &Vec<char>, glyphs: &Vec<Option<u16>>) -> (r: Vec<Run>)
    requires
        glyphs@.len() == text@.len(),
    ensures
        runs_view(r@) == spec_split_runs(
            text@,
            glyphs@,
            Seq::new(text@.len(), |i: int| enclosing_mark(text@[i])),
            text@.len() as int,
        ),
{
    let mut marks: Vec<bool> = Vec::new();
    let mut i: usize = 0;
    while i < text.len()
        invariant
            i <= text.len(),
            marks@ == Seq::new(i as nat, |j: int| enclosing_mark(text@[j])),
        decreases text.len() - i,
    {
        marks.push(is_enclosing_mark(text[i]));
        i = i + 1;
        proof {
            assert(marks@ =~= Seq::new(i as nat, |j: int| enclosing_mark(text@[j])));
        }
    }
    split_runs_with(text, glyphs, &marks)
}

/// The glyph of `c` in a font, as its character map gives it: a missing
/// zero-width non-joiner is drawn with the font's space.
pub fn glyph_index_for_char(c: char, mapped: Option<u16>, space: Option<u16>) -> (r: Option<u16>)
    ensures
        r == if c == '\u{200C}' && mapped is None {
            space
        } else {
            mapped
        },
{
    if c == '\u{200C}' && mapped.is_none() {
        space
    } else {
        mapped
    }
}

/// One item of shaped output, in text order: a glyph the primary font
/// shaped (with the text it stands for, its width in cells and its
/// advances in pixels), or text left for the fallback fonts.
#[derive(Clone, Debug)]
pub enum ShapedItem {
    Glyph { text: Vec<char>, num_cells: u8, glyph_index: u16, x_advance: i32, y_advance: i32 },
    Unresolved(Vec<char>),
}

/// A shaped glyph, or unresolved text with the byte offset it starts at.
#[derive(Clone, Debug)]
pub enum MaybeShaped {
    Resolved(GlyphInfo),
    Unresolved { raw: Vec<char>, slice_start: usize },
}

pub enum MaybeShapedModel {
    Resolved(GlyphInfo),
    Unresolved { raw: Seq<char>, slice_start: usize },
}

pub open spec fn maybe_view(m: MaybeShaped) -> MaybeShapedModel {
    match m {
        MaybeShaped::Resolved(g) => MaybeShapedModel::Resolved(g),
        MaybeShaped::Unresolved { raw, slice_start } => MaybeShapedModel::Unresolved {
            raw: raw@,
            slice_start,
        },
    }
}

pub open spec fn item_text(it: ShapedItem) -> Seq<char> {
    match it {
        ShapedItem::Glyph { text, .. } => text@,
        ShapedItem::Unresolved(s) => s@,
    }
}

/// Byte offset after the first `n` items, starting from `start`.
pub open spec fn spec_offset_after(start: int, items: Seq<ShapedItem>, n: int) -> int
    decreases n,
{
    if n <= 0 {
        start
    } else {
        spec_offset_after(start, items, n - 1) + spec_utf8_len_seq(item_text(items[n - 1]))
    }
}

/// The output entry of item `i`, whose text starts at byte `cluster`.
pub open spec fn spec_numbered(font_index: usize, it: ShapedItem, cluster: int) -> MaybeShapedModel {
    match it {
        ShapedItem::Glyph { text, num_cells, glyph_index, x_advance, y_advance } => MaybeShapedModel::Resolved(
            GlyphInfo {
                cluster: cluster as u32,
                num_cells,
                font_idx: font_index,
                glyph_pos: glyph_index as u32,
                x_advance,
                y_advance,
                x_offset: 0,
                y_offset: 0,
            },
        ),
        ShapedItem::Unresolved(s) => MaybeShapedModel::Unresolved {
            raw: s@,
            slice_start: cluster as usize,
        },
    }
}

pub proof fn lemma_offset_monotone(start: int, items: Seq<ShapedItem>, a: int, b: int)
    requires
        0 <= a <= b,
    ensures
        spec_offset_after(start, items, a) <= spec_offset_after(start, items, b),
    decreases b - a,
{
    if a < b {
        lemma_offset_monotone(start, items, a, b - 1);
    }
}

pub proof fn lemma_utf8_prefix_monotone(s: Seq<char>, a: int, b: int)
    requires
        0 <= a <= b <= s.len(),
    ensures
        spec_utf8_len_seq(s.subrange(0, a)) <= spec_utf8_len_seq(s.subrange(0, b)),
    decreases b - a,
{
    if a < b {
        lemma_utf8_prefix_monotone(s, a, b - 1);
        assert(s.subrange(0, b).drop_last() =~= s.subrange(0, b - 1));
    }
}

/// Number of UTF-8 bytes of `s`, or `None` past 32 bits.
fn text_bytes(s: &Vec<char>) -> (r: Option<u64>)
    ensures
        r matches Some(n) ==> n == spec_utf8_len_seq(s@) && n <= u32::MAX,
        r is None ==> spec_utf8_len_seq(s@) > u32::MAX,
{
    let mut n: u64 = 0;
    let mut i: usize = 0;
    while i < s.len()
        invariant
            i <= s.len(),
            n == spec_utf8_len_seq(s@.subrange(0, i as int)),
            n <= u32::MAX,
        decreases s.len() - i,
    {
        proof {
            assert(s@.subrange(0, i + 1).drop_last() =~= s@.subrange(0, i as int));
        }
        n = n + utf8_len(s[i]) as u64;
        i = i + 1;
        if n > u32::MAX as u64 {
            proof {
                lemma_utf8_prefix_monotone(s@, i as int, s@.len() as int);
                assert(s@.subrange(0, s@.len() as int) =~= s@);
            }
            return None;
        }
    }
    proof {
        assert(s@.subrange(0, s@.len() as int) =~= s@);
    }
    Some(n)
}

fn copy_chars(s: &Vec<char>) -> (r: Vec<char>)
    ensures
        r@ == s@,
{
    let mut r: Vec<char> = Vec::new();
    let mut i: usize = 0;
    while i < s.len()
        invariant
            i <= s.len(),
            r@ == s@.subrange(0, i as int),
        decreases s.len() - i,
    {
        r.push(s[i]);
        i = i + 1;
        proof {
            assert(r@ =~= s@.subrange(0, i as int));
        }
    }
    proof {
        assert(s@.subrange(0, s@.len() as int) =~= s@);
    }
    r
}

/// Numbers shaped output by byte offset: each item starts where the text
/// of the items before it ends, counting from `slice_index`; glyphs are
/// attributed to font `font_index`.  `None` when an offset would not fit
/// in 32 bits.
pub fn assign_clusters(slice_index: usize, font_index: usize, items: &Vec<ShapedItem>) -> (r: Option<
    Vec<MaybeShaped>,
>)
    ensures
        r is Some <==> spec_offset_after(slice_index as int, items@, items@.len() as int)
            <= u32::MAX,
        r matches Some(out) ==> out@.len() == items@.len() && forall|i: int|
            0 <= i < items@.len() ==> maybe_view(#[trigger] out@[i]) == spec_numbered(
                font_index,
                items@[i],
                spec_offset_after(slice_index as int, items@, i),
            ),
{
    if slice_index as u64 > u32::MAX as u64 {
        proof {
            lemma_offset_monotone(slice_index as int, items@, 0, items@.len() as int);
        }
        return None;
    }
    let mut out: Vec<MaybeShaped> = Vec::new();
    let mut cluster: u64 = slice_index as u64;
    let mut i: usize = 0;
    while i < items.len()
        invariant
            i <= items.len(),
            cluster == spec_offset_after(slice_index as int, items@, i as int),
            cluster <= u32::MAX,
            out@.len() == i,
            forall|j: int|
                0 <= j < i ==> maybe_view(#[trigger] out@[j]) == spec_numbered(
                    font_index,
                    items@[j],
                    spec_offset_after(slice_index as int, items@, j),
                ),
        decreases items.len() - i,
    {
        let (entry, text) = match &items[i] {
            ShapedItem::Glyph { text, num_cells, glyph_index, x_advance, y_advance } => (
                MaybeShaped::Resolved(
                    GlyphInfo {
                        cluster: cluster as u32,
                        num_cells: *num_cells,
                        font_idx: font_index,
                        glyph_pos: *glyph_index as u32,
                        x_advance: *x_advance,
                        y_advance: *y_advance,
                        x_offset: 0,
                        y_offset: 0,
                    },
                ),
                text,
            ),
            ShapedItem::Unresolved(s) => (
                MaybeShaped::Unresolved { raw: copy_chars(s), slice_start: cluster as usize },
                s,
            ),
        };
        proof {
            assert(text@ == item_text(items@[i as int]));
        }
        let len = match text_bytes(text) {
            Some(n) => n,
            None => {
                proof {
                    lemma_offset_monotone(slice_index as int, items@, i + 1, items@.len() as int);
                }
                return None;
            },
        };
        out.push(entry);
        cluster = cluster + len;
        i = i + 1;
        if cluster > u32::MAX as u64 {
            proof {
                lemma_offset_monotone(slice_index as int, items@, i as int, items@.len() as int);
            }
            return None;
        }
    }
    Some(out)
}

} // verus!
