//! Finding font data for the fonts that a style asks for.
use vstd::prelude::*;

use crate::style::{clone_font_attributes, FontAttributes, FontAttributesModel};

verus! {

/// Where the data of a font lives.
#[derive(Debug)]
pub enum FontDataHandle {
    /// Face `index` of the font file at `path`.
    OnDisk { path: String, index: u32 },
    /// Face `index` of the built-in font called `name`.
    Memory { name: String, index: u32 },
}

pub open spec fn handle_view(h: FontDataHandle) -> (bool, Seq<char>, u32) {
    match h {
        FontDataHandle::OnDisk { path, index } => (true, path@, index),
        FontDataHandle::Memory { name, index } => (false, name@, index),
    }
}

/// Copies a handle.
pub fn clone_handle(h: &FontDataHandle) -> (r: FontDataHandle)
    ensures
        handle_view(r) == handle_view(*h),
{
    match h {
        FontDataHandle::OnDisk { path, index } => FontDataHandle::OnDisk {
            path: path.clone(),
            index: *index,
        },
        FontDataHandle::Memory { name, index } => FontDataHandle::Memory {
            name: name.clone(),
            index: *index,
        },
    }
}

/// The names that a font file records for a face.
#[derive(Debug)]
pub struct Names {
    pub full_name: String,
    pub unique: Option<String>,
    pub family: Option<String>,
    pub sub_family: Option<String>,
    pub postscript_name: Option<String>,
}

pub open spec fn opt_view(s: Option<String>) -> Option<Seq<char>> {
    match s {
        Some(x) => Some(x@),
        None => None,
    }
}

/// Whether the sub-family names the variant that `attr` asks for.
pub open spec fn spec_sub_family_fits(sub_family: Option<Seq<char>>, attr: FontAttributesModel) -> bool {
    match sub_family {
        Some(sf) => {
            ||| (sf == "Italic"@ && attr.italic && !attr.bold)
            ||| (sf == "Bold"@ && attr.bold && !attr.italic)
            ||| (sf == "Bold Italic"@ && attr.bold && attr.italic)
            ||| ((sf == "Medium"@ || sf == "Regular"@) && !attr.italic && !attr.bold)
        },
        None => !attr.italic && !attr.bold,
    }
}

/// A face fits `attr` when its family is the requested one and its
/// sub-family names the requested variant, or when its full name is the
/// requested family and a regular face is requested.
pub open spec fn spec_font_info_matches(attr: FontAttributesModel, names: Names) -> bool {
    ||| (names.family matches Some(fam) && fam@ == attr.family && spec_sub_family_fits(
        opt_view(names.sub_family),
        attr,
    ))
    ||| (attr.family == names.full_name@ && !attr.bold && !attr.italic)
}

fn sub_family_fits(sub_family: &Option<String>, attr: &FontAttributes) -> (r: bool)
    ensures
        r == spec_sub_family_fits(opt_view(*sub_family), attr@),
{
    match sub_family {
        Some(sf) => {
            let italic = String::from_str("Italic");
            let bold = String::from_str("Bold");
            let bold_italic = String::from_str("Bold Italic");
            let medium = String::from_str("Medium");
            let regular = String::from_str("Regular");
            (*sf == italic && attr.italic && !attr.bold) || (*sf == bold && attr.bold && !attr.italic)
                || (*sf == bold_italic && attr.bold && attr.italic) || ((*sf == medium || *sf
                == regular) && !attr.italic && !attr.bold)
        },
        None => !attr.italic && !attr.bold,
    }
}

/// Whether the face named by `names` fits `attr`.
pub fn font_info_matches(attr: &FontAttributes, names: &Names) -> (r: bool)
    ensures
        r == spec_font_info_matches(attr@, *names),
{
    if let Some(fam) = &names.family {
        if attr.family == *fam && sub_family_fits(&names.sub_family, attr) {
            return true;
        }
    }
    attr.family == names.full_name && !attr.bold && !attr.italic
}

/// A face that a catalog of font files offers.
#[derive(Debug)]
pub struct FontInfo {
    pub names: Names,
    pub handle: FontDataHandle,
}

/// A face that the platform's font locator found for `attr`.
#[derive(Debug)]
pub struct LocatedFont {
    pub attr: FontAttributes,
    pub handle: FontDataHandle,
}

/// The three places searched, in priority order: the faces found in the
/// configured font directories, the platform locator's answers, and the
/// built-in faces.
#[derive(Debug)]
pub struct FontSources {
    pub font_dirs: Vec<FontInfo>,
    pub locator: Vec<LocatedFont>,
    pub built_in: Vec<FontInfo>,
}

#[derive(Clone, Copy, Debug, PartialEq, Eq, Structural)]
pub enum SourceKind {
    FontDirs,
    Locator,
    BuiltIn,
}

/// A chosen face: which source, and its position there.
#[derive(Clone, Copy, Debug, PartialEq, Eq, Structural)]
pub struct FontPick {
    pub source: SourceKind,
    pub index: usize,
}

/// `a` sorts before `b`, character by character.
pub open spec fn seq_lt(a: Seq<char>, b: Seq<char>) -> bool
    decreases a.len(),
{
    if a.len() == 0 {
        b.len() > 0
    } else if b.len() == 0 {
        false
    } else if a[0] != b[0] {
        (a[0] as u32) < (b[0] as u32)
    } else {
        seq_lt(a.drop_first(), b.drop_first())
    }
}

/// The face among the first `n` of a catalog that fits `attr` and has the
/// least full name; of faces with equal names, the earliest.
pub open spec fn best_fitting(infos: Seq<FontInfo>, attr: FontAttributesModel, n: int) -> Option<int>
    decreases n,
{
    if n <= 0 {
        None
    } else {
        let prev = best_fitting(infos, attr, n - 1);
        if spec_font_info_matches(attr, infos[n - 1].names) && match prev {
            None => true,
            Some(b) => seq_lt(infos[n - 1].names.full_name@, infos[b].names.full_name@),
        } {
            Some(n - 1)
        } else {
            prev
        }
    }
}

/// The face of a catalog that a request gets.
pub open spec fn first_fitting(infos: Seq<FontInfo>, attr: FontAttributesModel) -> Option<int> {
    best_fitting(infos, attr, infos.len() as int)
}

/// Whether full name `a` sorts before full name `b`.
pub fn name_less(a: &String, b: &String) -> (r: bool)
    ensures
        r == seq_lt(a@, b@),
{
    let sa = a.as_str();
    let sb = b.as_str();
    let la = sa.unicode_len();
    let lb = sb.unicode_len();
    let mut i: usize = 0;
    proof {
        assert(a@.subrange(0, la as int) =~= a@);
        assert(b@.subrange(0, lb as int) =~= b@);
    }
    while i < la && i < lb
        invariant
            sa@ == a@,
            sb@ == b@,
            la == a@.len(),
            lb == b@.len(),
            i <= la,
            i <= lb,
            seq_lt(a@, b@) == seq_lt(a@.subrange(i as int, la as int), b@.subrange(i as int, lb as int)),
        decreases la - i,
    {
        let ca = sa.get_char(i);
        let cb = sb.get_char(i);
        let ghost ta = a@.subrange(i as int, la as int);
        let ghost tb = b@.subrange(i as int, lb as int);
        proof {
            assert(ta[0] == ca && tb[0] == cb);
        }
        if ca != cb {
            return (ca as u32) < (cb as u32);
        }
        proof {
            assert(ta.drop_first() =~= a@.subrange(i + 1, la as int));
            assert(tb.drop_first() =~= b@.subrange(i + 1, lb as int));
        }
        i = i + 1;
    }
    proof {
        let ta = a@.subrange(i as int, la as int);
        let tb = b@.subrange(i as int, lb as int);
        assert(ta.len() == 0 || tb.len() == 0);
    }
    i < lb
}

/// First locator answer from `start` on that was given for `attr`.
pub open spec fn first_located(located: Seq<LocatedFont>, attr: FontAttributesModel, start: int) -> Option<
    int,
>
    decreases located.len() - start,
{
    if start < 0 || start >= located.len() {
        None
    } else if located[start].attr@ == attr {
        Some(start)
    } else {
        first_located(located, attr, start + 1)
    }
}

/// The face that source `kind` offers for `attr`, if any.
pub open spec fn spec_find_in(kind: SourceKind, sources: FontSources, attr: FontAttributesModel) -> Option<int> {
    match kind {
        SourceKind::FontDirs => first_fitting(sources.font_dirs@, attr),
        SourceKind::Locator => first_located(sources.locator@, attr, 0),
        SourceKind::BuiltIn => first_fitting(sources.built_in@, attr),
    }
}

/// The state of a search: the faces picked so far and the requests they
/// satisfied.
pub struct SearchState {
    pub picks: Seq<FontPick>,
    pub loaded: Seq<FontAttributesModel>,
}

/// One request against one source: skipped when already satisfied,
/// else satisfied by the source's first fitting face, if any.
pub open spec fn spec_stage_step(
    kind: SourceKind,
    sources: FontSources,
    attr: FontAttributesModel,
    st: SearchState,
) -> SearchState {
    if st.loaded.contains(attr) {
        st
    } else {
        match spec_find_in(kind, sources, attr) {
            Some(i) => SearchState {
                picks: st.picks.push(FontPick { source: kind, index: i as usize }),
                loaded: st.loaded.push(attr),
            },
            None => st,
        }
    }
}

/// The first `n` requests of `selection` against one source.
pub open spec fn spec_stage(
    kind: SourceKind,
    sources: FontSources,
    selection: Seq<FontAttributesModel>,
    n: int,
    st: SearchState,
) -> SearchState
    decreases n,
{
    if n <= 0 {
        st
    } else {
        spec_stage_step(kind, sources, selection[n - 1], spec_stage(kind, sources, selection, n - 1, st))
    }
}

/// The requests against the three sources in priority order.
pub open spec fn spec_three_stages(
    sources: FontSources,
    selection: Seq<FontAttributesModel>,
    st: SearchState,
) -> SearchState {
    let a = spec_stage(SourceKind::FontDirs, sources, selection, selection.len() as int, st);
    let b = spec_stage(SourceKind::Locator, sources, selection, selection.len() as int, a);
    spec_stage(SourceKind::BuiltIn, sources, selection, selection.len() as int, b)
}

pub open spec fn preferred_of(attrs: Seq<FontAttributesModel>) -> Seq<FontAttributesModel> {
    attrs.filter(|a: FontAttributesModel| !a.is_fallback)
}

pub open spec fn fallbacks_of(attrs: Seq<FontAttributesModel>) -> Seq<FontAttributesModel> {
    attrs.filter(|a: FontAttributesModel| a.is_fallback)
}

/// The whole search: the preferred fonts through all three sources, then
/// the fallback fonts through all three.
pub open spec fn spec_search(sources: FontSources, attrs: Seq<FontAttributesModel>) -> SearchState {
    let empty = SearchState { picks: Seq::empty(), loaded: Seq::empty() };
    spec_three_stages(sources, fallbacks_of(attrs), spec_three_stages(sources, preferred_of(attrs), empty))
}

fn find_fitting(infos: &Vec<FontInfo>, attr: &FontAttributes) -> (r: Option<usize>)
    ensures
        r matches Some(i) ==> first_fitting(infos@, attr@) == Some(i as int),
        r is None ==> first_fitting(infos@, attr@) is None,
{
    let mut best: Option<usize> = None;
    let mut i: usize = 0;
    while i < infos.len()
        invariant
            i <= infos.len(),
            best matches Some(b) ==> b < i && best_fitting(infos@, attr@, i as int) == Some(b as int),
            best is None ==> best_fitting(infos@, attr@, i as int) is None,
        decreases infos.len() - i,
    {
        if font_info_matches(attr, &infos[i].names) {
            let better = match best {
                None => true,
                Some(b) => name_less(&infos[i].names.full_name, &infos[b].names.full_name),
            };
            if better {
                best = Some(i);
            }
        }
        i = i + 1;
    }
    best
}

fn find_located(located: &Vec<LocatedFont>, attr: &FontAttributes) -> (r: Option<usize>)
    ensures
        r matches Some(i) ==> first_located(located@, attr@, 0) == Some(i as int),
        r is None ==> first_located(located@, attr@, 0) is None,
{
    let mut i: usize = 0;
    while i < located.len()
        invariant
            i <= located.len(),
            first_located(located@, attr@, 0) == first_located(located@, attr@, i as int),
        decreases located.len() - i,
    {
        if located[i].attr.eq(attr) {
            return Some(i);
        }
        i = i + 1;
    }
    None
}

/// Whether `attr` is among `loaded`, by value.
pub fn contains_attr(loaded: &Vec<FontAttributes>, attr: &FontAttributes) -> (r: bool)
    ensures
        r == loaded@.map_values(|a: FontAttributes| a@).contains(attr@),
{
    let ghost m = loaded@.map_values(|a: FontAttributes| a@);
    let mut i: usize = 0;
    while i < loaded.len()
        invariant
            i <= loaded.len(),
            m == loaded@.map_values(|a: FontAttributes| a@),
            forall|j: int| 0 <= j < i ==> m[j] != attr@,
        decreases loaded.len() - i,
    {
        if loaded[i].eq(attr) {
            proof {
                assert(m[i as int] == attr@);
            }
            return true;
        }
        i = i + 1;
    }
    false
}

pub open spec fn models(v: Seq<FontAttributes>) -> Seq<FontAttributesModel> {
    v.map_values(|a: FontAttributes| a@)
}

/// Runs the requests of `selection` against source `kind`.
fn run_stage(
    kind: SourceKind,
    sources: &FontSources,
    selection: &Vec<FontAttributes>,
    picks: &mut Vec<FontPick>,
    loaded: &mut Vec<FontAttributes>,
)
    ensures
        ({
            let st = spec_stage(
                kind,
                *sources,
                models(selection@),
                selection@.len() as int,
                SearchState { picks: old(picks)@, loaded: models(old(loaded)@) },
            );
            final(picks)@ == st.picks && models(final(loaded)@) == st.loaded
        }),
{
    let ghost init = SearchState { picks: picks@, loaded: models(loaded@) };
    let mut i: usize = 0;
    while i < selection.len()
        invariant
            i <= selection.len(),
            ({
                let st = spec_stage(kind, *sources, models(selection@), i as int, init);
                picks@ == st.picks && models(loaded@) == st.loaded
            }),
        decreases selection.len() - i,
    {
        let attr = &selection[i];
        proof {
            assert(models(selection@)[i as int] == attr@);
        }
        if !contains_attr(loaded, attr) {
            let found = match kind {
                SourceKind::FontDirs => find_fitting(&sources.font_dirs, attr),
                SourceKind::Locator => find_located(&sources.locator, attr),
                SourceKind::BuiltIn => find_fitting(&sources.built_in, attr),
            };
            if let Some(idx) = found {
                picks.push(FontPick { source: kind, index: idx });
                let ghost before = loaded@;
                loaded.push(clone_font_attributes(attr));
                proof {
                    assert(models(loaded@) =~= models(before).push(attr@));
                }
            }
        }
        i = i + 1;
    }
}

/// The requests of a style split into preferred and fallback fonts,
/// keeping their order.
pub fn partition_attributes(attrs: &Vec<FontAttributes>) -> (r: (Vec<FontAttributes>, Vec<FontAttributes>))
    ensures
        models(r.0@) == preferred_of(models(attrs@)),
        models(r.1@) == fallbacks_of(models(attrs@)),
{
    let mut preferred: Vec<FontAttributes> = Vec::new();
    let mut fallback: Vec<FontAttributes> = Vec::new();
    let mut i: usize = 0;
    while i < attrs.len()
        invariant
            i <= attrs.len(),
            models(preferred@) == preferred_of(models(attrs@).subrange(0, i as int)),
            models(fallback@) == fallbacks_of(models(attrs@).subrange(0, i as int)),
        decreases attrs.len() - i,
    {
        let ghost m = models(attrs@).subrange(0, i + 1);
        proof {
            assert(m.drop_last() =~= models(attrs@).subrange(0, i as int));
            assert(m.last() == attrs@[i as int]@);
            reveal(Seq::filter);
        }
        let a = clone_font_attributes(&attrs[i]);
        if a.is_fallback {
            fallback.push(a);
        } else {
            preferred.push(a);
        }
        i = i + 1;
        proof {
            assert(models(attrs@).subrange(0, i as int) =~= m);
            assert(models(preferred@) =~= preferred_of(m));
            assert(models(fallback@) =~= fallbacks_of(m));
        }
    }
    proof {
        assert(models(attrs@).subrange(0, attrs@.len() as int) =~= models(attrs@));
    }
    (preferred, fallback)
}

/// How an unsatisfied request relates to the configured default fonts.
#[derive(Clone, Copy, Debug, PartialEq, Eq, Structural)]
pub enum WarningKind {
    /// The request is one of the default fonts.
    PrimaryFont,
    /// The request came from a rule and shares a family with a default
    /// font (rules are often derived from it).
    DerivedFromPrimary,
    /// The request came from a rule.
    FontRule,
}

/// A request that no source could satisfy.  `styled_variant` is set for a
/// bold or italic request.
#[derive(Debug)]
pub struct FontWarning {
    pub attr: FontAttributes,
    pub kind: WarningKind,
    pub styled_variant: bool,
}

pub open spec fn spec_warning_kind(primary: Seq<FontAttributesModel>, attr: FontAttributesModel) -> WarningKind {
    if primary.contains(attr) {
        WarningKind::PrimaryFont
    } else if exists|i: int| 0 <= i < primary.len() && (#[trigger] primary[i]).family == attr.family {
        WarningKind::DerivedFromPrimary
    } else {
        WarningKind::FontRule
    }
}

/// The warnings for the first `n` requests: one for each request that
/// the search left unsatisfied.
pub open spec fn spec_warnings(
    primary: Seq<FontAttributesModel>,
    loaded: Seq<FontAttributesModel>,
    attrs: Seq<FontAttributesModel>,
    n: int,
) -> Seq<(FontAttributesModel, WarningKind, bool)>
    decreases n,
{
    if n <= 0 {
        Seq::empty()
    } else {
        let prev = spec_warnings(primary, loaded, attrs, n - 1);
        let a = attrs[n - 1];
        if loaded.contains(a) {
            prev
        } else {
            prev.push((a, spec_warning_kind(primary, a), a.bold || a.italic))
        }
    }
}

pub open spec fn warning_view(w: FontWarning) -> (FontAttributesModel, WarningKind, bool) {
    (w.attr@, w.kind, w.styled_variant)
}

/// The handle that a pick refers to.
pub open spec fn spec_pick_handle(sources: FontSources, p: FontPick) -> FontDataHandle {
    match p.source {
        SourceKind::FontDirs => sources.font_dirs@[p.index as int].handle,
        SourceKind::Locator => sources.locator@[p.index as int].handle,
        SourceKind::BuiltIn => sources.built_in@[p.index as int].handle,
    }
}

pub open spec fn spec_pick_valid(sources: FontSources, p: FontPick) -> bool {
    match p.source {
        SourceKind::FontDirs => p.index < sources.font_dirs@.len(),
        SourceKind::Locator => p.index < sources.locator@.len(),
        SourceKind::BuiltIn => p.index < sources.built_in@.len(),
    }
}

/// The outcome of a search: the faces picked, in order, with their
/// handles, and a warning for each request that stayed unsatisfied.
#[derive(Debug)]
pub struct FontSearch {
    pub picks: Vec<FontPick>,
    pub handles: Vec<FontDataHandle>,
    pub warnings: Vec<FontWarning>,
}

pub proof fn lemma_best_fitting_valid(infos: Seq<FontInfo>, attr: FontAttributesModel, n: int)
    ensures
        best_fitting(infos, attr, n) matches Some(i) ==> 0 <= i < n,
    decreases n,
{
    if n > 0 {
        lemma_best_fitting_valid(infos, attr, n - 1);
    }
}

pub proof fn lemma_first_fitting_valid(infos: Seq<FontInfo>, attr: FontAttributesModel)
    ensures
        first_fitting(infos, attr) matches Some(i) ==> 0 <= i < infos.len(),
{
    lemma_best_fitting_valid(infos, attr, infos.len() as int);
}

pub proof fn lemma_first_located_valid(located: Seq<LocatedFont>, attr: FontAttributesModel, start: int)
    requires
        start >= 0,
    ensures
        first_located(located, attr, start) matches Some(i) ==> 0 <= i < located.len(),
    decreases located.len() - start,
{
    if start < located.len() {
        lemma_first_located_valid(located, attr, start + 1);
    }
}

/// Every pick of a stage refers to a face of its source.
pub proof fn lemma_stage_picks_valid(
    kind: SourceKind,
    sources: FontSources,
    selection: Seq<FontAttributesModel>,
    n: int,
    st: SearchState,
)
    requires
        forall|i: int| 0 <= i < st.picks.len() ==> spec_pick_valid(sources, #[trigger] st.picks[i]),
    ensures
        ({
            let r = spec_stage(kind, sources, selection, n, st);
            forall|i: int| 0 <= i < r.picks.len() ==> spec_pick_valid(sources, #[trigger] r.picks[i])
        }),
    decreases n,
{
    if n > 0 {
        lemma_stage_picks_valid(kind, sources, selection, n - 1, st);
        let prev = spec_stage(kind, sources, selection, n - 1, st);
        let a = selection[n - 1];
        lemma_first_fitting_valid(sources.font_dirs@, a);
        lemma_first_located_valid(sources.locator@, a, 0);
        lemma_first_fitting_valid(sources.built_in@, a);
        let r = spec_stage(kind, sources, selection, n, st);
        assert forall|i: int| 0 <= i < r.picks.len() implies spec_pick_valid(
            sources,
            #[trigger] r.picks[i],
        ) by {
            if i < prev.picks.len() {
                assert(r.picks[i] == prev.picks[i]);
            }
        }
    }
}

pub proof fn lemma_search_picks_valid(sources: FontSources, attrs: Seq<FontAttributesModel>)
    ensures
        ({
            let r = spec_search(sources, attrs);
            forall|i: int| 0 <= i < r.picks.len() ==> spec_pick_valid(sources, #[trigger] r.picks[i])
        }),
{
    let empty = SearchState { picks: Seq::empty(), loaded: Seq::empty() };
    let p = preferred_of(attrs);
    let f = fallbacks_of(attrs);
    lemma_stage_picks_valid(SourceKind::FontDirs, sources, p, p.len() as int, empty);
    let a = spec_stage(SourceKind::FontDirs, sources, p, p.len() as int, empty);
    lemma_stage_picks_valid(SourceKind::Locator, sources, p, p.len() as int, a);
    let b = spec_stage(SourceKind::Locator, sources, p, p.len() as int, a);
    lemma_stage_picks_valid(SourceKind::BuiltIn, sources, p, p.len() as int, b);
    let c = spec_three_stages(sources, p, empty);
    lemma_stage_picks_valid(SourceKind::FontDirs, sources, f, f.len() as int, c);
    let d = spec_stage(SourceKind::FontDirs, sources, f, f.len() as int, c);
    lemma_stage_picks_valid(SourceKind::Locator, sources, f, f.len() as int, d);
    let e = spec_stage(SourceKind::Locator, sources, f, f.len() as int, d);
    lemma_stage_picks_valid(SourceKind::BuiltIn, sources, f, f.len() as int, e);
}

/// Clones the handle that a pick refers to.
fn pick_handle(sources: &FontSources, p: FontPick) -> (r: FontDataHandle)
    requires
        spec_pick_valid(*sources, p),
    ensures
        handle_view(r) == handle_view(spec_pick_handle(*sources, p)),
{
    match p.source {
        SourceKind::FontDirs => clone_handle(&sources.font_dirs[p.index].handle),
        SourceKind::Locator => clone_handle(&sources.locator[p.index].handle),
        SourceKind::BuiltIn => clone_handle(&sources.built_in[p.index].handle),
    }
}

fn warning_kind(primary: &Vec<FontAttributes>, attr: &FontAttributes) -> (r: WarningKind)
    ensures
        r == spec_warning_kind(models(primary@), attr@),
{
    if contains_attr(primary, attr) {
        return WarningKind::PrimaryFont;
    }
    let ghost m = models(primary@);
    let mut i: usize = 0;
    while i < primary.len()
        invariant
            i <= primary.len(),
            m == models(primary@),
            !m.contains(attr@),
            forall|j: int| 0 <= j < i ==> (#[trigger] m[j]).family != attr@.family,
        decreases primary.len() - i,
    {
        if primary[i].family == attr.family {
            proof {
                assert(m[i as int].family == attr@.family);
            }
            return WarningKind::DerivedFromPrimary;
        }
        i = i + 1;
    }
    WarningKind::FontRule
}

/// `r` is the outcome of searching `sources` for the requests `attrs`,
/// with `primary` the configured default fonts: the picks of the search,
/// their handles, and the warnings for what stayed unsatisfied.
pub open spec fn spec_search_result(
    primary: Seq<FontAttributes>,
    attrs: Seq<FontAttributes>,
    sources: FontSources,
    r: FontSearch,
) -> bool {
    let st = spec_search(sources, models(attrs));
    &&& r.picks@ == st.picks
    &&& r.handles@.len() == st.picks.len()
    &&& forall|i: int|
        0 <= i < st.picks.len() ==> handle_view(#[trigger] r.handles@[i]) == handle_view(
            spec_pick_handle(sources, st.picks[i]),
        )
    &&& r.warnings@.map_values(|w: FontWarning| warning_view(w)) == spec_warnings(
        models(primary),
        st.loaded,
        models(attrs),
        attrs.len() as int,
    )
}

/// Searches the sources for the fonts of a style, `attrs`, as a cache miss
/// does: the preferred fonts are looked for in the font directories, then
/// through the locator, then among the built-in faces; the fallback fonts
/// follow in the same three steps.  A request that an earlier step
/// satisfied is skipped.  Each request that stays unsatisfied yields a
/// warning, and the search goes on with the faces that were found.
/// `primary` is the configured default font list.
pub fn search_fonts(primary: &Vec<FontAttributes>, attrs: &Vec<FontAttributes>, sources: &FontSources) -> (r:
    FontSearch)
    ensures
        spec_search_result(primary@, attrs@, *sources, r),
{
    let (preferred, fallback) = partition_attributes(attrs);
    let mut picks: Vec<FontPick> = Vec::new();
    let mut loaded: Vec<FontAttributes> = Vec::new();
    let ghost p = preferred_of(models(attrs@));
    let ghost f = fallbacks_of(models(attrs@));
    let ghost s0 = SearchState { picks: Seq::empty(), loaded: Seq::empty() };
    proof {
        assert(models(loaded@) =~= Seq::<FontAttributesModel>::empty());
        assert(picks@ =~= Seq::<FontPick>::empty());
    }
    run_stage(SourceKind::FontDirs, sources, &preferred, &mut picks, &mut loaded);
    let ghost s1 = spec_stage(SourceKind::FontDirs, *sources, p, p.len() as int, s0);
    run_stage(SourceKind::Locator, sources, &preferred, &mut picks, &mut loaded);
    let ghost s2 = spec_stage(SourceKind::Locator, *sources, p, p.len() as int, s1);
    run_stage(SourceKind::BuiltIn, sources, &preferred, &mut picks, &mut loaded);
    let ghost s3 = spec_stage(SourceKind::BuiltIn, *sources, p, p.len() as int, s2);
    proof {
        assert(picks@ == s3.picks && models(loaded@) == s3.loaded);
    }
    run_stage(SourceKind::FontDirs, sources, &fallback, &mut picks, &mut loaded);
    let ghost s4 = spec_stage(SourceKind::FontDirs, *sources, f, f.len() as int, s3);
    run_stage(SourceKind::Locator, sources, &fallback, &mut picks, &mut loaded);
    let ghost s5 = spec_stage(SourceKind::Locator, *sources, f, f.len() as int, s4);
    run_stage(SourceKind::BuiltIn, sources, &fallback, &mut picks, &mut loaded);
    let ghost st = spec_search(*sources, models(attrs@));
    proof {
        assert(picks@ == st.picks);
        assert(models(loaded@) == st.loaded);
        lemma_search_picks_valid(*sources, models(attrs@));
    }
    let mut handles: Vec<FontDataHandle> = Vec::new();
    let mut i: usize = 0;
    while i < picks.len()
        invariant
            i <= picks.len(),
            picks@ == st.picks,
            forall|j: int| 0 <= j < st.picks.len() ==> spec_pick_valid(*sources, #[trigger] st.picks[j]),
            handles@.len() == i,
            forall|j: int|
                0 <= j < i ==> handle_view(#[trigger] handles@[j]) == handle_view(
                    spec_pick_handle(*sources, st.picks[j]),
                ),
        decreases picks.len() - i,
    {
        proof {
            assert(spec_pick_valid(*sources, st.picks[i as int]));
        }
        handles.push(pick_handle(sources, picks[i]));
        i = i + 1;
    }
    let mut warnings: Vec<FontWarning> = Vec::new();
    let mut k: usize = 0;
    while k < attrs.len()
        invariant
            k <= attrs.len(),
            models(loaded@) == st.loaded,
            warnings@.map_values(|w: FontWarning| warning_view(w)) == spec_warnings(
                models(primary@),
                st.loaded,
                models(attrs@),
                k as int,
            ),
        decreases attrs.len() - k,
    {
        let a = &attrs[k];
        proof {
            assert(models(attrs@)[k as int] == a@);
        }
        if !contains_attr(&loaded, a) {
            let kind = warning_kind(primary, a);
            let w = FontWarning {
                attr: clone_font_attributes(a),
                kind,
                styled_variant: a.bold || a.italic,
            };
            let ghost before = warnings@;
            warnings.push(w);
            proof {
                assert(warnings@.map_values(|w: FontWarning| warning_view(w)) =~= before.map_values(
                    |w: FontWarning| warning_view(w),
                ).push(warning_view(w)));
            }
        }
        k = k + 1;
    }
    FontSearch { picks, handles, warnings }
}

pub proof fn lemma_stage_no_duplicates(
    kind: SourceKind,
    sources: FontSources,
    selection: Seq<FontAttributesModel>,
    n: int,
    st: SearchState,
)
    requires
        st.loaded.no_duplicates(),
        st.picks.len() == st.loaded.len(),
    ensures
        spec_stage(kind, sources, selection, n, st).loaded.no_duplicates(),
        spec_stage(kind, sources, selection, n, st).picks.len() == spec_stage(
            kind,
            sources,
            selection,
            n,
            st,
        ).loaded.len(),
    decreases n,
{
    if n > 0 {
        lemma_stage_no_duplicates(kind, sources, selection, n - 1, st);
        let prev = spec_stage(kind, sources, selection, n - 1, st);
        let a = selection[n - 1];
        if !prev.loaded.contains(a) {
            let pushed = prev.loaded.push(a);
            assert forall|i: int, j: int|
                0 <= i < pushed.len() && 0 <= j < pushed.len() && i != j implies pushed[i]
                != pushed[j] by {
                if i == prev.loaded.len() as int {
                    assert(pushed[j] == prev.loaded[j]);
                } else if j == prev.loaded.len() as int {
                    assert(pushed[i] == prev.loaded[i]);
                } else {
                    assert(pushed[i] == prev.loaded[i] && pushed[j] == prev.loaded[j]);
                }
            }
        }
    }
}

/// A search satisfies each request at most once: a face is picked for a
/// request only while no earlier step has satisfied it, so there is one
/// satisfied request per pick and none repeats.
pub proof fn lemma_search_satisfies_once(sources: FontSources, attrs: Seq<FontAttributesModel>)
    ensures
        spec_search(sources, attrs).loaded.no_duplicates(),
        spec_search(sources, attrs).picks.len() == spec_search(sources, attrs).loaded.len(),
{
    let empty = SearchState { picks: Seq::empty(), loaded: Seq::empty() };
    let p = preferred_of(attrs);
    let f = fallbacks_of(attrs);
    lemma_stage_no_duplicates(SourceKind::FontDirs, sources, p, p.len() as int, empty);
    let a = spec_stage(SourceKind::FontDirs, sources, p, p.len() as int, empty);
    lemma_stage_no_duplicates(SourceKind::Locator, sources, p, p.len() as int, a);
    let b = spec_stage(SourceKind::Locator, sources, p, p.len() as int, a);
    lemma_stage_no_duplicates(SourceKind::BuiltIn, sources, p, p.len() as int, b);
    let c = spec_three_stages(sources, p, empty);
    lemma_stage_no_duplicates(SourceKind::FontDirs, sources, f, f.len() as int, c);
    let d = spec_stage(SourceKind::FontDirs, sources, f, f.len() as int, c);
    lemma_stage_no_duplicates(SourceKind::Locator, sources, f, f.len() as int, d);
    let e = spec_stage(SourceKind::Locator, sources, f, f.len() as int, d);
    lemma_stage_no_duplicates(SourceKind::BuiltIn, sources, f, f.len() as int, e);
}

} // verus!
