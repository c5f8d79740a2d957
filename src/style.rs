//! Font attributes, text styles and the rules that pick a style for a cell.
use vstd::prelude::*;

use crate::attrs::{Blink, CellAttributes, Intensity, Underline};
use crate::color::RgbColor;

verus! {

/// One font that a style asks for.
#[derive(Clone, Debug)]
pub struct FontAttributes {
    pub family: String,
    pub bold: bool,
    pub italic: bool,
    /// Set on the fonts that are only consulted for glyphs that the
    /// preferred fonts lack.
    pub is_fallback: bool,
}

/// The value of a `FontAttributes` that equality and lookups go by.
pub struct FontAttributesModel {
    pub family: Seq<char>,
    pub bold: bool,
    pub italic: bool,
    pub is_fallback: bool,
}

impl View for FontAttributes {
    type V = FontAttributesModel;

    open spec fn view(&self) -> FontAttributesModel {
        FontAttributesModel {
            family: self.family@,
            bold: self.bold,
            italic: self.italic,
            is_fallback: self.is_fallback,
        }
    }
}

impl PartialEq for FontAttributes {
    fn eq(&self, other: &FontAttributes) -> (r: bool)
        ensures
            r == (self@ == other@),
    {
        self.family == other.family && self.bold == other.bold && self.italic == other.italic
            && self.is_fallback == other.is_fallback
    }
}

impl vstd::std_specs::cmp::PartialEqSpecImpl for FontAttributes {
    open spec fn obeys_eq_spec() -> bool {
        true
    }

    open spec fn eq_spec(&self, other: &FontAttributes) -> bool {
        self@ == other@
    }
}

impl Eq for FontAttributes {

}

/// Clones `a`, keeping its value.
pub fn clone_font_attributes(a: &FontAttributes) -> (r: FontAttributes)
    ensures
        r@ == a@,
{
    FontAttributes {
        family: a.family.clone(),
        bold: a.bold,
        italic: a.italic,
        is_fallback: a.is_fallback,
    }
}

/// An ordered list of fonts (preferred fonts and fallbacks) and an
/// optional foreground color.
#[derive(Clone, Debug)]
pub struct TextStyle {
    pub font: Vec<FontAttributes>,
    pub foreground: Option<RgbColor>,
}

pub struct TextStyleModel {
    pub font: Seq<FontAttributesModel>,
    pub foreground: Option<RgbColor>,
}

impl View for TextStyle {
    type V = TextStyleModel;

    open spec fn view(&self) -> TextStyleModel {
        TextStyleModel { font: self.font@.map_values(|a: FontAttributes| a@), foreground: self.foreground }
    }
}

/// Compares two lists of fonts by value.
pub fn same_fonts(a: &Vec<FontAttributes>, b: &Vec<FontAttributes>) -> (r: bool)
    ensures
        r == (a@.map_values(|x: FontAttributes| x@) == b@.map_values(|x: FontAttributes| x@)),
{
    if a.len() != b.len() {
        proof {
            assert(a@.map_values(|x: FontAttributes| x@).len() != b@.map_values(
                |x: FontAttributes| x@,
            ).len());
        }
        return false;
    }
    let mut i: usize = 0;
    while i < a.len()
        invariant
            a.len() == b.len(),
            i <= a.len(),
            forall|j: int| 0 <= j < i ==> a@[j]@ == b@[j]@,
        decreases a.len() - i,
    {
        if !a[i].eq(&b[i]) {
            proof {
                let ma = a@.map_values(|x: FontAttributes| x@);
                let mb = b@.map_values(|x: FontAttributes| x@);
                assert(ma[i as int] != mb[i as int]);
            }
            return false;
        }
        i = i + 1;
    }
    proof {
        assert(a@.map_values(|x: FontAttributes| x@) =~= b@.map_values(|x: FontAttributes| x@));
    }
    true
}

impl PartialEq for TextStyle {
    fn eq(&self, other: &TextStyle) -> (r: bool)
        ensures
            r == (self@ == other@),
    {
        same_fonts(&self.font, &other.font) && self.foreground == other.foreground
    }
}

impl vstd::std_specs::cmp::PartialEqSpecImpl for TextStyle {
    open spec fn obeys_eq_spec() -> bool {
        true
    }

    open spec fn eq_spec(&self, other: &TextStyle) -> bool {
        self@ == other@
    }
}

impl Eq for TextStyle {

}

/// Predicates on cell attributes and the style to use where they all hold.
/// A predicate that is `None` holds of every cell.
#[derive(Clone, Debug)]
pub struct FontRule {
    pub intensity: Option<Intensity>,
    pub underline: Option<Underline>,
    pub italic: Option<bool>,
    pub blink: Option<Blink>,
    pub reverse: Option<bool>,
    pub strikethrough: Option<bool>,
    pub invisible: Option<bool>,
    pub font: TextStyle,
}

pub open spec fn opt_holds<T>(p: Option<T>, v: T) -> bool {
    match p {
        Some(x) => x == v,
        None => true,
    }
}

/// Every predicate that `rule` sets equals the cell's attribute.
pub open spec fn spec_rule_matches(rule: FontRule, attrs: CellAttributes) -> bool {
    &&& opt_holds(rule.intensity, attrs.intensity)
    &&& opt_holds(rule.underline, attrs.underline)
    &&& opt_holds(rule.italic, attrs.italic)
    &&& opt_holds(rule.blink, attrs.blink)
    &&& opt_holds(rule.reverse, attrs.reverse)
    &&& opt_holds(rule.strikethrough, attrs.strikethrough)
    &&& opt_holds(rule.invisible, attrs.invisible)
}

/// Whether `rule` applies to a cell with attributes `attrs`.
pub fn rule_matches(rule: &FontRule, attrs: &CellAttributes) -> (r: bool)
    ensures
        r == spec_rule_matches(*rule, *attrs),
{
    if let Some(v) = rule.intensity {
        if v != attrs.intensity {
            return false;
        }
    }
    if let Some(v) = rule.underline {
        if v != attrs.underline {
            return false;
        }
    }
    if let Some(v) = rule.italic {
        if v != attrs.italic {
            return false;
        }
    }
    if let Some(v) = rule.blink {
        if v != attrs.blink {
            return false;
        }
    }
    if let Some(v) = rule.reverse {
        if v != attrs.reverse {
            return false;
        }
    }
    if let Some(v) = rule.strikethrough {
        if v != attrs.strikethrough {
            return false;
        }
    }
    if let Some(v) = rule.invisible {
        if v != attrs.invisible {
            return false;
        }
    }
    true
}

/// Index of the first rule from `start` on that matches, if any.
pub open spec fn first_match_from(rules: Seq<FontRule>, attrs: CellAttributes, start: int) -> Option<
    int,
>
    decreases rules.len() - start,
{
    if start < 0 || start >= rules.len() {
        None
    } else if spec_rule_matches(rules[start], attrs) {
        Some(start)
    } else {
        first_match_from(rules, attrs, start + 1)
    }
}

pub open spec fn first_match(rules: Seq<FontRule>, attrs: CellAttributes) -> Option<int> {
    first_match_from(rules, attrs, 0)
}

/// The style of the first matching rule, or `default` where none matches.
pub open spec fn spec_match_style(
    rules: Seq<FontRule>,
    default: TextStyle,
    attrs: CellAttributes,
) -> TextStyle {
    match first_match(rules, attrs) {
        Some(i) => rules[i].font,
        None => default,
    }
}

/// The result of `first_match_from` where no rule in `start..i` matches.
pub proof fn lemma_first_match_skips(rules: Seq<FontRule>, attrs: CellAttributes, start: int, i: int)
    requires
        0 <= start <= i <= rules.len(),
        forall|j: int| start <= j < i ==> !spec_rule_matches(#[trigger] rules[j], attrs),
    ensures
        first_match_from(rules, attrs, start) == first_match_from(rules, attrs, i),
    decreases i - start,
{
    if start < i {
        lemma_first_match_skips(rules, attrs, start + 1, i);
    }
}

/// Picks the style for a cell: rules are tried in order and the first
/// whose predicates all hold wins; where none does, `default` is used.
pub fn select_style<'a>(
    rules: &'a Vec<FontRule>,
    default: &'a TextStyle,
    attrs: &CellAttributes,
) -> (r: &'a TextStyle)
    ensures
        *r == spec_match_style(rules@, *default, *attrs),
{
    let mut i: usize = 0;
    while i < rules.len()
        invariant
            i <= rules.len(),
            forall|j: int| 0 <= j < i ==> !spec_rule_matches(#[trigger] rules@[j], *attrs),
        decreases rules.len() - i,
    {
        if rule_matches(&rules[i], attrs) {
            proof {
                lemma_first_match_skips(rules@, *attrs, 0, i as int);
            }
            return &rules[i].font;
        }
        i = i + 1;
    }
    proof {
        lemma_first_match_skips(rules@, *attrs, 0, i as int);
    }
    default
}

/// A rule that sets no predicate.
pub open spec fn is_wildcard(rule: FontRule) -> bool {
    &&& rule.intensity is None
    &&& rule.underline is None
    &&& rule.italic is None
    &&& rule.blink is None
    &&& rule.reverse is None
    &&& rule.strikethrough is None
    &&& rule.invisible is None
}

/// A rule that sets no predicate matches every cell.
pub proof fn lemma_wildcard_matches_all(rule: FontRule, attrs: CellAttributes)
    requires
        is_wildcard(rule),
    ensures
        spec_rule_matches(rule, attrs),
{
}

/// A rule whose one set predicate asks for a flag to be `true` matches
/// exactly the cells that have that flag.
pub proof fn lemma_single_flag_rule(rule: FontRule, attrs: CellAttributes)
    requires
        rule.intensity is None,
        rule.underline is None,
        rule.blink is None,
    ensures
        rule.italic == Some(true) && rule.reverse is None && rule.strikethrough is None
            && rule.invisible is None ==> (spec_rule_matches(rule, attrs) <==> attrs.italic),
        rule.reverse == Some(true) && rule.italic is None && rule.strikethrough is None
            && rule.invisible is None ==> (spec_rule_matches(rule, attrs) <==> attrs.reverse),
        rule.strikethrough == Some(true) && rule.italic is None && rule.reverse is None
            && rule.invisible is None ==> (spec_rule_matches(rule, attrs) <==> attrs.strikethrough),
        rule.invisible == Some(true) && rule.italic is None && rule.reverse is None
            && rule.strikethrough is None ==> (spec_rule_matches(rule, attrs) <==> attrs.invisible),
{
}

/// The first rule that matches wins, whatever later rules say.
pub proof fn lemma_first_match_wins(
    rules: Seq<FontRule>,
    default: TextStyle,
    attrs: CellAttributes,
    i: int,
)
    requires
        0 <= i < rules.len(),
        spec_rule_matches(rules[i], attrs),
        forall|j: int| 0 <= j < i ==> !spec_rule_matches(#[trigger] rules[j], attrs),
    ensures
        spec_match_style(rules, default, attrs) == rules[i].font,
{
    lemma_first_match_skips(rules, attrs, 0, i);
}

/// Where no rule matches, the default style is used.
pub proof fn lemma_no_match_default(rules: Seq<FontRule>, default: TextStyle, attrs: CellAttributes)
    requires
        forall|j: int| 0 <= j < rules.len() ==> !spec_rule_matches(#[trigger] rules[j], attrs),
    ensures
        spec_match_style(rules, default, attrs) == default,
{
    lemma_first_match_skips(rules, attrs, 0, rules.len() as int);
}

} // verus!
