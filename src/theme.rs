//! Theme, locale and area types, and the rules of theme inheritance.

use vstd::prelude::*;

use crate::text::{
    chars_of, contains_chars, contains_seq, count_char, count_in, find_char, find_char_from,
    index_of, starts_with, starts_with_str, str_eq,
};
use crate::xml::{declared_parent, parent_from_events, read_events};
use crate::xml_reader::xml_events;

verus! {

/// `vendor/name`.
pub open spec fn code_of(vendor: Seq<char>, name: Seq<char>) -> Seq<char> {
    vendor + seq!['/'] + name
}

/// A well-formed theme code: exactly one `/`, with a non-empty part on each side.
pub open spec fn is_valid_code(s: Seq<char>) -> bool {
    count_char(s, '/') == 1 && 0 < index_of(s, '/') && index_of(s, '/') < s.len() - 1
}

/// The part of a code before its first `/` (all of it when there is none).
pub open spec fn code_vendor(s: Seq<char>) -> Seq<char> {
    s.subrange(0, index_of(s, '/'))
}

/// The part of a code between its first and its second `/` (empty when it has no `/`).
pub open spec fn code_name(s: Seq<char>) -> Seq<char> {
    if index_of(s, '/') == s.len() {
        Seq::empty()
    } else {
        let rest = s.subrange(index_of(s, '/') + 1, s.len() as int);
        rest.subrange(0, index_of(rest, '/'))
    }
}

/// Theme code in `Vendor/name` form, such as `Hyva/default`.
#[derive(Debug, Hash)]
pub struct ThemeCode(pub String);

impl View for ThemeCode {
    type V = Seq<char>;

    open spec fn view(&self) -> Seq<char> {
        self.0@
    }
}

impl Clone for ThemeCode {
    fn clone(&self) -> (r: Self)
        ensures
            r == *self,
    {
        ThemeCode(self.0.clone())
    }
}

impl PartialEq for ThemeCode {
    fn eq(&self, other: &ThemeCode) -> (r: bool) {
        self.0 == other.0
    }
}

impl Eq for ThemeCode {

}

impl vstd::std_specs::cmp::PartialEqSpecImpl for ThemeCode {
    open spec fn obeys_eq_spec() -> bool {
        true
    }

    open spec fn eq_spec(&self, other: &ThemeCode) -> bool {
        self@ == other@
    }
}

impl ThemeCode {
    /// The code `vendor/name`.
    pub fn new(vendor: &str, name: &str) -> (r: ThemeCode)
        ensures
            r@ == code_of(vendor@, name@),
    {
        let mut s = String::from_str(vendor);
        s.append("/");
        s.append(name);
        proof {
            reveal_strlit("/");
        }
        ThemeCode(s)
    }

    /// Reads a code in `Vendor/name` form; anything else gives `None`.
    pub fn parse(s: &str) -> (r: Option<ThemeCode>)
        ensures
            r is Some <==> is_valid_code(s@),
            r matches Some(c) ==> c@ == s@,
    {
        let cs = chars_of(s);
        let slashes = count_in(&cs, '/');
        let first = find_char(&cs, '/');
        if slashes == 1 && 0 < first && first < cs.len() && cs.len() - first > 1 {
            Some(ThemeCode(String::from_str(s)))
        } else {
            None
        }
    }

    /// The code as text.
    pub fn as_str(&self) -> (r: &str)
        ensures
            r@ == self@,
    {
        self.0.as_str()
    }

    /// The vendor part, before the slash.
    pub fn vendor(&self) -> (r: &str)
        ensures
            r@ == code_vendor(self@),
    {
        let cs = chars_of(self.0.as_str());
        let first = find_char(&cs, '/');
        self.0.as_str().substring_char(0, first)
    }

    /// The name part, after the slash.
    pub fn name(&self) -> (r: &str)
        ensures
            r@ == code_name(self@),
    {
        let s = self.0.as_str();
        let cs = chars_of(s);
        let first = find_char(&cs, '/');
        if first == cs.len() {
            return s.substring_char(first, first);
        }
        let second = find_char_from(&cs, '/', first + 1);
        s.substring_char(first + 1, second)
    }

    /// The code as an owned string.
    pub fn to_string(&self) -> (r: String)
        ensures
            r@ == self@,
    {
        self.0.clone()
    }
}

impl From<&str> for ThemeCode {
    fn from(s: &str) -> ThemeCode {
        ThemeCode(String::from_str(s))
    }
}

impl vstd::std_specs::convert::FromSpecImpl<&str> for ThemeCode {
    open spec fn obeys_from_spec() -> bool {
        false
    }

    open spec fn from_spec(v: &str) -> ThemeCode {
        arbitrary()
    }
}

/// `c` is a lowercase ASCII letter.
pub open spec fn is_lower(c: char) -> bool {
    'a' <= c && c <= 'z'
}

/// `c` is an uppercase ASCII letter.
pub open spec fn is_upper(c: char) -> bool {
    'A' <= c && c <= 'Z'
}

/// A locale in `xx_YY` form: two lowercase letters, `_`, two uppercase letters.
pub open spec fn is_locale(s: Seq<char>) -> bool {
    s.len() == 5 && is_lower(s[0]) && is_lower(s[1]) && s[2] == '_' && is_upper(s[3])
        && is_upper(s[4])
}

/// The message of a rejected locale.
pub open spec fn locale_error_message(s: Seq<char>) -> Seq<char> {
    "invalid locale format '"@ + s + "': expected xx_YY (e.g., en_US)"@
}

/// Locale code such as `en_US`.
#[derive(Debug, Hash)]
pub struct LocaleCode(pub String);

impl View for LocaleCode {
    type V = Seq<char>;

    open spec fn view(&self) -> Seq<char> {
        self.0@
    }
}

impl Clone for LocaleCode {
    fn clone(&self) -> (r: Self)
        ensures
            r == *self,
    {
        LocaleCode(self.0.clone())
    }
}

impl PartialEq for LocaleCode {
    fn eq(&self, other: &LocaleCode) -> (r: bool) {
        self.0 == other.0
    }
}

impl Eq for LocaleCode {

}

impl vstd::std_specs::cmp::PartialEqSpecImpl for LocaleCode {
    open spec fn obeys_eq_spec() -> bool {
        true
    }

    open spec fn eq_spec(&self, other: &LocaleCode) -> bool {
        self@ == other@
    }
}

impl LocaleCode {
    /// Wraps `s` as it is, without checking its form.
    pub fn new(s: &str) -> (r: LocaleCode)
        ensures
            r@ == s@,
    {
        LocaleCode(String::from_str(s))
    }

    /// Wraps `s` if it is in `xx_YY` form, and otherwise says why not.
    pub fn validated(s: &str) -> (r: Result<LocaleCode, String>)
        ensures
            r is Ok <==> is_locale(s@),
            r matches Ok(l) ==> l@ == s@,
            r matches Err(m) ==> m@ == locale_error_message(s@),
    {
        if Self::validate_format(s) {
            Ok(LocaleCode(String::from_str(s)))
        } else {
            let mut m = String::from_str("invalid locale format '");
            m.append(s);
            m.append("': expected xx_YY (e.g., en_US)");
            Err(m)
        }
    }

    fn validate_format(s: &str) -> (r: bool)
        ensures
            r == is_locale(s@),
    {
        let cs = chars_of(s);
        cs.len() == 5 && 'a' <= cs[0] && cs[0] <= 'z' && 'a' <= cs[1] && cs[1] <= 'z' && cs[2]
            == '_' && 'A' <= cs[3] && cs[3] <= 'Z' && 'A' <= cs[4] && cs[4] <= 'Z'
    }

    /// The locale as text.
    pub fn as_str(&self) -> (r: &str)
        ensures
            r@ == self@,
    {
        self.0.as_str()
    }

    /// Whether this locale is in `xx_YY` form.
    pub fn is_valid_format(&self) -> (r: bool)
        ensures
            r == is_locale(self@),
    {
        Self::validate_format(self.0.as_str())
    }

    /// The locale as an owned string.
    pub fn to_string(&self) -> (r: String)
        ensures
            r@ == self@,
    {
        self.0.clone()
    }
}

impl From<&str> for LocaleCode {
    fn from(s: &str) -> LocaleCode {
        LocaleCode::new(s)
    }
}

impl vstd::std_specs::convert::FromSpecImpl<&str> for LocaleCode {
    open spec fn obeys_from_spec() -> bool {
        false
    }

    open spec fn from_spec(v: &str) -> LocaleCode {
        arbitrary()
    }
}

impl From<String> for LocaleCode {
    fn from(s: String) -> LocaleCode {
        LocaleCode(s)
    }
}

impl vstd::std_specs::convert::FromSpecImpl<String> for LocaleCode {
    open spec fn obeys_from_spec() -> bool {
        true
    }

    open spec fn from_spec(v: String) -> LocaleCode {
        LocaleCode(v)
    }
}

/// Deployment area.
#[derive(Debug, Clone, Copy, PartialEq, Eq, Hash, Structural)]
pub enum Area {
    Frontend,
    Adminhtml,
}

impl Area {
    /// The area's directory name.
    pub open spec fn name_of(self) -> Seq<char> {
        match self {
            Area::Frontend => "frontend"@,
            Area::Adminhtml => "adminhtml"@,
        }
    }

    /// The area whose name is `s`, if any.
    pub open spec fn from_name(s: Seq<char>) -> Option<Area> {
        if s == "frontend"@ {
            Some(Area::Frontend)
        } else if s == "adminhtml"@ {
            Some(Area::Adminhtml)
        } else {
            None
        }
    }

    /// The area's directory name.
    pub fn as_str(&self) -> (r: &'static str)
        ensures
            r@ == self.name_of(),
    {
        match self {
            Area::Frontend => "frontend",
            Area::Adminhtml => "adminhtml",
        }
    }

    /// The area named `s`; `None` for any other text.
    pub fn parse(s: &str) -> (r: Option<Area>)
        ensures
            r == Area::from_name(s@),
    {
        if str_eq(s, "frontend") {
            Some(Area::Frontend)
        } else if str_eq(s, "adminhtml") {
            Some(Area::Adminhtml)
        } else {
            None
        }
    }
}

/// How a theme is deployed.
#[derive(Debug, Clone, Copy, PartialEq, Eq, Structural)]
pub enum ThemeType {
    /// Files are copied directly.
    Hyva,
    /// Deployment is handed to the external build tool.
    Luma,
}

/// A theme with its place in the inheritance chain.
#[derive(Debug)]
pub struct Theme {
    /// Vendor name, such as `Hyva`.
    pub vendor: String,
    /// Theme name, such as `reset`.
    pub name: String,
    /// Area the theme belongs to.
    pub area: Area,
    /// Directory of the theme.
    pub path: String,
    /// Immediate parent theme; `None` for a root theme.
    pub parent: Option<ThemeCode>,
    /// How the theme is deployed.
    pub theme_type: ThemeType,
}

impl Clone for Theme {
    fn clone(&self) -> (r: Self)
        ensures
            r == *self,
    {
        let parent = match &self.parent {
            Some(p) => Some(p.clone()),
            None => None,
        };
        Theme {
            vendor: self.vendor.clone(),
            name: self.name.clone(),
            area: self.area,
            path: self.path.clone(),
            parent,
            theme_type: self.theme_type,
        }
    }
}

impl Theme {
    /// The theme's own code, `vendor/name`.
    pub open spec fn code_view(self) -> Seq<char> {
        code_of(self.vendor@, self.name@)
    }

    /// The theme's code.
    pub fn code(&self) -> (r: ThemeCode)
        ensures
            r@ == self.code_view(),
    {
        ThemeCode::new(self.vendor.as_str(), self.name.as_str())
    }

    /// The theme's full name, `vendor/name`.
    pub fn full_name(&self) -> (r: String)
        ensures
            r@ == self.code_view(),
    {
        let c = self.code();
        c.0
    }
}

/// The code of an optional parent, as text.
pub open spec fn parent_view(p: Option<ThemeCode>) -> Option<Seq<char>> {
    match p {
        Some(c) => Some(c@),
        None => None,
    }
}

/// The heuristic that marks a theme as Hyva: its descriptor names the `Hyva_Theme`
/// module, or one of its ancestors' codes starts with `Hyva/`.
pub open spec fn is_hyva(descriptor: Seq<char>, chain: Seq<String>) -> bool {
    contains_seq(descriptor, "Hyva_Theme"@) || exists|i: int|
        0 <= i < chain.len() && starts_with(#[trigger] chain[i]@, "Hyva/"@)
}

/// Whether a theme counts as Hyva, judged from its descriptor text and the codes of
/// its known ancestors. This is a heuristic, not a check of the descriptor's schema.
pub fn is_hyva_theme(theme_xml_content: &str, parent_chain: &[String]) -> (r: bool)
    ensures
        r == is_hyva(theme_xml_content@, parent_chain@),
{
    let text = chars_of(theme_xml_content);
    let marker = chars_of("Hyva_Theme");
    if contains_chars(&text, &marker) {
        return true;
    }
    let mut i: usize = 0;
    while i < parent_chain.len()
        invariant
            i <= parent_chain@.len(),
            forall|j: int| 0 <= j < i ==> !starts_with(#[trigger] parent_chain@[j]@, "Hyva/"@),
        decreases parent_chain@.len() - i,
    {
        if starts_with_str(parent_chain[i].as_str(), "Hyva/") {
            return true;
        }
        i = i + 1;
    }
    false
}

/// The deployment strategy of a theme; see [`is_hyva_theme`].
pub fn detect_theme_type(theme_xml_content: &str, parent_chain: &[String]) -> (r: ThemeType)
    ensures
        r == (if is_hyva(theme_xml_content@, parent_chain@) {
            ThemeType::Hyva
        } else {
            ThemeType::Luma
        }),
{
    if is_hyva_theme(theme_xml_content, parent_chain) {
        ThemeType::Hyva
    } else {
        ThemeType::Luma
    }
}

/// The parent theme that a theme descriptor declares in its `<parent>` element.
/// A descriptor without one, with an empty one, with one that is not a well-formed
/// code, or that is malformed XML declares none.
pub fn parse_theme_xml(xml: &str) -> (r: Option<ThemeCode>)
    ensures
        parent_view(r) == declared_parent(xml_events(xml@)),
{
    let events = read_events(xml);
    parent_from_events(&events)
}

/// `t` is the theme called `code` in `area`.
pub open spec fn is_named(t: Theme, area: Area, code: Seq<char>) -> bool {
    t.area == area && t.code_view() == code
}

/// Index of the first theme of `all` called `code` in `area`, or `all.len()`.
pub open spec fn first_named(all: Seq<Theme>, area: Area, code: Seq<char>) -> int
    decreases all.len(),
{
    if all.len() == 0 {
        0
    } else if is_named(all[0], area, code) {
        0
    } else {
        1 + first_named(all.drop_first(), area, code)
    }
}

/// Indices into `all` of the ancestors reached from `parent`, nearest first, following
/// at most `fuel` links. A link whose theme is missing in `area` ends the chain.
pub open spec fn chain_indices(all: Seq<Theme>, area: Area, parent: Option<Seq<char>>, fuel: nat) -> Seq<
    int,
>
    decreases fuel,
{
    if fuel == 0 {
        seq![]
    } else {
        match parent {
            None => seq![],
            Some(c) => {
                let i = first_named(all, area, c);
                if 0 <= i < all.len() {
                    seq![i] + chain_indices(all, area, parent_view(all[i].parent), (fuel - 1) as nat)
                } else {
                    seq![]
                }
            },
        }
    }
}

/// The ancestors of `theme` within `all`, nearest first. The walk follows at most as
/// many links as `all` has themes, so a cycle of parents cannot make it run forever.
pub open spec fn parent_chain_of(theme: Theme, all: Seq<Theme>) -> Seq<int> {
    chain_indices(all, theme.area, parent_view(theme.parent), all.len())
}

/// `first_named` is the position of the first matching theme, given that none comes before it.
pub proof fn lemma_first_named(all: Seq<Theme>, area: Area, code: Seq<char>, i: int)
    requires
        0 <= i <= all.len(),
        forall|j: int| 0 <= j < i ==> !is_named(#[trigger] all[j], area, code),
        i < all.len() ==> is_named(all[i], area, code),
    ensures
        first_named(all, area, code) == i,
    decreases all.len(),
{
    if all.len() > 0 && !is_named(all[0], area, code) {
        assert forall|j: int| 0 <= j < i - 1 implies !is_named(
            #[trigger] all.drop_first()[j],
            area,
            code,
        ) by {
            assert(all.drop_first()[j] == all[j + 1]);
        }
        lemma_first_named(all.drop_first(), area, code, i - 1);
    }
}

/// `first_named` lies between zero and the number of themes.
pub proof fn lemma_first_named_bounds(all: Seq<Theme>, area: Area, code: Seq<char>)
    ensures
        0 <= first_named(all, area, code) <= all.len(),
    decreases all.len(),
{
    if all.len() > 0 {
        lemma_first_named_bounds(all.drop_first(), area, code);
    }
}

/// A theme without a parent has no ancestors. A theme whose parent is not among the
/// themes of its own area has none either, the broken link being tolerated. A theme
/// whose parent is found, and has no parent of its own, has exactly that ancestor.
pub proof fn lemma_parent_chain_cases(theme: Theme, all: Seq<Theme>, code: Seq<char>)
    ensures
        theme.parent is None ==> parent_chain_of(theme, all) == Seq::<int>::empty(),
        parent_view(theme.parent) == Some(code) && (forall|j: int|
            0 <= j < all.len() ==> !is_named(#[trigger] all[j], theme.area, code))
            ==> parent_chain_of(theme, all) == Seq::<int>::empty(),
        parent_view(theme.parent) == Some(code) && first_named(all, theme.area, code) < all.len()
            && all[first_named(all, theme.area, code)].parent is None ==> parent_chain_of(
            theme,
            all,
        ) == seq![first_named(all, theme.area, code)],
{
    lemma_first_named_bounds(all, theme.area, code);
    if parent_view(theme.parent) == Some(code) && (forall|j: int|
        0 <= j < all.len() ==> !is_named(#[trigger] all[j], theme.area, code)) {
        lemma_first_named(all, theme.area, code, all.len() as int);
    }
    let i = first_named(all, theme.area, code);
    if parent_view(theme.parent) == Some(code) && i < all.len() && all[i].parent is None {
        assert(parent_view(all[i].parent) == None::<Seq<char>>);
        assert(chain_indices(all, theme.area, None, (all.len() - 1) as nat) == Seq::<int>::empty());
        assert(seq![i] + Seq::<int>::empty() =~= seq![i]);
    }
}

/// The first theme of `all` called `code` in `area`.
fn find_named(all: &[Theme], area: Area, code: &ThemeCode) -> (r: Option<usize>)
    ensures
        r matches Some(i) ==> i == first_named(all@, area, code@) && i < all@.len(),
        r is None ==> first_named(all@, area, code@) == all@.len(),
{
    let mut i: usize = 0;
    while i < all.len()
        invariant
            i <= all@.len(),
            forall|j: int| 0 <= j < i ==> !is_named(#[trigger] all@[j], area, code@),
        decreases all@.len() - i,
    {
        if all[i].area == area && all[i].code() == *code {
            proof {
                lemma_first_named(all@, area, code@, i as int);
            }
            return Some(i);
        }
        i = i + 1;
    }
    proof {
        lemma_first_named(all@, area, code@, i as int);
    }
    None
}

/// The ancestors of `theme` found in `all_themes`, nearest first. Only themes of the
/// same area count; a parent that cannot be found ends the chain without an error.
pub fn resolve_parent_chain<'a>(theme: &Theme, all_themes: &'a [Theme]) -> (r: Vec<&'a Theme>)
    ensures
        r@.len() == parent_chain_of(*theme, all_themes@).len(),
        forall|k: int|
            0 <= k < r@.len() ==> *#[trigger] r@[k] == all_themes@[parent_chain_of(
                *theme,
                all_themes@,
            )[k]],
{
    let ghost total = parent_chain_of(*theme, all_themes@);
    let ghost mut idx: Seq<int> = seq![];
    let mut chain: Vec<&'a Theme> = Vec::new();
    let mut current: Option<&ThemeCode> = match &theme.parent {
        Some(p) => Some(p),
        None => None,
    };
    loop
        invariant
            chain@.len() == idx.len(),
            chain@.len() <= all_themes@.len(),
            forall|k: int| 0 <= k < idx.len() ==> 0 <= #[trigger] idx[k] < all_themes@.len(),
            forall|k: int| 0 <= k < chain@.len() ==> *#[trigger] chain@[k] == all_themes@[idx[k]],
            total == idx + chain_indices(
                all_themes@,
                theme.area,
                match current {
                    Some(c) => Some(c@),
                    None => None,
                },
                (all_themes@.len() - chain@.len()) as nat,
            ),
        ensures
            total == idx,
        decreases all_themes@.len() - chain@.len(),
    {
        if chain.len() == all_themes.len() {
            assert(total =~= idx + seq![]);
            break ;
        }
        let code = match current {
            Some(c) => c,
            None => {
                assert(total =~= idx + seq![]);
                break ;
            },
        };
        match find_named(all_themes, theme.area, code) {
            None => {
                assert(total =~= idx + seq![]);
                break ;
            },
            Some(i) => {
                let found: &'a Theme = &all_themes[i];
                let ghost rest = chain_indices(
                    all_themes@,
                    theme.area,
                    parent_view(found.parent),
                    (all_themes@.len() - chain@.len() - 1) as nat,
                );
                assert(total == idx + (seq![i as int] + rest));
                assert(idx + (seq![i as int] + rest) =~= idx.push(i as int) + rest);
                chain.push(found);
                proof {
                    idx = idx.push(i as int);
                }
                current = match &found.parent {
                    Some(p) => Some(p),
                    None => None,
                };
            },
        }
    }
    chain
}

} // verus!
