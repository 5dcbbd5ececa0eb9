//! The style view: choosing a Pico theme for the site and previewing it.

use vstd::prelude::*;
use crate::text::{
    char_to_uppercase, copy_str, push_chars, push_str, str_eq, string_push, to_chars, u64_to_decimal,
    decimal, unicode_uppercase,
};

verus! {

/// The theme used when none (or an unknown one) is configured.
pub const DEFAULT_THEME: &'static str = "default";

/// Host of the local preview server.
pub const PREVIEW_HOST: &'static str = "127.0.0.1";

/// Port of the local preview server.
pub const PREVIEW_PORT: u16 = 4123;

/// Colour scheme of the preview.
#[derive(Debug, Clone, Copy, PartialEq, Eq, Structural)]
pub enum PreviewMode {
    Auto,
    Light,
    Dark,
}

/// The query value of each preview mode.
pub open spec fn preview_mode_value(mode: PreviewMode) -> &'static str {
    match mode {
        PreviewMode::Auto => "auto",
        PreviewMode::Light => "light",
        PreviewMode::Dark => "dark",
    }
}

impl PreviewMode {
    /// The `mode=` query value of the preview URL.
    pub fn query_value(self) -> (res: &'static str)
        ensures
            res == preview_mode_value(self),
    {
        match self {
            PreviewMode::Auto => "auto",
            PreviewMode::Light => "light",
            PreviewMode::Dark => "dark",
        }
    }
}

/// A theme of the catalog, with its accent and background colours.
#[derive(Debug, Clone, Copy, PartialEq, Eq)]
pub struct StyleTheme {
    pub name: &'static str,
    pub accent_color: &'static str,
    pub light_bg_color: &'static str,
    pub dark_bg_color: &'static str,
}

/// A catalog entry with the shared background colours.
pub open spec fn theme_spec(name: &'static str, accent: &'static str) -> StyleTheme {
    StyleTheme { name: name, accent_color: accent, light_bg_color: "#ffffff", dark_bg_color: "#13171f" }
}

/// The theme catalog, in display order.
pub open spec fn themes_spec() -> Seq<StyleTheme> {
    seq![
        theme_spec("default", "#0172ad"),
        theme_spec("amber", "#ffbf00"),
        theme_spec("blue", "#2060df"),
        theme_spec("cyan", "#047878"),
        theme_spec("fuchsia", "#c1208b"),
        theme_spec("green", "#398712"),
        theme_spec("grey", "#ababab"),
        theme_spec("indigo", "#524ed2"),
        theme_spec("jade", "#007a50"),
        theme_spec("lime", "#a5d601"),
        theme_spec("orange", "#d24317"),
        theme_spec("pink", "#d92662"),
        theme_spec("pumpkin", "#ff9500"),
        theme_spec("purple", "#9236a4"),
        theme_spec("red", "#c52f21"),
        theme_spec("sand", "#ccc6b4"),
        theme_spec("slate", "#525f7a"),
        theme_spec("violet", "#7540bf"),
        theme_spec("yellow", "#f2df0d"),
        theme_spec("zinc", "#646b79"),
    ]
}

/// A catalog entry with the shared background colours.
fn theme(name: &'static str, accent: &'static str) -> (t: StyleTheme)
    ensures
        t == theme_spec(name, accent),
{
    StyleTheme { name, accent_color: accent, light_bg_color: "#ffffff", dark_bg_color: "#13171f" }
}

/// The theme catalog, in display order.
pub fn themes() -> (res: Vec<StyleTheme>)
    ensures
        res@ == themes_spec(),
{
    let mut v: Vec<StyleTheme> = Vec::new();
    v.push(theme("default", "#0172ad"));
    v.push(theme("amber", "#ffbf00"));
    v.push(theme("blue", "#2060df"));
    v.push(theme("cyan", "#047878"));
    v.push(theme("fuchsia", "#c1208b"));
    v.push(theme("green", "#398712"));
    v.push(theme("grey", "#ababab"));
    v.push(theme("indigo", "#524ed2"));
    v.push(theme("jade", "#007a50"));
    v.push(theme("lime", "#a5d601"));
    v.push(theme("orange", "#d24317"));
    v.push(theme("pink", "#d92662"));
    v.push(theme("pumpkin", "#ff9500"));
    v.push(theme("purple", "#9236a4"));
    v.push(theme("red", "#c52f21"));
    v.push(theme("sand", "#ccc6b4"));
    v.push(theme("slate", "#525f7a"));
    v.push(theme("violet", "#7540bf"));
    v.push(theme("yellow", "#f2df0d"));
    v.push(theme("zinc", "#646b79"));
    assert(v@ =~= themes_spec());
    v
}

/// Whether `name` is a theme of the catalog.
pub open spec fn supported_theme(name: Seq<char>) -> bool {
    exists|i: int| 0 <= i < themes_spec().len() && (#[trigger] themes_spec()[i]).name@ == name
}

/// Whether `theme` is a theme of the catalog.
pub fn is_supported_theme(theme: &str) -> (res: bool)
    ensures
        res == supported_theme(theme@),
{
    let all = themes();
    let mut i: usize = 0;
    while i < all.len()
        invariant
            all@ == themes_spec(),
            i <= all@.len(),
            forall|k: int| 0 <= k < i ==> all@[k].name@ != theme@,
        decreases all@.len() - i,
    {
        if str_eq(all[i].name, theme) {
            return true;
        }
        i = i + 1;
    }
    false
}

/// A configured theme, falling back to the default when missing or unknown.
pub open spec fn normalized_theme(theme: Option<Seq<char>>) -> Seq<char> {
    match theme {
        Some(t) => if supported_theme(t) { t } else { DEFAULT_THEME@ },
        None => DEFAULT_THEME@,
    }
}

/// The view of an optional string slice.
pub open spec fn opt_str_view(s: Option<&str>) -> Option<Seq<char>> {
    match s {
        Some(t) => Some(t@),
        None => None,
    }
}

/// A configured theme, falling back to the default when missing or unknown.
pub fn normalize_theme(theme: Option<&str>) -> (res: String)
    ensures
        res@ == normalized_theme(opt_str_view(theme)),
{
    match theme {
        Some(t) => if is_supported_theme(t) {
            copy_str(t)
        } else {
            copy_str(DEFAULT_THEME)
        },
        None => copy_str(DEFAULT_THEME),
    }
}

/// `s` with every `-` replaced by a space.
pub open spec fn dashes_to_spaces(s: Seq<char>) -> Seq<char> {
    s.map_values(|c: char| if c == '-' { ' ' } else { c })
}

/// A theme's display name: dashes become spaces and the first character
/// is uppercased.
pub open spec fn display_name_spec(theme: Seq<char>) -> Seq<char> {
    let r = dashes_to_spaces(theme);
    if r.len() == 0 {
        Seq::empty()
    } else {
        unicode_uppercase(r[0]) + r.drop_first()
    }
}

/// A theme's display name: dashes become spaces and the first character
/// is uppercased.
pub fn display_theme_name(theme: &str) -> (res: String)
    ensures
        res@ == display_name_spec(theme@),
{
    let chars = to_chars(theme);
    let mut replaced: Vec<char> = Vec::new();
    let mut i: usize = 0;
    while i < chars.len()
        invariant
            i <= chars@.len(),
            replaced@ == dashes_to_spaces(chars@.take(i as int)),
        decreases chars@.len() - i,
    {
        let c = chars[i];
        replaced.push(if c == '-' { ' ' } else { c });
        i = i + 1;
        assert(dashes_to_spaces(chars@.take(i as int)) =~= dashes_to_spaces(chars@.take((i - 1) as int)).push(
            if c == '-' { ' ' } else { c },
        ));
    }
    assert(chars@.take(chars@.len() as int) =~= chars@);
    let mut res = String::new();
    if replaced.len() == 0 {
        return res;
    }
    let upper = char_to_uppercase(replaced[0]);
    push_chars(&mut res, upper.as_slice());
    let mut k: usize = 1;
    while k < replaced.len()
        invariant
            1 <= k <= replaced@.len(),
            res@ == unicode_uppercase(replaced@[0]) + replaced@.subrange(1, k as int),
        decreases replaced@.len() - k,
    {
        string_push(&mut res, replaced[k]);
        k = k + 1;
        assert(replaced@.subrange(1, k as int) =~= replaced@.subrange(1, (k - 1) as int).push(replaced@[k - 1]));
    }
    assert(replaced@.subrange(1, replaced@.len() as int) =~= replaced@.drop_first());
    res
}

/// The style view: the theme selected for preview, the theme applied to
/// the site, and the preview's colour scheme.
#[derive(Debug, Clone)]
pub struct StyleViewState {
    pub selected_theme: String,
    pub applied_theme: String,
    pub preview_mode: PreviewMode,
}

/// The preview URL for a theme and mode.
pub open spec fn preview_url_spec(theme: Seq<char>, mode: PreviewMode) -> Seq<char> {
    "http://"@ + PREVIEW_HOST@ + ":"@ + decimal(PREVIEW_PORT as nat) + "/__style-preview?theme="@ + theme
        + "&mode="@ + preview_mode_value(mode)@
}

impl StyleViewState {
    /// Both themes are in the catalog.
    pub open spec fn valid(&self) -> bool {
        supported_theme(self.selected_theme@) && supported_theme(self.applied_theme@)
    }

    /// The state for the configured theme, selected and applied.
    pub fn new(applied_theme: Option<&str>) -> (s: Self)
        ensures
            s.applied_theme@ == normalized_theme(opt_str_view(applied_theme)),
            s.selected_theme@ == s.applied_theme@,
            s.preview_mode == PreviewMode::Auto,
    {
        let applied = normalize_theme(applied_theme);
        StyleViewState { selected_theme: copy_str(applied.as_str()), applied_theme: applied, preview_mode: PreviewMode::Auto }
    }

    /// Selects a theme for preview; unknown themes are ignored.
    pub fn select_theme(&mut self, theme: &str)
        ensures
            final(self).selected_theme@ == (if supported_theme(theme@) { theme@ } else { old(self).selected_theme@ }),
            final(self).applied_theme == old(self).applied_theme,
            final(self).preview_mode == old(self).preview_mode,
    {
        if is_supported_theme(theme) {
            self.selected_theme = copy_str(theme);
        }
    }

    /// Sets the preview's colour scheme.
    pub fn set_preview_mode(&mut self, mode: PreviewMode)
        ensures
            final(self).preview_mode == mode,
            final(self).selected_theme == old(self).selected_theme,
            final(self).applied_theme == old(self).applied_theme,
    {
        self.preview_mode = mode;
    }

    /// Whether the selection differs from the applied theme.
    pub fn can_apply(&self) -> (res: bool)
        ensures
            res == (self.selected_theme@ != self.applied_theme@),
    {
        !str_eq(self.selected_theme.as_str(), self.applied_theme.as_str())
    }

    /// Records the selection as applied.
    pub fn mark_applied(&mut self)
        ensures
            final(self).applied_theme@ == old(self).selected_theme@,
            final(self).selected_theme == old(self).selected_theme,
            final(self).preview_mode == old(self).preview_mode,
    {
        self.applied_theme = copy_str(self.selected_theme.as_str());
    }

    /// Takes the applied theme from configuration; a pending selection (one
    /// that differs from the applied theme) is kept, otherwise the selection
    /// follows.
    pub fn refresh_applied_theme(&mut self, applied_theme: Option<&str>)
        ensures
            final(self).applied_theme@ == normalized_theme(opt_str_view(applied_theme)),
            old(self).selected_theme@ != old(self).applied_theme@ ==> final(self).selected_theme
                == old(self).selected_theme,
            old(self).selected_theme@ == old(self).applied_theme@ ==> final(self).selected_theme@
                == final(self).applied_theme@,
            final(self).preview_mode == old(self).preview_mode,
    {
        let preserve = self.can_apply();
        self.applied_theme = normalize_theme(applied_theme);
        if !preserve {
            self.selected_theme = copy_str(self.applied_theme.as_str());
        }
    }

    /// The URL of the local preview of the selected theme.
    pub fn preview_url(&self) -> (res: String)
        ensures
            res@ == preview_url_spec(self.selected_theme@, self.preview_mode),
    {
        let mut url = copy_str("http://");
        push_str(&mut url, PREVIEW_HOST);
        push_str(&mut url, ":");
        let port = u64_to_decimal(PREVIEW_PORT as u64);
        push_str(&mut url, port.as_str());
        push_str(&mut url, "/__style-preview?theme=");
        push_str(&mut url, self.selected_theme.as_str());
        push_str(&mut url, "&mode=");
        push_str(&mut url, self.preview_mode.query_value());
        url
    }
}

/// The default theme is in the catalog.
pub proof fn lemma_default_supported()
    ensures
        supported_theme(DEFAULT_THEME@),
{
    assert(themes_spec()[0].name == "default");
    assert(themes_spec()[0].name@ == DEFAULT_THEME@);
}

/// Law: a normalised theme is always in the catalog.
pub proof fn law_normalized_theme_supported(theme: Option<Seq<char>>)
    ensures
        supported_theme(normalized_theme(theme)),
{
    lemma_default_supported();
}

/// What the style view asks for.
#[derive(Debug, Clone)]
pub enum StyleMsg {
    SelectTheme(String),
    PreviewModeChanged(PreviewMode),
    Apply,
}

} // verus!
