//! Theme support at the planning boundary: the table of semantic token
//! dot-paths with their upstream source keys, and the theme error type.
//! The color engine itself is presentation code and lives with the UI.

use vstd::prelude::*;

verus! {

/// Whether a theme is light or dark.
#[derive(Debug, Clone, Copy, PartialEq, Eq, Structural)]
pub enum ThemeAppearance {
    Light,
    Dark,
}

/// Errors from theme operations.
#[derive(Debug, Clone)]
pub enum ThemeError {
    /// No theme with the given name exists in the registry.
    NotFound(String),
    /// A token path was not recognized.
    UnknownTokenPath(String),
    /// A hex color string was invalid.
    InvalidColor(String),
    /// An error occurred during theme import.
    Import(String),
    /// An error occurred during theme export.
    Export(String),
}

impl ThemeError {
    /// Renders the error as a human-readable line.
    pub fn to_string(&self) -> (r: String)
        ensures
            r@ == match self {
                ThemeError::NotFound(n) => "theme not found: '"@ + n@ + "'"@,
                ThemeError::UnknownTokenPath(p) => "unknown token path: '"@ + p@ + "'"@,
                ThemeError::InvalidColor(h) => "invalid hex color: '"@ + h@ + "'"@,
                ThemeError::Import(m) => "import error: "@ + m@,
                ThemeError::Export(m) => "export error: "@ + m@,
            },
    {
        match self {
            ThemeError::NotFound(n) => {
                let mut out = String::from_str("theme not found: '");
                out.append(n.as_str());
                out.append("'");
                out
            },
            ThemeError::UnknownTokenPath(p) => {
                let mut out = String::from_str("unknown token path: '");
                out.append(p.as_str());
                out.append("'");
                out
            },
            ThemeError::InvalidColor(h) => {
                let mut out = String::from_str("invalid hex color: '");
                out.append(h.as_str());
                out.append("'");
                out
            },
            ThemeError::Import(m) => {
                let mut out = String::from_str("import error: ");
                out.append(m.as_str());
                out
            },
            ThemeError::Export(m) => {
                let mut out = String::from_str("export error: ");
                out.append(m.as_str());
                out
            },
        }
    }
}

/// The token mapping, as a model: each semantic dot-path with its
/// source key in the upstream theme definition, in table order.
pub open spec fn token_mapping_model() -> Seq<(Seq<char>, Seq<char>)> {
    seq![
        ("border.default"@, "border"@),
        ("border.variant"@, "border.variant"@),
        ("border.focused"@, "border.focused"@),
        ("border.selected"@, "border.selected"@),
        ("border.transparent"@, "border.transparent"@),
        ("border.disabled"@, "border.disabled"@),
        ("surface.background"@, "background"@),
        ("surface.surface"@, "surface.background"@),
        ("surface.elevated_surface"@, "elevated_surface.background"@),
        ("element.background"@, "element.background"@),
        ("element.hover"@, "element.hover"@),
        ("element.active"@, "element.active"@),
        ("element.selected"@, "element.selected"@),
        ("element.disabled"@, "element.disabled"@),
        ("ghost_element.background"@, "ghost_element.background"@),
        ("ghost_element.hover"@, "ghost_element.hover"@),
        ("ghost_element.active"@, "ghost_element.active"@),
        ("ghost_element.selected"@, "ghost_element.selected"@),
        ("ghost_element.disabled"@, "ghost_element.disabled"@),
        ("text.default"@, "text"@),
        ("text.muted"@, "text.muted"@),
        ("text.placeholder"@, "text.placeholder"@),
        ("text.disabled"@, "text.disabled"@),
        ("text.accent"@, "text.accent"@),
        ("icon.default"@, "icon"@),
        ("icon.muted"@, "icon.muted"@),
        ("icon.disabled"@, "icon.disabled"@),
        ("icon.placeholder"@, "icon.placeholder"@),
        ("icon.accent"@, "icon.accent"@),
        ("status.error.foreground"@, "error"@),
        ("status.error.background"@, "error.background"@),
        ("status.error.border"@, "error.border"@),
        ("status.warning.foreground"@, "warning"@),
        ("status.warning.background"@, "warning.background"@),
        ("status.warning.border"@, "warning.border"@),
        ("status.info.foreground"@, "info"@),
        ("status.info.background"@, "info.background"@),
        ("status.info.border"@, "info.border"@),
        ("status.success.foreground"@, "success"@),
        ("status.success.background"@, "success.background"@),
        ("status.success.border"@, "success.border"@),
        ("status.hint.foreground"@, "hint"@),
        ("status.hint.background"@, "hint.background"@),
        ("status.hint.border"@, "hint.border"@),
        ("tab.bar_background"@, "tab_bar.background"@),
        ("tab.inactive_background"@, "tab.inactive_background"@),
        ("tab.active_background"@, "tab.active_background"@),
        ("panel.background"@, "panel.background"@),
        ("panel.focused_border"@, "panel.focused_border"@),
        ("chrome.title_bar_background"@, "title_bar.background"@),
        ("chrome.status_bar_background"@, "status_bar.background"@),
        ("chrome.toolbar_background"@, "toolbar.background"@),
        ("scrollbar.thumb_background"@, "scrollbar.thumb.background"@),
        ("scrollbar.thumb_hover_background"@, "scrollbar.thumb.hover_background"@),
        ("scrollbar.thumb_border"@, "scrollbar.thumb.border"@),
        ("scrollbar.track_background"@, "scrollbar.track.background"@),
        ("scrollbar.track_border"@, "scrollbar.track.border"@),
        ("player.cursor"@, "players[0].cursor"@),
        ("player.background"@, "players[0].background"@),
        ("player.selection"@, "players[0].selection"@),
        ("link.hover"@, "link_text.hover"@),
    ]
}

/// The mapping from each semantic token dot-path to its source key in
/// the upstream theme definition: exactly the rows of
/// `token_mapping_model`, in table order.
#[verifier::rlimit(100)]
#[verifier::spinoff_prover]
pub fn token_mapping() -> (m: Vec<(String, String)>)
    ensures
        m.deep_view() == token_mapping_model(),
{
    let mut m: Vec<(String, String)> = Vec::new();
    m.push((String::from_str("border.default"), String::from_str("border")));
    m.push((String::from_str("border.variant"), String::from_str("border.variant")));
    m.push((String::from_str("border.focused"), String::from_str("border.focused")));
    m.push((String::from_str("border.selected"), String::from_str("border.selected")));
    m.push((String::from_str("border.transparent"), String::from_str("border.transparent")));
    m.push((String::from_str("border.disabled"), String::from_str("border.disabled")));
    m.push((String::from_str("surface.background"), String::from_str("background")));
    m.push((String::from_str("surface.surface"), String::from_str("surface.background")));
    m.push((String::from_str("surface.elevated_surface"), String::from_str("elevated_surface.background")));
    m.push((String::from_str("element.background"), String::from_str("element.background")));
    m.push((String::from_str("element.hover"), String::from_str("element.hover")));
    m.push((String::from_str("element.active"), String::from_str("element.active")));
    m.push((String::from_str("element.selected"), String::from_str("element.selected")));
    m.push((String::from_str("element.disabled"), String::from_str("element.disabled")));
    m.push((String::from_str("ghost_element.background"), String::from_str("ghost_element.background")));
    m.push((String::from_str("ghost_element.hover"), String::from_str("ghost_element.hover")));
    m.push((String::from_str("ghost_element.active"), String::from_str("ghost_element.active")));
    m.push((String::from_str("ghost_element.selected"), String::from_str("ghost_element.selected")));
    m.push((String::from_str("ghost_element.disabled"), String::from_str("ghost_element.disabled")));
    m.push((String::from_str("text.default"), String::from_str("text")));
    m.push((String::from_str("text.muted"), String::from_str("text.muted")));
    m.push((String::from_str("text.placeholder"), String::from_str("text.placeholder")));
    m.push((String::from_str("text.disabled"), String::from_str("text.disabled")));
    m.push((String::from_str("text.accent"), String::from_str("text.accent")));
    m.push((String::from_str("icon.default"), String::from_str("icon")));
    m.push((String::from_str("icon.muted"), String::from_str("icon.muted")));
    m.push((String::from_str("icon.disabled"), String::from_str("icon.disabled")));
    m.push((String::from_str("icon.placeholder"), String::from_str("icon.placeholder")));
    m.push((String::from_str("icon.accent"), String::from_str("icon.accent")));
    m.push((String::from_str("status.error.foreground"), String::from_str("error")));
    m.push((String::from_str("status.error.background"), String::from_str("error.background")));
    m.push((String::from_str("status.error.border"), String::from_str("error.border")));
    m.push((String::from_str("status.warning.foreground"), String::from_str("warning")));
    m.push((String::from_str("status.warning.background"), String::from_str("warning.background")));
    m.push((String::from_str("status.warning.border"), String::from_str("warning.border")));
    m.push((String::from_str("status.info.foreground"), String::from_str("info")));
    m.push((String::from_str("status.info.background"), String::from_str("info.background")));
    m.push((String::from_str("status.info.border"), String::from_str("info.border")));
    m.push((String::from_str("status.success.foreground"), String::from_str("success")));
    m.push((String::from_str("status.success.background"), String::from_str("success.background")));
    m.push((String::from_str("status.success.border"), String::from_str("success.border")));
    m.push((String::from_str("status.hint.foreground"), String::from_str("hint")));
    m.push((String::from_str("status.hint.background"), String::from_str("hint.background")));
    m.push((String::from_str("status.hint.border"), String::from_str("hint.border")));
    m.push((String::from_str("tab.bar_background"), String::from_str("tab_bar.background")));
    m.push((String::from_str("tab.inactive_background"), String::from_str("tab.inactive_background")));
    m.push((String::from_str("tab.active_background"), String::from_str("tab.active_background")));
    m.push((String::from_str("panel.background"), String::from_str("panel.background")));
    m.push((String::from_str("panel.focused_border"), String::from_str("panel.focused_border")));
    m.push((String::from_str("chrome.title_bar_background"), String::from_str("title_bar.background")));
    m.push((String::from_str("chrome.status_bar_background"), String::from_str("status_bar.background")));
    m.push((String::from_str("chrome.toolbar_background"), String::from_str("toolbar.background")));
    m.push((String::from_str("scrollbar.thumb_background"), String::from_str("scrollbar.thumb.background")));
    m.push((String::from_str("scrollbar.thumb_hover_background"), String::from_str("scrollbar.thumb.hover_background")));
    m.push((String::from_str("scrollbar.thumb_border"), String::from_str("scrollbar.thumb.border")));
    m.push((String::from_str("scrollbar.track_background"), String::from_str("scrollbar.track.background")));
    m.push((String::from_str("scrollbar.track_border"), String::from_str("scrollbar.track.border")));
    m.push((String::from_str("player.cursor"), String::from_str("players[0].cursor")));
    m.push((String::from_str("player.background"), String::from_str("players[0].background")));
    m.push((String::from_str("player.selection"), String::from_str("players[0].selection")));
    m.push((String::from_str("link.hover"), String::from_str("link_text.hover")));
    proof {
        assert(m.deep_view() =~= token_mapping_model());
    }
    m
}

/// The supported token dot-paths: the first component of each mapping
/// row, in table order.
pub fn all_token_paths() -> (r: Vec<String>)
    ensures
        r.deep_view().len() == token_mapping_model().len(),
        forall|i: int|
            0 <= i < token_mapping_model().len() ==> r.deep_view()[i]
                == token_mapping_model()[i].0,
{
    let m = token_mapping();
    let ghost mm = m.deep_view();
    let mut r: Vec<String> = Vec::new();
    let mut i: usize = 0;
    while i < m.len()
        invariant
            mm == m.deep_view(),
            mm == token_mapping_model(),
            i <= mm.len(),
            mm.len() == m@.len(),
            r.deep_view().len() == i,
            forall|k: int| 0 <= k < i ==> r.deep_view()[k] == mm[k].0,
        decreases mm.len() - i,
    {
        let ghost rb = r.deep_view();
        r.push(m[i].0.clone());
        proof {
            assert(r.deep_view() =~= rb.push(mm[i as int].0));
        }
        i = i + 1;
    }
    r
}

} // verus!
