//! The structured input of the resolution pipeline: a theme specification
//! with metadata, a palette, tokens, styles, and gradients.
//!
//! Values of these types are produced outside the core (for example by a
//! configuration-file parser); the pipeline only consumes them.

use crate::table::Table;
use vstd::prelude::*;

verus! {

/// Whether a theme is designed for dark or light backgrounds.
#[derive(Debug, Clone, Copy, PartialEq, Eq, Structural)]
pub enum ThemeVariant {
    Dark,
    Light,
}

impl ThemeVariant {
    /// The variant's display label.
    pub fn label(&self) -> (s: &'static str)
        ensures
            *self == ThemeVariant::Dark ==> s@ == "Dark"@,
            *self == ThemeVariant::Light ==> s@ == "Light"@,
    {
        match self {
            ThemeVariant::Dark => "Dark",
            ThemeVariant::Light => "Light",
        }
    }
}

impl Default for ThemeVariant {
    /// Themes are dark unless declared otherwise.
    fn default() -> (v: Self)
        ensures
            v == ThemeVariant::Dark,
    {
        ThemeVariant::Dark
    }
}

/// Theme metadata: the display name and optional descriptive fields.
#[derive(Debug, Clone)]
pub struct ThemeMeta {
    pub name: String,
    pub author: Option<String>,
    pub variant: ThemeVariant,
    pub version: Option<String>,
    pub description: Option<String>,
}

/// Mathematical image of a [`ThemeMeta`].
pub struct ThemeMetaView {
    pub name: Seq<char>,
    pub author: Option<Seq<char>>,
    pub variant: ThemeVariant,
    pub version: Option<Seq<char>>,
    pub description: Option<Seq<char>>,
}

/// The image of an optional string.
pub open spec fn opt_str_view(s: &Option<String>) -> Option<Seq<char>> {
    match s {
        Some(x) => Some(x@),
        None => None,
    }
}

impl View for ThemeMeta {
    type V = ThemeMetaView;

    open spec fn view(&self) -> ThemeMetaView {
        ThemeMetaView {
            name: self.name@,
            author: opt_str_view(&self.author),
            variant: self.variant,
            version: opt_str_view(&self.version),
            description: opt_str_view(&self.description),
        }
    }
}

impl ThemeMeta {
    /// Create metadata with just a name; everything else defaults.
    pub fn new(name: &str) -> (m: Self)
        ensures
            m@.name == name@,
            m@.author is None,
            m@.variant == ThemeVariant::Dark,
            m@.version is None,
            m@.description is None,
    {
        ThemeMeta {
            name: name.to_owned(),
            author: None,
            variant: ThemeVariant::Dark,
            version: None,
            description: None,
        }
    }
}

/// Style definition as authored: two optional color references plus
/// modifier flags. References are resolved against the token and palette
/// namespaces during resolution.
#[derive(Debug, Clone)]
pub struct StyleDef {
    pub fg: Option<String>,
    pub bg: Option<String>,
    pub bold: bool,
    pub italic: bool,
    pub underline: bool,
    pub dim: bool,
}

/// Mathematical image of a [`StyleDef`].
pub struct StyleDefView {
    pub fg: Option<Seq<char>>,
    pub bg: Option<Seq<char>>,
    pub bold: bool,
    pub italic: bool,
    pub underline: bool,
    pub dim: bool,
}

impl View for StyleDef {
    type V = StyleDefView;

    open spec fn view(&self) -> StyleDefView {
        StyleDefView {
            fg: opt_str_view(&self.fg),
            bg: opt_str_view(&self.bg),
            bold: self.bold,
            italic: self.italic,
            underline: self.underline,
            dim: self.dim,
        }
    }
}

impl Default for StyleDef {
    /// The default definition has no colors and no modifiers.
    fn default() -> (d: Self)
        ensures
            d@.fg is None,
            d@.bg is None,
            !d@.bold,
            !d@.italic,
            !d@.underline,
            !d@.dim,
    {
        StyleDef { fg: None, bg: None, bold: false, italic: false, underline: false, dim: false }
    }
}

/// An ordered list of gradient stop references, as authored.
#[derive(Debug, Clone)]
pub struct StopList {
    pub stops: Vec<String>,
}

impl View for StopList {
    type V = Seq<Seq<char>>;

    open spec fn view(&self) -> Seq<Seq<char>> {
        self.stops@.map_values(|s: String| s@)
    }
}

impl StopList {
    /// Wrap a list of stop references.
    pub fn new(stops: Vec<String>) -> (l: Self)
        ensures
            l@ == stops@.map_values(|s: String| s@),
    {
        StopList { stops }
    }
}

/// Top-level structure of a theme specification.
#[derive(Debug, Clone)]
pub struct ThemeFile {
    pub meta: ThemeMeta,
    /// Raw hex color definitions (e.g. `purple_500 = "#e135ff"`).
    pub palette: Table<String>,
    /// Semantic token assignments referencing palette names, other tokens,
    /// or hex literals.
    pub tokens: Table<String>,
    /// Composed styles with fg/bg references and modifiers.
    pub styles: Table<StyleDef>,
    /// Named gradients as ordered lists of color references.
    pub gradients: Table<StopList>,
}

impl ThemeFile {
    /// Well-formedness: each section keeps its keys unique.
    pub open spec fn wf(&self) -> bool {
        self.palette.wf() && self.tokens.wf() && self.styles.wf() && self.gradients.wf()
    }

    /// Create an empty specification with the given metadata.
    pub fn new(meta: ThemeMeta) -> (f: Self)
        ensures
            f.meta@ == meta@,
            f.palette@.len() == 0,
            f.tokens@.len() == 0,
            f.styles@.len() == 0,
            f.gradients@.len() == 0,
            f.wf(),
    {
        ThemeFile {
            meta,
            palette: Table::new(),
            tokens: Table::new(),
            styles: Table::new(),
            gradients: Table::new(),
        }
    }
}

} // verus!
