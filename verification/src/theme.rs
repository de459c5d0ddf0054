//! The immutable resolved theme and its programmatic builder.
//!
//! A [`Theme`] is the output of the resolution pipeline (or of the
//! builder): fully concrete maps from names to colors, styles, and
//! gradients, plus metadata. Read accessors are lenient: a missing name
//! yields the fallback color, the empty style, or `None`, never an error.

use crate::color::{spec_fallback_color, OpalineColor};
use crate::gradient::{spec_gradient_at, Gradient};
use crate::resolver::ResolvedTheme;
use crate::schema::{ThemeMeta, ThemeMetaView, ThemeVariant};
use crate::style::{spec_empty_style, OpalineStyle};
use crate::table::{table_get, table_has, Table};
use vstd::prelude::*;

verus! {

/// Mathematical image of a [`Theme`] or a [`ThemeBuilder`].
pub struct ThemeView {
    pub meta: ThemeMetaView,
    pub palette: Seq<(Seq<char>, OpalineColor)>,
    pub tokens: Seq<(Seq<char>, OpalineColor)>,
    pub styles: Seq<(Seq<char>, OpalineStyle)>,
    pub gradients: Seq<(Seq<char>, Seq<OpalineColor>)>,
}

/// The color a theme yields for a name: tokens first, then palette, then
/// the fallback gray.
pub open spec fn spec_theme_color(v: ThemeView, name: Seq<char>) -> OpalineColor {
    if table_has(v.tokens, name) {
        table_get(v.tokens, name)
    } else if table_has(v.palette, name) {
        table_get(v.palette, name)
    } else {
        spec_fallback_color()
    }
}

/// The optional color a theme yields for a name, without the fallback.
pub open spec fn spec_theme_try_color(v: ThemeView, name: Seq<char>) -> Option<OpalineColor> {
    if table_has(v.tokens, name) {
        Some(table_get(v.tokens, name))
    } else if table_has(v.palette, name) {
        Some(table_get(v.palette, name))
    } else {
        None
    }
}

/// A fully resolved theme ready for use.
///
/// Contains resolved palette colors, semantic tokens, composed styles,
/// and gradients. The value is immutable after construction except for
/// the explicit `register_*` extension points.
#[derive(Debug, Clone)]
pub struct Theme {
    pub meta: ThemeMeta,
    palette: Table<OpalineColor>,
    tokens: Table<OpalineColor>,
    styles: Table<OpalineStyle>,
    gradients: Table<Gradient>,
}

impl View for Theme {
    type V = ThemeView;

    closed spec fn view(&self) -> ThemeView {
        ThemeView {
            meta: self.meta@,
            palette: self.palette@,
            tokens: self.tokens@,
            styles: self.styles@,
            gradients: self.gradients@,
        }
    }
}

impl Theme {
    /// Well-formedness: unique keys per section and non-empty gradients.
    pub closed spec fn wf(&self) -> bool {
        self.palette.wf() && self.tokens.wf() && self.styles.wf() && self.gradients.wf() && (
        forall|j: int| 0 <= j < self.gradients@.len() ==> #[trigger] self.gradients@[j].1.len()
            >= 1)
    }

    /// Construct a `Theme` from pre-resolved data.
    ///
    /// Use this when the resolution pipeline has already run; the builder
    /// is the other way to produce a theme without raw input.
    pub fn from_resolved(meta: ThemeMeta, resolved: ResolvedTheme) -> (t: Self)
        requires
            resolved.wf(),
        ensures
            t.wf(),
            t@.meta == meta@,
            t@.palette == resolved@.palette,
            t@.tokens == resolved@.tokens,
            t@.styles == resolved@.styles,
            t@.gradients == resolved@.gradients,
    {
        Theme {
            meta,
            palette: resolved.palette,
            tokens: resolved.tokens,
            styles: resolved.styles,
            gradients: resolved.gradients,
        }
    }

    /// Start building a theme programmatically.
    pub fn builder(name: &str) -> (b: ThemeBuilder)
        ensures
            b.wf(),
            b@.meta.name == name@,
            b@.meta.author is None,
            b@.meta.variant == ThemeVariant::Dark,
            b@.meta.version is None,
            b@.meta.description is None,
            b@.palette.len() == 0,
            b@.tokens.len() == 0,
            b@.styles.len() == 0,
            b@.gradients.len() == 0,
    {
        ThemeBuilder {
            meta: ThemeMeta::new(name),
            palette: Table::new(),
            tokens: Table::new(),
            styles: Table::new(),
            gradients: Table::new(),
        }
    }

    /// Borrow the theme's metadata.
    pub fn meta_ref(&self) -> (m: &ThemeMeta)
        ensures
            m@ == self@.meta,
    {
        &self.meta
    }

    // ── Color access ────────────────────────────────────────────────────

    /// Look up a color by token name, falling back to the palette, then
    /// to the fallback gray: read access never errors.
    pub fn color(&self, token: &str) -> (c: OpalineColor)
        ensures
            c == spec_theme_color(self@, token@),
    {
        if let Some(c) = self.tokens.get(token) {
            *c
        } else if let Some(c) = self.palette.get(token) {
            *c
        } else {
            OpalineColor::fallback()
        }
    }

    /// Strict color lookup: `None` when the name exists nowhere.
    pub fn try_color(&self, token: &str) -> (c: Option<OpalineColor>)
        ensures
            c == spec_theme_try_color(self@, token@),
    {
        if let Some(c) = self.tokens.get(token) {
            Some(*c)
        } else if let Some(c) = self.palette.get(token) {
            Some(*c)
        } else {
            None
        }
    }

    /// Whether a token or palette name exists.
    pub fn has_token(&self, name: &str) -> (r: bool)
        ensures
            r == (table_has(self@.tokens, name@) || table_has(self@.palette, name@)),
    {
        self.tokens.contains_key(name) || self.palette.contains_key(name)
    }

    /// All token names defined in this theme, in entry order.
    pub fn token_names(&self) -> (r: Vec<&str>)
        ensures
            r@.len() == self@.tokens.len(),
            forall|i: int| 0 <= i < r@.len() ==> r@[i]@ == self@.tokens[i].0,
    {
        self.tokens.keys()
    }

    /// All palette color names defined in this theme, in entry order.
    pub fn palette_names(&self) -> (r: Vec<&str>)
        ensures
            r@.len() == self@.palette.len(),
            forall|i: int| 0 <= i < r@.len() ==> r@[i]@ == self@.palette[i].0,
    {
        self.palette.keys()
    }

    // ── Style access ────────────────────────────────────────────────────

    /// Look up a style by name, returning the empty style when missing.
    pub fn style(&self, name: &str) -> (s: OpalineStyle)
        ensures
            table_has(self@.styles, name@) ==> s == table_get(self@.styles, name@),
            !table_has(self@.styles, name@) ==> s == spec_empty_style(),
    {
        if let Some(s) = self.styles.get(name) {
            *s
        } else {
            OpalineStyle::new()
        }
    }

    /// Strict style lookup: `None` when the style does not exist.
    pub fn try_style(&self, name: &str) -> (s: Option<&OpalineStyle>)
        ensures
            match s {
                Some(st) => table_has(self@.styles, name@) && *st == table_get(
                    self@.styles,
                    name@,
                ),
                None => !table_has(self@.styles, name@),
            },
    {
        self.styles.get(name)
    }

    /// Whether a named style exists.
    pub fn has_style(&self, name: &str) -> (r: bool)
        ensures
            r == table_has(self@.styles, name@),
    {
        self.styles.contains_key(name)
    }

    /// All style names defined in this theme, in entry order.
    pub fn style_names(&self) -> (r: Vec<&str>)
        ensures
            r@.len() == self@.styles.len(),
            forall|i: int| 0 <= i < r@.len() ==> r@[i]@ == self@.styles[i].0,
    {
        self.styles.keys()
    }

    // ── Gradient access ─────────────────────────────────────────────────

    /// Sample a named gradient at the rational position `t_num / t_den`.
    /// Returns the fallback gray when the gradient does not exist.
    pub fn gradient(&self, name: &str, t_num: i64, t_den: i64) -> (c: OpalineColor)
        requires
            self.wf(),
            1 <= t_den,
        ensures
            table_has(self@.gradients, name@) ==> c == spec_gradient_at(
                table_get(self@.gradients, name@),
                t_num as int,
                t_den as int,
            ),
            !table_has(self@.gradients, name@) ==> c == spec_fallback_color(),
    {
        if let Some(g) = self.get_gradient(name) {
            g.at(t_num, t_den)
        } else {
            OpalineColor::fallback()
        }
    }

    /// Strict gradient sampling: `None` when the gradient does not exist.
    pub fn try_gradient(&self, name: &str, t_num: i64, t_den: i64) -> (c: Option<OpalineColor>)
        requires
            self.wf(),
            1 <= t_den,
        ensures
            match c {
                Some(cc) => table_has(self@.gradients, name@) && cc == spec_gradient_at(
                    table_get(self@.gradients, name@),
                    t_num as int,
                    t_den as int,
                ),
                None => !table_has(self@.gradients, name@),
            },
    {
        if let Some(g) = self.get_gradient(name) {
            Some(g.at(t_num, t_den))
        } else {
            None
        }
    }

    /// Get a reference to a named gradient for manual sampling.
    pub fn get_gradient(&self, name: &str) -> (g: Option<&Gradient>)
        ensures
            match g {
                Some(gr) => table_has(self@.gradients, name@) && gr@ == table_get(
                    self@.gradients,
                    name@,
                ) && (self.wf() ==> gr.wf()),
                None => !table_has(self@.gradients, name@),
            },
    {
        let r = self.gradients.get(name);
        proof {
            if let Some(gr) = r {
                if self.wf() {
                    crate::table::lemma_table_index_valid(self@.gradients, name@);
                }
            }
        }
        r
    }

    /// Whether a named gradient exists.
    pub fn has_gradient(&self, name: &str) -> (r: bool)
        ensures
            r == table_has(self@.gradients, name@),
    {
        self.gradients.contains_key(name)
    }

    /// All gradient names defined in this theme, in entry order.
    pub fn gradient_names(&self) -> (r: Vec<&str>)
        ensures
            r@.len() == self@.gradients.len(),
            forall|i: int| 0 <= i < r@.len() ==> r@[i]@ == self@.gradients[i].0,
    {
        self.gradients.keys()
    }

    // ── Variant helpers ─────────────────────────────────────────────────

    /// Whether this is a dark theme.
    pub fn is_dark(&self) -> (r: bool)
        ensures
            r == (self@.meta.variant == ThemeVariant::Dark),
    {
        self.meta.variant == ThemeVariant::Dark
    }

    /// Whether this is a light theme.
    pub fn is_light(&self) -> (r: bool)
        ensures
            r == (self@.meta.variant == ThemeVariant::Light),
    {
        self.meta.variant == ThemeVariant::Light
    }

    // ── Token and style injection ───────────────────────────────────────

    /// Register a token only if the theme does not already define it.
    ///
    /// Specification-defined values take priority, so theme authors can
    /// override application-derived tokens.
    pub fn register_default_token(&mut self, name: &str, color: OpalineColor)
        requires
            old(self).wf(),
        ensures
            final(self).wf(),
            table_has(old(self)@.tokens, name@) ==> final(self)@ == old(self)@,
            !table_has(old(self)@.tokens, name@) ==> final(self)@ == (ThemeView {
                tokens: old(self)@.tokens.push((name@, color)),
                ..old(self)@
            }),
    {
        self.tokens.insert_if_absent(name, color);
    }

    /// Register a token, overwriting any existing value in place and
    /// leaving every other entry untouched.
    pub fn register_token(&mut self, name: &str, color: OpalineColor)
        requires
            old(self).wf(),
        ensures
            final(self).wf(),
            table_has(final(self)@.tokens, name@),
            table_get(final(self)@.tokens, name@) == color,
            table_has(old(self)@.tokens, name@) ==> final(self)@.tokens == old(
                self,
            )@.tokens.update(crate::table::table_index(old(self)@.tokens, name@), (name@, color)),
            !table_has(old(self)@.tokens, name@) ==> final(self)@.tokens == old(
                self,
            )@.tokens.push((name@, color)),
            final(self)@.meta == old(self)@.meta,
            final(self)@.palette == old(self)@.palette,
            final(self)@.styles == old(self)@.styles,
            final(self)@.gradients == old(self)@.gradients,
    {
        proof {
            if table_has(self@.tokens, name@) {
                crate::table::lemma_table_index_valid(self@.tokens, name@);
            }
        }
        self.tokens.insert(name, color);
        proof {
            if table_has(old(self)@.tokens, name@) {
                let i = crate::table::table_index(old(self)@.tokens, name@);
                crate::table::lemma_table_index_of_first(self@.tokens, name@, i);
            } else {
                crate::table::lemma_table_index_of_first(
                    self@.tokens,
                    name@,
                    old(self)@.tokens.len() as int,
                );
            }
        }
    }

    /// Register a style only if the theme does not already define it.
    pub fn register_default_style(&mut self, name: &str, style: OpalineStyle)
        requires
            old(self).wf(),
        ensures
            final(self).wf(),
            table_has(old(self)@.styles, name@) ==> final(self)@ == old(self)@,
            !table_has(old(self)@.styles, name@) ==> final(self)@ == (ThemeView {
                styles: old(self)@.styles.push((name@, style)),
                ..old(self)@
            }),
    {
        self.styles.insert_if_absent(name, style);
    }

    /// Register a style, overwriting any existing value in place and
    /// leaving every other entry untouched.
    pub fn register_style(&mut self, name: &str, style: OpalineStyle)
        requires
            old(self).wf(),
        ensures
            final(self).wf(),
            table_has(final(self)@.styles, name@),
            table_get(final(self)@.styles, name@) == style,
            table_has(old(self)@.styles, name@) ==> final(self)@.styles == old(
                self,
            )@.styles.update(crate::table::table_index(old(self)@.styles, name@), (name@, style)),
            !table_has(old(self)@.styles, name@) ==> final(self)@.styles == old(
                self,
            )@.styles.push((name@, style)),
            final(self)@.meta == old(self)@.meta,
            final(self)@.palette == old(self)@.palette,
            final(self)@.tokens == old(self)@.tokens,
            final(self)@.gradients == old(self)@.gradients,
    {
        proof {
            if table_has(self@.styles, name@) {
                crate::table::lemma_table_index_valid(self@.styles, name@);
            }
        }
        self.styles.insert(name, style);
        proof {
            if table_has(old(self)@.styles, name@) {
                let i = crate::table::table_index(old(self)@.styles, name@);
                crate::table::lemma_table_index_of_first(self@.styles, name@, i);
            } else {
                crate::table::lemma_table_index_of_first(
                    self@.styles,
                    name@,
                    old(self)@.styles.len() as int,
                );
            }
        }
    }
}

impl Default for Theme {
    /// The default theme is the built-in default.
    fn default() -> (t: Self)
        ensures
            t.wf(),
    {
        crate::builtins::silkcircuit_neon()
    }
}

// ── Builder ─────────────────────────────────────────────────────────────

/// Programmatic theme construction without raw references.
///
/// Each method consumes the builder and returns the extended builder;
/// `build` produces the immutable [`Theme`].
#[derive(Debug, Clone)]
pub struct ThemeBuilder {
    meta: ThemeMeta,
    palette: Table<OpalineColor>,
    tokens: Table<OpalineColor>,
    styles: Table<OpalineStyle>,
    gradients: Table<Gradient>,
}

impl View for ThemeBuilder {
    type V = ThemeView;

    closed spec fn view(&self) -> ThemeView {
        ThemeView {
            meta: self.meta@,
            palette: self.palette@,
            tokens: self.tokens@,
            styles: self.styles@,
            gradients: self.gradients@,
        }
    }
}

impl ThemeBuilder {
    /// Well-formedness: unique keys per section and non-empty gradients.
    pub closed spec fn wf(&self) -> bool {
        self.palette.wf() && self.tokens.wf() && self.styles.wf() && self.gradients.wf() && (
        forall|j: int| 0 <= j < self.gradients@.len() ==> #[trigger] self.gradients@[j].1.len()
            >= 1)
    }

    /// Set the theme author.
    pub fn author(self, author: &str) -> (b: Self)
        requires
            self.wf(),
        ensures
            b.wf(),
            b@ == (ThemeView {
                meta: ThemeMetaView { author: Some(author@), ..self@.meta },
                ..self@
            }),
    {
        let mut b = self;
        b.meta.author = Some(author.to_owned());
        b
    }

    /// Set the theme variant (dark or light).
    pub fn variant(self, variant: ThemeVariant) -> (b: Self)
        requires
            self.wf(),
        ensures
            b.wf(),
            b@ == (ThemeView { meta: ThemeMetaView { variant, ..self@.meta }, ..self@ }),
    {
        let mut b = self;
        b.meta.variant = variant;
        b
    }

    /// Set the theme version.
    pub fn version(self, version: &str) -> (b: Self)
        requires
            self.wf(),
        ensures
            b.wf(),
            b@ == (ThemeView {
                meta: ThemeMetaView { version: Some(version@), ..self@.meta },
                ..self@
            }),
    {
        let mut b = self;
        b.meta.version = Some(version.to_owned());
        b
    }

    /// Set the theme description.
    pub fn description(self, desc: &str) -> (b: Self)
        requires
            self.wf(),
        ensures
            b.wf(),
            b@ == (ThemeView {
                meta: ThemeMetaView { description: Some(desc@), ..self@.meta },
                ..self@
            }),
    {
        let mut b = self;
        b.meta.description = Some(desc.to_owned());
        b
    }

    /// Add a palette color.
    pub fn palette(self, name: &str, color: OpalineColor) -> (b: Self)
        requires
            self.wf(),
        ensures
            b.wf(),
            b@.meta == self@.meta,
            b@.tokens == self@.tokens,
            b@.styles == self@.styles,
            b@.gradients == self@.gradients,
            table_has(self@.palette, name@) ==> b@.palette == self@.palette.update(
                crate::table::table_index(self@.palette, name@),
                (name@, color),
            ),
            !table_has(self@.palette, name@) ==> b@.palette == self@.palette.push((name@, color)),
    {
        let mut b = self;
        b.palette.insert(name, color);
        b
    }

    /// Add a semantic token.
    pub fn token(self, name: &str, color: OpalineColor) -> (b: Self)
        requires
            self.wf(),
        ensures
            b.wf(),
            b@.meta == self@.meta,
            b@.palette == self@.palette,
            b@.styles == self@.styles,
            b@.gradients == self@.gradients,
            table_has(self@.tokens, name@) ==> b@.tokens == self@.tokens.update(
                crate::table::table_index(self@.tokens, name@),
                (name@, color),
            ),
            !table_has(self@.tokens, name@) ==> b@.tokens == self@.tokens.push((name@, color)),
    {
        let mut b = self;
        b.tokens.insert(name, color);
        b
    }

    /// Add a composed style.
    pub fn style(self, name: &str, style: OpalineStyle) -> (b: Self)
        requires
            self.wf(),
        ensures
            b.wf(),
            b@.meta == self@.meta,
            b@.palette == self@.palette,
            b@.tokens == self@.tokens,
            b@.gradients == self@.gradients,
            table_has(self@.styles, name@) ==> b@.styles == self@.styles.update(
                crate::table::table_index(self@.styles, name@),
                (name@, style),
            ),
            !table_has(self@.styles, name@) ==> b@.styles == self@.styles.push((name@, style)),
    {
        let mut b = self;
        b.styles.insert(name, style);
        b
    }

    /// Add a gradient.
    pub fn gradient(self, name: &str, gradient: Gradient) -> (b: Self)
        requires
            self.wf(),
            gradient.wf(),
        ensures
            b.wf(),
            b@.meta == self@.meta,
            b@.palette == self@.palette,
            b@.tokens == self@.tokens,
            b@.styles == self@.styles,
            table_has(self@.gradients, name@) ==> b@.gradients == self@.gradients.update(
                crate::table::table_index(self@.gradients, name@),
                (name@, gradient@),
            ),
            !table_has(self@.gradients, name@) ==> b@.gradients == self@.gradients.push(
                (name@, gradient@),
            ),
    {
        proof {
            if table_has(self@.gradients, name@) {
                crate::table::lemma_table_index_valid(self@.gradients, name@);
            }
        }
        let mut b = self;
        b.gradients.insert(name, gradient);
        b
    }

    /// Build the immutable theme.
    pub fn build(self) -> (t: Theme)
        requires
            self.wf(),
        ensures
            t.wf(),
            t@ == self@,
    {
        Theme {
            meta: self.meta,
            palette: self.palette,
            tokens: self.tokens,
            styles: self.styles,
            gradients: self.gradients,
        }
    }
}

} // verus!
