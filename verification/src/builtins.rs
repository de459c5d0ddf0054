//! Built-in themes, compiled into the library as programmatic data.
//!
//! Every built-in theme fills the same contract: the standard token,
//! style, and gradient names, mapped onto a twelve-color palette that
//! gives the theme its identity.

use crate::color::OpalineColor;
use crate::gradient::Gradient;
use crate::schema::ThemeVariant;
use crate::table::str_eq;
use crate::theme::{Theme, ThemeBuilder};
use vstd::prelude::*;

verus! {

/// Total number of built-in themes.
pub const BUILTIN_COUNT: usize = 20;

/// The twelve colors that define a built-in theme's identity.
pub struct BuiltinPalette {
    pub bg_base: OpalineColor,
    pub bg_panel: OpalineColor,
    pub text: OpalineColor,
    pub subtle: OpalineColor,
    pub muted: OpalineColor,
    pub primary: OpalineColor,
    pub secondary: OpalineColor,
    pub tertiary: OpalineColor,
    pub green: OpalineColor,
    pub red: OpalineColor,
    pub yellow: OpalineColor,
    pub blue: OpalineColor,
}

fn grad2(a: OpalineColor, b: OpalineColor) -> (g: Gradient)
    ensures
        g.wf(),
{
    let mut stops: Vec<OpalineColor> = Vec::new();
    stops.push(a);
    stops.push(b);
    Gradient::new(stops)
}

fn grad3(a: OpalineColor, b: OpalineColor, c: OpalineColor) -> (g: Gradient)
    ensures
        g.wf(),
{
    let mut stops: Vec<OpalineColor> = Vec::new();
    stops.push(a);
    stops.push(b);
    stops.push(c);
    Gradient::new(stops)
}

fn standard_palette(b: ThemeBuilder, p: &BuiltinPalette) -> (r: ThemeBuilder)
    requires
        b.wf(),
    ensures
        r.wf(),
        r@.meta == b@.meta,
{
    b.palette("base", p.bg_base).palette("panel", p.bg_panel).palette("fg", p.text).palette(
        "fg_subtle",
        p.subtle,
    ).palette("fg_muted", p.muted).palette("primary", p.primary).palette(
        "secondary",
        p.secondary,
    ).palette("tertiary", p.tertiary).palette("green", p.green).palette("red", p.red).palette(
        "yellow",
        p.yellow,
    ).palette("blue", p.blue)
}

fn standard_tokens(b: ThemeBuilder, p: &BuiltinPalette) -> (r: ThemeBuilder)
    requires
        b.wf(),
    ensures
        r.wf(),
        r@.meta == b@.meta,
{
    let b = b.token("text.primary", p.text).token("text.secondary", p.subtle).token(
        "text.muted",
        p.muted,
    ).token("text.dim", p.muted).token("bg.base", p.bg_base).token("bg.panel", p.bg_panel).token(
        "bg.code",
        p.bg_panel,
    ).token("bg.highlight", p.bg_panel).token("bg.selection", p.bg_panel);
    let b = b.token("accent.primary", p.primary).token("accent.secondary", p.secondary).token(
        "accent.tertiary",
        p.tertiary,
    ).token("accent.deep", p.primary).token("success", p.green).token("error", p.red).token(
        "warning",
        p.yellow,
    ).token("info", p.blue);
    let b = b.token("git.staged", p.green).token("git.modified", p.yellow).token(
        "git.untracked",
        p.blue,
    ).token("git.deleted", p.red).token("diff.added", p.green).token("diff.removed", p.red).token(
        "diff.hunk",
        p.secondary,
    ).token("diff.context", p.muted);
    let b = b.token("border.focused", p.primary).token("border.unfocused", p.muted).token(
        "code.hash",
        p.secondary,
    ).token("code.path", p.blue).token("code.keyword", p.primary).token(
        "code.function",
        p.secondary,
    ).token("code.string", p.green).token("code.number", p.yellow).token(
        "code.comment",
        p.muted,
    ).token("code.type", p.tertiary).token("code.line_number", p.muted);
    b.token("mode.active", p.primary).token("mode.inactive", p.muted).token(
        "mode.hover",
        p.secondary,
    )
}

fn standard_styles(b: ThemeBuilder, p: &BuiltinPalette) -> (r: ThemeBuilder)
    requires
        b.wf(),
    ensures
        r.wf(),
        r@.meta == b@.meta,
{
    let b = b.style("keyword", OpalineStyle::fg(p.primary).bold()).style(
        "file_path",
        OpalineStyle::fg(p.blue).italic(),
    ).style("commit_hash", OpalineStyle::fg(p.secondary)).style(
        "selected",
        OpalineStyle::fg(p.text).with_bg(p.bg_panel),
    ).style("active_selected", OpalineStyle::fg(p.text).with_bg(p.bg_panel).bold()).style(
        "focused_border",
        OpalineStyle::fg(p.primary),
    ).style("unfocused_border", OpalineStyle::fg(p.muted));
    let b = b.style("success_style", OpalineStyle::fg(p.green)).style(
        "error_style",
        OpalineStyle::fg(p.red).bold(),
    ).style("warning_style", OpalineStyle::fg(p.yellow)).style(
        "info_style",
        OpalineStyle::fg(p.blue),
    ).style("dimmed", OpalineStyle::fg(p.muted).dim()).style(
        "muted",
        OpalineStyle::fg(p.muted),
    ).style("inline_code", OpalineStyle::fg(p.secondary).with_bg(p.bg_panel));
    let b = b.style("git_staged", OpalineStyle::fg(p.green)).style(
        "git_modified",
        OpalineStyle::fg(p.yellow),
    ).style("git_untracked", OpalineStyle::fg(p.blue)).style(
        "git_deleted",
        OpalineStyle::fg(p.red),
    ).style("diff_added", OpalineStyle::fg(p.green)).style(
        "diff_removed",
        OpalineStyle::fg(p.red),
    ).style("diff_hunk", OpalineStyle::fg(p.secondary)).style(
        "diff_context",
        OpalineStyle::fg(p.muted),
    );
    b.style("line_number", OpalineStyle::fg(p.muted)).style(
        "timestamp",
        OpalineStyle::fg(p.muted),
    ).style("author", OpalineStyle::fg(p.tertiary)).style(
        "mode_inactive",
        OpalineStyle::fg(p.muted),
    )
}

fn standard_gradients(b: ThemeBuilder, p: &BuiltinPalette) -> (r: ThemeBuilder)
    requires
        b.wf(),
    ensures
        r.wf(),
        r@.meta == b@.meta,
{
    b.gradient("primary", grad2(p.primary, p.secondary)).gradient(
        "warm",
        grad2(p.red, p.yellow),
    ).gradient("success_gradient", grad2(p.green, p.secondary)).gradient(
        "error_gradient",
        grad2(p.red, p.primary),
    ).gradient("aurora", grad3(p.primary, p.secondary, p.tertiary))
}

/// Assemble a theme from its metadata and twelve-color palette, filling
/// the standard token, style, and gradient contract.
fn standard_theme(
    name: &str,
    author: Option<&str>,
    variant: ThemeVariant,
    p: &BuiltinPalette,
) -> (t: Theme)
    ensures
        t.wf(),
        t@.meta.name == name@,
{
    let b = Theme::builder(name);
    let b = match author {
        Some(a) => b.author(a),
        None => b,
    };
    let b = b.variant(variant);
    let b = standard_palette(b, p);
    let b = standard_tokens(b, p);
    let b = standard_styles(b, p);
    let b = standard_gradients(b, p);
    b.build()
}

use crate::style::OpalineStyle;

// ── The individual themes ───────────────────────────────────────────────

/// Load the SilkCircuit Neon theme (the default).
pub fn silkcircuit_neon() -> (t: Theme)
    ensures
        t.wf(),
        t@.meta.name == "SilkCircuit Neon"@,
    {
    standard_theme(
        "SilkCircuit Neon",
        Some("hyperb1iss"),
        ThemeVariant::Dark,
        &BuiltinPalette {
            bg_base: OpalineColor::new(0x12, 0x12, 0x18),
            bg_panel: OpalineColor::new(0x1e, 0x1e, 0x28),
            text: OpalineColor::new(0xf8, 0xf8, 0xf2),
            subtle: OpalineColor::new(0xc5, 0xc5, 0xd8),
            muted: OpalineColor::new(0x72, 0x72, 0x8a),
            primary: OpalineColor::new(0xe1, 0x35, 0xff),
            secondary: OpalineColor::new(0x80, 0xff, 0xea),
            tertiary: OpalineColor::new(0xff, 0x6a, 0xc1),
            green: OpalineColor::new(0x50, 0xfa, 0x7b),
            red: OpalineColor::new(0xff, 0x63, 0x63),
            yellow: OpalineColor::new(0xf1, 0xfa, 0x8c),
            blue: OpalineColor::new(0x82, 0xaa, 0xff),
        },
    )
}

fn silkcircuit_soft() -> (t: Theme)
    ensures
        t.wf(),
        t@.meta.name == "SilkCircuit Soft"@,
{
    standard_theme(
        "SilkCircuit Soft",
        Some("hyperb1iss"),
        ThemeVariant::Dark,
        &BuiltinPalette {
            bg_base: OpalineColor::new(0x16, 0x16, 0x1e),
            bg_panel: OpalineColor::new(0x22, 0x22, 0x2e),
            text: OpalineColor::new(0xe8, 0xe8, 0xe4),
            subtle: OpalineColor::new(0xbd, 0xbd, 0xcc),
            muted: OpalineColor::new(0x6e, 0x6e, 0x82),
            primary: OpalineColor::new(0xc8, 0x6a, 0xe4),
            secondary: OpalineColor::new(0x8a, 0xe4, 0xd4),
            tertiary: OpalineColor::new(0xe4, 0x8a, 0xb4),
            green: OpalineColor::new(0x76, 0xd8, 0x8e),
            red: OpalineColor::new(0xe8, 0x7c, 0x7c),
            yellow: OpalineColor::new(0xe4, 0xd8, 0x9a),
            blue: OpalineColor::new(0x92, 0xb2, 0xe8),
        },
    )
}

fn silkcircuit_glow() -> (t: Theme)
    ensures
        t.wf(),
        t@.meta.name == "SilkCircuit Glow"@,
{
    standard_theme(
        "SilkCircuit Glow",
        Some("hyperb1iss"),
        ThemeVariant::Dark,
        &BuiltinPalette {
            bg_base: OpalineColor::new(0x0e, 0x0e, 0x16),
            bg_panel: OpalineColor::new(0x1a, 0x1a, 0x26),
            text: OpalineColor::new(0xff, 0xff, 0xfa),
            subtle: OpalineColor::new(0xd2, 0xd2, 0xe2),
            muted: OpalineColor::new(0x7a, 0x7a, 0x92),
            primary: OpalineColor::new(0xf0, 0x4f, 0xff),
            secondary: OpalineColor::new(0x6a, 0xff, 0xe0),
            tertiary: OpalineColor::new(0xff, 0x7a, 0xcc),
            green: OpalineColor::new(0x62, 0xff, 0x8a),
            red: OpalineColor::new(0xff, 0x57, 0x57),
            yellow: OpalineColor::new(0xff, 0xf2, 0x7a),
            blue: OpalineColor::new(0x7a, 0xa6, 0xff),
        },
    )
}

fn silkcircuit_vibrant() -> (t: Theme)
    ensures
        t.wf(),
        t@.meta.name == "SilkCircuit Vibrant"@,
{
    standard_theme(
        "SilkCircuit Vibrant",
        Some("hyperb1iss"),
        ThemeVariant::Dark,
        &BuiltinPalette {
            bg_base: OpalineColor::new(0x10, 0x0c, 0x1c),
            bg_panel: OpalineColor::new(0x1c, 0x16, 0x2a),
            text: OpalineColor::new(0xfa, 0xf4, 0xff),
            subtle: OpalineColor::new(0xd4, 0xc4, 0xe8),
            muted: OpalineColor::new(0x80, 0x6e, 0x9a),
            primary: OpalineColor::new(0xff, 0x2e, 0xf5),
            secondary: OpalineColor::new(0x2e, 0xff, 0xd7),
            tertiary: OpalineColor::new(0xff, 0x8e, 0x2e),
            green: OpalineColor::new(0x3c, 0xf5, 0x6e),
            red: OpalineColor::new(0xff, 0x44, 0x6a),
            yellow: OpalineColor::new(0xff, 0xe4, 0x4a),
            blue: OpalineColor::new(0x4a, 0x9e, 0xff),
        },
    )
}

fn silkcircuit_dawn() -> (t: Theme)
    ensures
        t.wf(),
        t@.meta.name == "SilkCircuit Dawn"@,
{
    standard_theme(
        "SilkCircuit Dawn",
        Some("hyperb1iss"),
        ThemeVariant::Light,
        &BuiltinPalette {
            bg_base: OpalineColor::new(0xfa, 0xf6, 0xff),
            bg_panel: OpalineColor::new(0xf0, 0xe8, 0xfa),
            text: OpalineColor::new(0x2a, 0x20, 0x3a),
            subtle: OpalineColor::new(0x4a, 0x3e, 0x5e),
            muted: OpalineColor::new(0x8a, 0x7e, 0xa2),
            primary: OpalineColor::new(0xa0, 0x20, 0xc0),
            secondary: OpalineColor::new(0x00, 0x8a, 0x78),
            tertiary: OpalineColor::new(0xc4, 0x3a, 0x86),
            green: OpalineColor::new(0x1e, 0x8a, 0x3c),
            red: OpalineColor::new(0xc8, 0x2a, 0x2a),
            yellow: OpalineColor::new(0xa8, 0x86, 0x00),
            blue: OpalineColor::new(0x20, 0x5e, 0xc8),
        },
    )
}

fn catppuccin_mocha() -> (t: Theme)
    ensures
        t.wf(),
        t@.meta.name == "Catppuccin Mocha"@,
{
    standard_theme(
        "Catppuccin Mocha",
        None,
        ThemeVariant::Dark,
        &BuiltinPalette {
            bg_base: OpalineColor::new(0x1e, 0x1e, 0x2e),
            bg_panel: OpalineColor::new(0x31, 0x32, 0x44),
            text: OpalineColor::new(0xcd, 0xd6, 0xf4),
            subtle: OpalineColor::new(0xba, 0xc2, 0xde),
            muted: OpalineColor::new(0x6c, 0x70, 0x86),
            primary: OpalineColor::new(0xcb, 0xa6, 0xf7),
            secondary: OpalineColor::new(0x94, 0xe2, 0xd5),
            tertiary: OpalineColor::new(0xf5, 0xc2, 0xe7),
            green: OpalineColor::new(0xa6, 0xe3, 0xa1),
            red: OpalineColor::new(0xf3, 0x8b, 0xa8),
            yellow: OpalineColor::new(0xf9, 0xe2, 0xaf),
            blue: OpalineColor::new(0x89, 0xb4, 0xfa),
        },
    )
}

fn catppuccin_latte() -> (t: Theme)
    ensures
        t.wf(),
        t@.meta.name == "Catppuccin Latte"@,
{
    standard_theme(
        "Catppuccin Latte",
        None,
        ThemeVariant::Light,
        &BuiltinPalette {
            bg_base: OpalineColor::new(0xef, 0xf1, 0xf5),
            bg_panel: OpalineColor::new(0xcc, 0xd0, 0xda),
            text: OpalineColor::new(0x4c, 0x4f, 0x69),
            subtle: OpalineColor::new(0x5c, 0x5f, 0x77),
            muted: OpalineColor::new(0x8c, 0x8f, 0xa1),
            primary: OpalineColor::new(0x88, 0x39, 0xef),
            secondary: OpalineColor::new(0x17, 0x92, 0x99),
            tertiary: OpalineColor::new(0xea, 0x76, 0xcb),
            green: OpalineColor::new(0x40, 0xa0, 0x2b),
            red: OpalineColor::new(0xd2, 0x0f, 0x39),
            yellow: OpalineColor::new(0xdf, 0x8e, 0x1d),
            blue: OpalineColor::new(0x1e, 0x66, 0xf5),
        },
    )
}

fn dracula() -> (t: Theme)
    ensures
        t.wf(),
        t@.meta.name == "Dracula"@,
{
    standard_theme(
        "Dracula",
        None,
        ThemeVariant::Dark,
        &BuiltinPalette {
            bg_base: OpalineColor::new(0x28, 0x2a, 0x36),
            bg_panel: OpalineColor::new(0x44, 0x47, 0x5a),
            text: OpalineColor::new(0xf8, 0xf8, 0xf2),
            subtle: OpalineColor::new(0xd8, 0xd8, 0xd2),
            muted: OpalineColor::new(0x62, 0x72, 0xa4),
            primary: OpalineColor::new(0xbd, 0x93, 0xf9),
            secondary: OpalineColor::new(0x8b, 0xe9, 0xfd),
            tertiary: OpalineColor::new(0xff, 0x79, 0xc6),
            green: OpalineColor::new(0x50, 0xfa, 0x7b),
            red: OpalineColor::new(0xff, 0x55, 0x55),
            yellow: OpalineColor::new(0xf1, 0xfa, 0x8c),
            blue: OpalineColor::new(0x6e, 0x9e, 0xf8),
        },
    )
}

fn nord() -> (t: Theme)
    ensures
        t.wf(),
        t@.meta.name == "Nord"@,
{
    standard_theme(
        "Nord",
        None,
        ThemeVariant::Dark,
        &BuiltinPalette {
            bg_base: OpalineColor::new(0x2e, 0x34, 0x40),
            bg_panel: OpalineColor::new(0x3b, 0x42, 0x52),
            text: OpalineColor::new(0xec, 0xef, 0xf4),
            subtle: OpalineColor::new(0xd8, 0xde, 0xe9),
            muted: OpalineColor::new(0x61, 0x6e, 0x88),
            primary: OpalineColor::new(0x88, 0xc0, 0xd0),
            secondary: OpalineColor::new(0x8f, 0xbc, 0xbb),
            tertiary: OpalineColor::new(0xb4, 0x8e, 0xad),
            green: OpalineColor::new(0xa3, 0xbe, 0x8c),
            red: OpalineColor::new(0xbf, 0x61, 0x6a),
            yellow: OpalineColor::new(0xeb, 0xcb, 0x8b),
            blue: OpalineColor::new(0x81, 0xa1, 0xc1),
        },
    )
}

fn tokyo_night() -> (t: Theme)
    ensures
        t.wf(),
        t@.meta.name == "Tokyo Night"@,
{
    standard_theme(
        "Tokyo Night",
        None,
        ThemeVariant::Dark,
        &BuiltinPalette {
            bg_base: OpalineColor::new(0x1a, 0x1b, 0x26),
            bg_panel: OpalineColor::new(0x24, 0x28, 0x3b),
            text: OpalineColor::new(0xc0, 0xca, 0xf5),
            subtle: OpalineColor::new(0xa9, 0xb1, 0xd6),
            muted: OpalineColor::new(0x56, 0x5f, 0x89),
            primary: OpalineColor::new(0xbb, 0x9a, 0xf7),
            secondary: OpalineColor::new(0x7d, 0xcf, 0xff),
            tertiary: OpalineColor::new(0xf7, 0x76, 0x8e),
            green: OpalineColor::new(0x9e, 0xce, 0x6a),
            red: OpalineColor::new(0xf7, 0x76, 0x8e),
            yellow: OpalineColor::new(0xe0, 0xaf, 0x68),
            blue: OpalineColor::new(0x7a, 0xa2, 0xf7),
        },
    )
}

fn gruvbox_dark() -> (t: Theme)
    ensures
        t.wf(),
        t@.meta.name == "Gruvbox Dark"@,
{
    standard_theme(
        "Gruvbox Dark",
        None,
        ThemeVariant::Dark,
        &BuiltinPalette {
            bg_base: OpalineColor::new(0x28, 0x28, 0x28),
            bg_panel: OpalineColor::new(0x3c, 0x38, 0x36),
            text: OpalineColor::new(0xeb, 0xdb, 0xb2),
            subtle: OpalineColor::new(0xd5, 0xc4, 0xa1),
            muted: OpalineColor::new(0x92, 0x83, 0x74),
            primary: OpalineColor::new(0xd3, 0x86, 0x9b),
            secondary: OpalineColor::new(0x8e, 0xc0, 0x7c),
            tertiary: OpalineColor::new(0xfe, 0x80, 0x19),
            green: OpalineColor::new(0xb8, 0xbb, 0x26),
            red: OpalineColor::new(0xfb, 0x49, 0x34),
            yellow: OpalineColor::new(0xfa, 0xbd, 0x2f),
            blue: OpalineColor::new(0x83, 0xa5, 0x98),
        },
    )
}

fn one_dark() -> (t: Theme)
    ensures
        t.wf(),
        t@.meta.name == "One Dark"@,
{
    standard_theme(
        "One Dark",
        None,
        ThemeVariant::Dark,
        &BuiltinPalette {
            bg_base: OpalineColor::new(0x28, 0x2c, 0x34),
            bg_panel: OpalineColor::new(0x33, 0x3a, 0x45),
            text: OpalineColor::new(0xab, 0xb2, 0xbf),
            subtle: OpalineColor::new(0x9a, 0xa2, 0xb1),
            muted: OpalineColor::new(0x5c, 0x63, 0x70),
            primary: OpalineColor::new(0xc6, 0x78, 0xdd),
            secondary: OpalineColor::new(0x56, 0xb6, 0xc2),
            tertiary: OpalineColor::new(0xe0, 0x6c, 0x75),
            green: OpalineColor::new(0x98, 0xc3, 0x79),
            red: OpalineColor::new(0xe0, 0x6c, 0x75),
            yellow: OpalineColor::new(0xe5, 0xc0, 0x7b),
            blue: OpalineColor::new(0x61, 0xaf, 0xef),
        },
    )
}

fn solarized_light() -> (t: Theme)
    ensures
        t.wf(),
        t@.meta.name == "Solarized Light"@,
{
    standard_theme(
        "Solarized Light",
        None,
        ThemeVariant::Light,
        &BuiltinPalette {
            bg_base: OpalineColor::new(0xfd, 0xf6, 0xe3),
            bg_panel: OpalineColor::new(0xee, 0xe8, 0xd5),
            text: OpalineColor::new(0x58, 0x6e, 0x75),
            subtle: OpalineColor::new(0x65, 0x7b, 0x83),
            muted: OpalineColor::new(0x93, 0xa1, 0xa1),
            primary: OpalineColor::new(0x6c, 0x71, 0xc4),
            secondary: OpalineColor::new(0x2a, 0xa1, 0x98),
            tertiary: OpalineColor::new(0xd3, 0x36, 0x82),
            green: OpalineColor::new(0x85, 0x99, 0x00),
            red: OpalineColor::new(0xdc, 0x32, 0x2f),
            yellow: OpalineColor::new(0xb5, 0x89, 0x00),
            blue: OpalineColor::new(0x26, 0x8b, 0xd2),
        },
    )
}

fn solarized_dark() -> (t: Theme)
    ensures
        t.wf(),
        t@.meta.name == "Solarized Dark"@,
{
    standard_theme(
        "Solarized Dark",
        None,
        ThemeVariant::Dark,
        &BuiltinPalette {
            bg_base: OpalineColor::new(0x00, 0x2b, 0x36),
            bg_panel: OpalineColor::new(0x07, 0x36, 0x42),
            text: OpalineColor::new(0x83, 0x94, 0x96),
            subtle: OpalineColor::new(0x93, 0xa1, 0xa1),
            muted: OpalineColor::new(0x58, 0x6e, 0x75),
            primary: OpalineColor::new(0x6c, 0x71, 0xc4),
            secondary: OpalineColor::new(0x2a, 0xa1, 0x98),
            tertiary: OpalineColor::new(0xd3, 0x36, 0x82),
            green: OpalineColor::new(0x85, 0x99, 0x00),
            red: OpalineColor::new(0xdc, 0x32, 0x2f),
            yellow: OpalineColor::new(0xb5, 0x89, 0x00),
            blue: OpalineColor::new(0x26, 0x8b, 0xd2),
        },
    )
}

fn monokai() -> (t: Theme)
    ensures
        t.wf(),
        t@.meta.name == "Monokai"@,
{
    standard_theme(
        "Monokai",
        None,
        ThemeVariant::Dark,
        &BuiltinPalette {
            bg_base: OpalineColor::new(0x27, 0x28, 0x22),
            bg_panel: OpalineColor::new(0x3e, 0x3d, 0x32),
            text: OpalineColor::new(0xf8, 0xf8, 0xf2),
            subtle: OpalineColor::new(0xcf, 0xcf, 0xc2),
            muted: OpalineColor::new(0x75, 0x71, 0x5e),
            primary: OpalineColor::new(0xf9, 0x26, 0x72),
            secondary: OpalineColor::new(0x66, 0xd9, 0xef),
            tertiary: OpalineColor::new(0xfd, 0x97, 0x1f),
            green: OpalineColor::new(0xa6, 0xe2, 0x2e),
            red: OpalineColor::new(0xf9, 0x26, 0x72),
            yellow: OpalineColor::new(0xe6, 0xdb, 0x74),
            blue: OpalineColor::new(0x66, 0xd9, 0xef),
        },
    )
}

fn rose_pine() -> (t: Theme)
    ensures
        t.wf(),
        t@.meta.name == "Rose Pine"@,
{
    standard_theme(
        "Rose Pine",
        None,
        ThemeVariant::Dark,
        &BuiltinPalette {
            bg_base: OpalineColor::new(0x19, 0x17, 0x24),
            bg_panel: OpalineColor::new(0x1f, 0x1d, 0x2e),
            text: OpalineColor::new(0xe0, 0xde, 0xf4),
            subtle: OpalineColor::new(0x90, 0x8c, 0xaa),
            muted: OpalineColor::new(0x6e, 0x6a, 0x86),
            primary: OpalineColor::new(0xc4, 0xa7, 0xe7),
            secondary: OpalineColor::new(0x9c, 0xcf, 0xd8),
            tertiary: OpalineColor::new(0xeb, 0xbc, 0xba),
            green: OpalineColor::new(0x31, 0x74, 0x8f),
            red: OpalineColor::new(0xeb, 0x6f, 0x92),
            yellow: OpalineColor::new(0xf6, 0xc1, 0x77),
            blue: OpalineColor::new(0x3e, 0x8f, 0xb0),
        },
    )
}

fn kanagawa() -> (t: Theme)
    ensures
        t.wf(),
        t@.meta.name == "Kanagawa"@,
{
    standard_theme(
        "Kanagawa",
        None,
        ThemeVariant::Dark,
        &BuiltinPalette {
            bg_base: OpalineColor::new(0x1f, 0x1f, 0x28),
            bg_panel: OpalineColor::new(0x2a, 0x2a, 0x37),
            text: OpalineColor::new(0xdc, 0xd7, 0xba),
            subtle: OpalineColor::new(0xc8, 0xc0, 0x93),
            muted: OpalineColor::new(0x72, 0x71, 0x69),
            primary: OpalineColor::new(0x95, 0x7f, 0xb8),
            secondary: OpalineColor::new(0x7a, 0xa8, 0x9f),
            tertiary: OpalineColor::new(0xff, 0xa0, 0x66),
            green: OpalineColor::new(0x98, 0xbb, 0x6c),
            red: OpalineColor::new(0xe8, 0x24, 0x24),
            yellow: OpalineColor::new(0xe6, 0xc3, 0x84),
            blue: OpalineColor::new(0x7e, 0x9c, 0xd8),
        },
    )
}

fn everforest() -> (t: Theme)
    ensures
        t.wf(),
        t@.meta.name == "Everforest"@,
{
    standard_theme(
        "Everforest",
        None,
        ThemeVariant::Dark,
        &BuiltinPalette {
            bg_base: OpalineColor::new(0x2d, 0x35, 0x3b),
            bg_panel: OpalineColor::new(0x37, 0x40, 0x47),
            text: OpalineColor::new(0xd3, 0xc6, 0xaa),
            subtle: OpalineColor::new(0xbe, 0xb3, 0x9a),
            muted: OpalineColor::new(0x7a, 0x84, 0x78),
            primary: OpalineColor::new(0xd6, 0x99, 0xb6),
            secondary: OpalineColor::new(0x83, 0xc0, 0x92),
            tertiary: OpalineColor::new(0xe6, 0x98, 0x75),
            green: OpalineColor::new(0xa7, 0xc0, 0x80),
            red: OpalineColor::new(0xe6, 0x7e, 0x80),
            yellow: OpalineColor::new(0xdb, 0xbc, 0x7f),
            blue: OpalineColor::new(0x7f, 0xbb, 0xb3),
        },
    )
}

fn ayu_mirage() -> (t: Theme)
    ensures
        t.wf(),
        t@.meta.name == "Ayu Mirage"@,
{
    standard_theme(
        "Ayu Mirage",
        None,
        ThemeVariant::Dark,
        &BuiltinPalette {
            bg_base: OpalineColor::new(0x1f, 0x24, 0x30),
            bg_panel: OpalineColor::new(0x23, 0x2a, 0x3a),
            text: OpalineColor::new(0xcb, 0xcc, 0xc6),
            subtle: OpalineColor::new(0xb8, 0xb9, 0xb3),
            muted: OpalineColor::new(0x5c, 0x67, 0x73),
            primary: OpalineColor::new(0xff, 0xcc, 0x66),
            secondary: OpalineColor::new(0x5c, 0xcf, 0xe6),
            tertiary: OpalineColor::new(0xf2, 0x9e, 0x74),
            green: OpalineColor::new(0xba, 0xe6, 0x7e),
            red: OpalineColor::new(0xf2, 0x87, 0x79),
            yellow: OpalineColor::new(0xff, 0xd5, 0x80),
            blue: OpalineColor::new(0x73, 0xd0, 0xff),
        },
    )
}

fn night_owl() -> (t: Theme)
    ensures
        t.wf(),
        t@.meta.name == "Night Owl"@,
{
    standard_theme(
        "Night Owl",
        None,
        ThemeVariant::Dark,
        &BuiltinPalette {
            bg_base: OpalineColor::new(0x01, 0x16, 0x27),
            bg_panel: OpalineColor::new(0x0b, 0x25, 0x3a),
            text: OpalineColor::new(0xd6, 0xde, 0xeb),
            subtle: OpalineColor::new(0xc0, 0xc8, 0xd8),
            muted: OpalineColor::new(0x5f, 0x7e, 0x97),
            primary: OpalineColor::new(0xc7, 0x92, 0xea),
            secondary: OpalineColor::new(0x7f, 0xdb, 0xca),
            tertiary: OpalineColor::new(0xf7, 0x8c, 0x6c),
            green: OpalineColor::new(0xad, 0xdb, 0x67),
            red: OpalineColor::new(0xef, 0x53, 0x50),
            yellow: OpalineColor::new(0xec, 0xc4, 0x8d),
            blue: OpalineColor::new(0x82, 0xaa, 0xff),
        },
    )
}

// ── Registry ────────────────────────────────────────────────────────────

/// Whether a name (after alias resolution) is a built-in theme ID.
pub open spec fn spec_is_builtin_id(n: Seq<char>) -> bool {
    n == "silkcircuit-neon"@ || n == "silkcircuit-soft"@ || n == "silkcircuit-glow"@ || n
        == "silkcircuit-vibrant"@ || n == "silkcircuit-dawn"@ || n == "catppuccin-mocha"@ || n
        == "catppuccin-latte"@ || n == "dracula"@ || n == "nord"@ || n == "tokyo-night"@ || n
        == "gruvbox-dark"@ || n == "one-dark"@ || n == "solarized-light"@ || n
        == "solarized-dark"@ || n == "monokai"@ || n == "rose-pine"@ || n == "kanagawa"@ || n
        == "everforest"@ || n == "ayu-mirage"@ || n == "night-owl"@
}

/// The display name of the theme a given name loads, after the
/// `"default"` alias is resolved. Names that load nothing map to the
/// empty sequence. `"default"` shares the first branch with
/// `"silkcircuit-neon"`: the alias loads exactly that theme.
pub open spec fn spec_builtin_display_name(n: Seq<char>) -> Seq<char> {
    if n == "default"@ || n == "silkcircuit-neon"@ {
        "SilkCircuit Neon"@
    } else if n == "silkcircuit-soft"@ {
        "SilkCircuit Soft"@
    } else if n == "silkcircuit-glow"@ {
        "SilkCircuit Glow"@
    } else if n == "silkcircuit-vibrant"@ {
        "SilkCircuit Vibrant"@
    } else if n == "silkcircuit-dawn"@ {
        "SilkCircuit Dawn"@
    } else if n == "catppuccin-mocha"@ {
        "Catppuccin Mocha"@
    } else if n == "catppuccin-latte"@ {
        "Catppuccin Latte"@
    } else if n == "dracula"@ {
        "Dracula"@
    } else if n == "nord"@ {
        "Nord"@
    } else if n == "tokyo-night"@ {
        "Tokyo Night"@
    } else if n == "gruvbox-dark"@ {
        "Gruvbox Dark"@
    } else if n == "one-dark"@ {
        "One Dark"@
    } else if n == "solarized-light"@ {
        "Solarized Light"@
    } else if n == "solarized-dark"@ {
        "Solarized Dark"@
    } else if n == "monokai"@ {
        "Monokai"@
    } else if n == "rose-pine"@ {
        "Rose Pine"@
    } else if n == "kanagawa"@ {
        "Kanagawa"@
    } else if n == "everforest"@ {
        "Everforest"@
    } else if n == "ayu-mirage"@ {
        "Ayu Mirage"@
    } else if n == "night-owl"@ {
        "Night Owl"@
    } else {
        Seq::empty()
    }
}

/// All built-in theme IDs paired with their display names, in registry
/// order.
pub fn builtin_names() -> (r: Vec<(String, String)>)
    ensures
        r@.len() == BUILTIN_COUNT,
        forall|i: int| 0 <= i < r@.len() ==> spec_is_builtin_id((#[trigger] r@[i]).0@),
{
    let mut r: Vec<(String, String)> = Vec::new();
    r.push(("silkcircuit-neon".to_owned(), "SilkCircuit Neon".to_owned()));
    r.push(("silkcircuit-soft".to_owned(), "SilkCircuit Soft".to_owned()));
    r.push(("silkcircuit-glow".to_owned(), "SilkCircuit Glow".to_owned()));
    r.push(("silkcircuit-vibrant".to_owned(), "SilkCircuit Vibrant".to_owned()));
    r.push(("silkcircuit-dawn".to_owned(), "SilkCircuit Dawn".to_owned()));
    r.push(("catppuccin-mocha".to_owned(), "Catppuccin Mocha".to_owned()));
    r.push(("catppuccin-latte".to_owned(), "Catppuccin Latte".to_owned()));
    r.push(("dracula".to_owned(), "Dracula".to_owned()));
    r.push(("nord".to_owned(), "Nord".to_owned()));
    r.push(("tokyo-night".to_owned(), "Tokyo Night".to_owned()));
    r.push(("gruvbox-dark".to_owned(), "Gruvbox Dark".to_owned()));
    r.push(("one-dark".to_owned(), "One Dark".to_owned()));
    r.push(("solarized-light".to_owned(), "Solarized Light".to_owned()));
    r.push(("solarized-dark".to_owned(), "Solarized Dark".to_owned()));
    r.push(("monokai".to_owned(), "Monokai".to_owned()));
    r.push(("rose-pine".to_owned(), "Rose Pine".to_owned()));
    r.push(("kanagawa".to_owned(), "Kanagawa".to_owned()));
    r.push(("everforest".to_owned(), "Everforest".to_owned()));
    r.push(("ayu-mirage".to_owned(), "Ayu Mirage".to_owned()));
    r.push(("night-owl".to_owned(), "Night Owl".to_owned()));
    r
}

/// Load a built-in theme by its kebab-case ID.
///
/// Returns `None` when the name matches no built-in. `"default"` is an
/// alias for `"silkcircuit-neon"`.
pub fn load_by_name(name: &str) -> (r: Option<Theme>)
    ensures
        r is Some <==> (name@ == "default"@ || spec_is_builtin_id(name@)),
        r is Some ==> r->0.wf() && r->0@.meta.name == spec_builtin_display_name(name@),
{
    if str_eq(name, "default") || str_eq(name, "silkcircuit-neon") {
        Some(silkcircuit_neon())
    } else if str_eq(name, "silkcircuit-soft") {
        Some(silkcircuit_soft())
    } else if str_eq(name, "silkcircuit-glow") {
        Some(silkcircuit_glow())
    } else if str_eq(name, "silkcircuit-vibrant") {
        Some(silkcircuit_vibrant())
    } else if str_eq(name, "silkcircuit-dawn") {
        Some(silkcircuit_dawn())
    } else if str_eq(name, "catppuccin-mocha") {
        Some(catppuccin_mocha())
    } else if str_eq(name, "catppuccin-latte") {
        Some(catppuccin_latte())
    } else if str_eq(name, "dracula") {
        Some(dracula())
    } else if str_eq(name, "nord") {
        Some(nord())
    } else if str_eq(name, "tokyo-night") {
        Some(tokyo_night())
    } else if str_eq(name, "gruvbox-dark") {
        Some(gruvbox_dark())
    } else if str_eq(name, "one-dark") {
        Some(one_dark())
    } else if str_eq(name, "solarized-light") {
        Some(solarized_light())
    } else if str_eq(name, "solarized-dark") {
        Some(solarized_dark())
    } else if str_eq(name, "monokai") {
        Some(monokai())
    } else if str_eq(name, "rose-pine") {
        Some(rose_pine())
    } else if str_eq(name, "kanagawa") {
        Some(kanagawa())
    } else if str_eq(name, "everforest") {
        Some(everforest())
    } else if str_eq(name, "ayu-mirage") {
        Some(ayu_mirage())
    } else if str_eq(name, "night-owl") {
        Some(night_owl())
    } else {
        None
    }
}

/// Metadata entries for every built-in theme, in registry order.
///
/// Collaborators that discover user-installed themes on disk can append
/// their own entries to this list.
pub fn builtin_infos() -> (r: Vec<ThemeInfo>)
    ensures
        r@.len() == BUILTIN_COUNT,
{
    let mut r: Vec<ThemeInfo> = Vec::new();
    let names = builtin_names();
    let n = names.len();
    let mut i: usize = 0;
    while i < n
        invariant
            i <= n,
            n == names@.len(),
            r@.len() == i,
        decreases n - i,
    {
        let id = names[i].0.clone();
        let display = names[i].1.clone();
        let theme = match load_by_name(id.as_str()) {
            Some(t) => t,
            None => silkcircuit_neon(),
        };
        let meta = theme.meta_ref();
        let author = match &meta.author {
            Some(a) => a.clone(),
            None => String::new(),
        };
        let description = match &meta.description {
            Some(d) => d.clone(),
            None => String::new(),
        };
        let variant = meta.variant;
        r.push(
            ThemeInfo {
                name: id,
                display_name: display,
                variant,
                author,
                description,
                builtin: true,
                path: None,
            },
        );
        i += 1;
    }
    r
}

/// Metadata about a loadable theme.
#[derive(Debug, Clone)]
pub struct ThemeInfo {
    /// The kebab-case identifier used for loading.
    pub name: String,
    /// The human-readable display name.
    pub display_name: String,
    /// Dark or light.
    pub variant: ThemeVariant,
    /// Theme author, empty when unknown.
    pub author: String,
    /// Short description, empty when none.
    pub description: String,
    /// Whether this theme is compiled into the library.
    pub builtin: bool,
    /// Filesystem location for user-installed themes, `None` for
    /// built-ins.
    pub path: Option<String>,
}

/// The one-line label of a theme entry: the display name, the variant
/// in parentheses, and the author when one is known.
pub open spec fn spec_info_label(v: ThemeInfoView) -> Seq<char> {
    let head = v.display_name + " ("@ + (if v.variant == ThemeVariant::Dark {
        "Dark"@
    } else {
        "Light"@
    }) + ")"@;
    if v.author.len() > 0 {
        head + " by "@ + v.author
    } else {
        head
    }
}

impl ThemeInfo {
    /// Render the entry as a one-line label.
    pub fn label(&self) -> (s: String)
        ensures
            s@ == spec_info_label(self@),
    {
        let mut s = self.display_name.clone();
        s.append(" (");
        s.append(self.variant.label());
        s.append(")");
        if self.author.as_str().unicode_len() > 0 {
            s.append(" by ");
            s.append(self.author.as_str());
        }
        s
    }
}

/// Mathematical image of a [`ThemeInfo`].
pub struct ThemeInfoView {
    pub name: Seq<char>,
    pub display_name: Seq<char>,
    pub variant: ThemeVariant,
    pub author: Seq<char>,
    pub description: Seq<char>,
    pub builtin: bool,
    pub path: Option<Seq<char>>,
}

impl View for ThemeInfo {
    type V = ThemeInfoView;

    open spec fn view(&self) -> ThemeInfoView {
        ThemeInfoView {
            name: self.name@,
            display_name: self.display_name@,
            variant: self.variant,
            author: self.author@,
            description: self.description@,
            builtin: self.builtin,
            path: crate::schema::opt_str_view(&self.path),
        }
    }
}

} // verus!
