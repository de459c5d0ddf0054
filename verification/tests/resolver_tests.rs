use opaline::error::OpalineError;
use opaline::schema::{StopList, StyleDef, ThemeFile, ThemeMeta};
use opaline::{OpalineColor, OpalineStyle};

fn minimal_theme_file() -> ThemeFile {
    ThemeFile::new(ThemeMeta::new("Test"))
}

#[test]
fn empty_theme_resolves() {
    let result = opaline::resolver::resolve(&minimal_theme_file());
    assert!(result.is_ok());
}

#[test]
fn palette_resolves_hex() {
    let mut tf = minimal_theme_file();
    tf.palette.insert("red", "#ff0000".to_string());

    let resolved = opaline::resolver::resolve(&tf).expect("resolves");
    assert_eq!(
        resolved.palette.get("red"),
        Some(&OpalineColor::new(255, 0, 0))
    );
}

#[test]
fn palette_rejects_invalid_hex() {
    let mut tf = minimal_theme_file();
    tf.palette.insert("bad", "not-a-color".to_string());

    let err = opaline::resolver::resolve(&tf).expect_err("should fail");
    assert!(matches!(err, OpalineError::InvalidColor { .. }));
}

#[test]
fn token_references_palette() {
    let mut tf = minimal_theme_file();
    tf.palette.insert("purple_500", "#e135ff".to_string());
    tf.tokens.insert("accent.primary", "purple_500".to_string());

    let resolved = opaline::resolver::resolve(&tf).expect("resolves");
    assert_eq!(
        resolved.tokens.get("accent.primary"),
        Some(&OpalineColor::new(225, 53, 255))
    );
}

#[test]
fn token_references_hex_directly() {
    let mut tf = minimal_theme_file();
    tf.tokens.insert("direct", "#ff6363".to_string());

    let resolved = opaline::resolver::resolve(&tf).expect("resolves");
    assert_eq!(
        resolved.tokens.get("direct"),
        Some(&OpalineColor::new(255, 99, 99))
    );
}

#[test]
fn token_chains_to_another_token() {
    let mut tf = minimal_theme_file();
    tf.palette.insert("green_400", "#50fa7b".to_string());
    tf.tokens.insert("success", "green_400".to_string());
    tf.tokens.insert("diff.added", "success".to_string());

    let resolved = opaline::resolver::resolve(&tf).expect("resolves");
    let expected = OpalineColor::new(80, 250, 123);
    assert_eq!(resolved.tokens.get("success"), Some(&expected));
    assert_eq!(resolved.tokens.get("diff.added"), Some(&expected));
}

#[test]
fn circular_reference_detected() {
    let mut tf = minimal_theme_file();
    tf.tokens.insert("a", "b".to_string());
    tf.tokens.insert("b", "a".to_string());

    let err = opaline::resolver::resolve(&tf).expect_err("should fail");
    assert!(matches!(err, OpalineError::CircularReference { .. }));
}

#[test]
fn circular_reference_chain_names_both_tokens() {
    let mut tf = minimal_theme_file();
    tf.tokens.insert("a", "b".to_string());
    tf.tokens.insert("b", "a".to_string());

    let err = opaline::resolver::resolve(&tf).expect_err("should fail");
    match err {
        OpalineError::CircularReference { chain, .. } => {
            assert!(chain.iter().any(|n| n == "a"));
            assert!(chain.iter().any(|n| n == "b"));
        }
        other => panic!("unexpected error: {other:?}"),
    }
}

#[test]
fn unresolvable_token_returns_error() {
    let mut tf = minimal_theme_file();
    tf.tokens.insert("missing", "nonexistent".to_string());

    let err = opaline::resolver::resolve(&tf).expect_err("should fail");
    assert!(matches!(err, OpalineError::UnresolvedToken { .. }));
}

#[test]
fn unresolvable_token_reports_token_and_reference() {
    let mut tf = minimal_theme_file();
    tf.tokens.insert("x", "nonexistent".to_string());

    let err = opaline::resolver::resolve(&tf).expect_err("should fail");
    match err {
        OpalineError::UnresolvedToken { token, reference } => {
            assert_eq!(token, "x");
            assert_eq!(reference, "nonexistent");
        }
        other => panic!("unexpected error: {other:?}"),
    }
}

#[test]
fn style_resolves_fg_bg() {
    let mut tf = minimal_theme_file();
    tf.palette.insert("cyan_400", "#80ffea".to_string());
    tf.tokens.insert("accent", "cyan_400".to_string());
    tf.styles.insert(
        "highlight",
        StyleDef {
            fg: Some("accent".to_string()),
            bg: Some("#1e1e28".to_string()),
            bold: true,
            ..StyleDef::default()
        },
    );

    let resolved = opaline::resolver::resolve(&tf).expect("resolves");
    let style = resolved.styles.get("highlight").expect("style exists");

    assert_eq!(
        *style,
        OpalineStyle {
            fg: Some(OpalineColor::new(128, 255, 234)),
            bg: Some(OpalineColor::new(30, 30, 40)),
            bold: true,
            ..OpalineStyle::new()
        }
    );
}

#[test]
fn style_with_dangling_reference_fails() {
    let mut tf = minimal_theme_file();
    tf.styles.insert(
        "broken",
        StyleDef {
            fg: Some("ghostly".to_string()),
            ..StyleDef::default()
        },
    );

    let err = opaline::resolver::resolve(&tf).expect_err("should fail");
    match err {
        OpalineError::UnresolvedToken { token, reference } => {
            assert_eq!(token, "broken.fg");
            assert_eq!(reference, "ghostly");
        }
        other => panic!("unexpected error: {other:?}"),
    }
}

#[test]
fn gradient_resolves_stops() {
    let mut tf = minimal_theme_file();
    tf.palette.insert("red", "#ff0000".to_string());
    tf.palette.insert("blue", "#0000ff".to_string());
    tf.gradients.insert(
        "test",
        StopList::new(vec!["red".to_string(), "blue".to_string()]),
    );

    let resolved = opaline::resolver::resolve(&tf).expect("resolves");
    let grad = resolved.gradients.get("test").expect("gradient exists");
    assert_eq!(grad.len(), 2);
    assert_eq!(grad.at(0, 1), OpalineColor::new(255, 0, 0));
    assert_eq!(grad.at(1, 1), OpalineColor::new(0, 0, 255));
}

#[test]
fn gradient_with_unresolvable_stops_returns_error() {
    let mut tf = minimal_theme_file();
    tf.gradients.insert(
        "broken",
        StopList::new(vec!["nonexistent1".to_string(), "nonexistent2".to_string()]),
    );

    let err = opaline::resolver::resolve(&tf).expect_err("should fail");
    assert!(matches!(err, OpalineError::UnresolvedToken { .. }));
}

#[test]
fn gradient_stop_error_names_position() {
    let mut tf = minimal_theme_file();
    tf.palette.insert("red", "#ff0000".to_string());
    tf.gradients.insert(
        "g",
        StopList::new(vec!["red".to_string(), "ghost".to_string()]),
    );

    let err = opaline::resolver::resolve(&tf).expect_err("should fail");
    match err {
        OpalineError::UnresolvedToken { token, reference } => {
            assert_eq!(token, "g[1]");
            assert_eq!(reference, "ghost");
        }
        other => panic!("unexpected error: {other:?}"),
    }
}

#[test]
fn gradient_with_no_stops_is_empty_gradient_error() {
    let mut tf = minimal_theme_file();
    tf.gradients.insert("hollow", StopList::new(vec![]));

    let err = opaline::resolver::resolve(&tf).expect_err("should fail");
    assert!(matches!(err, OpalineError::EmptyGradient));
}

#[test]
fn resolution_is_deterministic() {
    let mut tf = minimal_theme_file();
    tf.palette.insert("red", "#ff0000".to_string());
    tf.palette.insert("blue", "#0000ff".to_string());
    tf.tokens.insert("accent", "red".to_string());
    tf.tokens.insert("other", "accent".to_string());
    tf.gradients.insert(
        "g",
        StopList::new(vec!["red".to_string(), "blue".to_string()]),
    );

    let first = opaline::resolver::resolve(&tf).expect("resolves");
    let second = opaline::resolver::resolve(&tf).expect("resolves");
    assert_eq!(
        first.tokens.get("accent"),
        second.tokens.get("accent")
    );
    assert_eq!(first.tokens.get("other"), second.tokens.get("other"));
    assert_eq!(first.palette.get("red"), second.palette.get("red"));
    assert_eq!(
        first.gradients.get("g").map(|g| g.stops().to_vec()),
        second.gradients.get("g").map(|g| g.stops().to_vec())
    );
}

#[test]
fn token_chain_resolves_every_node_to_same_color() {
    let mut tf = minimal_theme_file();
    tf.tokens.insert("a", "b".to_string());
    tf.tokens.insert("b", "c".to_string());
    tf.tokens.insert("c", "#50fa7b".to_string());

    let resolved = opaline::resolver::resolve(&tf).expect("resolves");
    let expected = OpalineColor::new(80, 250, 123);
    assert_eq!(resolved.tokens.get("a"), Some(&expected));
    assert_eq!(resolved.tokens.get("b"), Some(&expected));
    assert_eq!(resolved.tokens.get("c"), Some(&expected));
}

#[test]
fn gradient_endpoints_and_midpoint_from_palette() {
    let mut tf = minimal_theme_file();
    tf.palette.insert("red", "#ff0000".to_string());
    tf.palette.insert("blue", "#0000ff".to_string());
    tf.gradients.insert(
        "g",
        StopList::new(vec!["red".to_string(), "blue".to_string()]),
    );

    let resolved = opaline::resolver::resolve(&tf).expect("resolves");
    let g = resolved.gradients.get("g").expect("gradient exists");
    assert_eq!(g.at(0, 1), OpalineColor::new(255, 0, 0));
    assert_eq!(g.at(1, 1), OpalineColor::new(0, 0, 255));
    // the exact midpoint per the rounding rule: halves round up
    assert_eq!(g.at(1, 2), OpalineColor::new(128, 0, 128));
}

#[test]
fn style_from_resolved_token_keeps_flags() {
    let mut tf = minimal_theme_file();
    tf.tokens.insert("accent", "#e135ff".to_string());
    tf.styles.insert(
        "emphasis",
        StyleDef {
            fg: Some("accent".to_string()),
            bold: true,
            ..StyleDef::default()
        },
    );

    let resolved = opaline::resolver::resolve(&tf).expect("resolves");
    let style = resolved.styles.get("emphasis").expect("style exists");
    assert_eq!(style.fg, Some(OpalineColor::new(225, 53, 255)));
    assert_eq!(style.bg, None);
    assert!(style.bold);
}

#[test]
fn token_wins_over_palette_in_combined_lookup() {
    let mut tf = minimal_theme_file();
    tf.palette.insert("shared", "#000000".to_string());
    tf.tokens.insert("shared", "#ffffff".to_string());
    tf.styles.insert(
        "s",
        StyleDef {
            fg: Some("shared".to_string()),
            ..StyleDef::default()
        },
    );

    let resolved = opaline::resolver::resolve(&tf).expect("resolves");
    let style = resolved.styles.get("s").expect("style exists");
    assert_eq!(style.fg, Some(OpalineColor::new(255, 255, 255)));
}

#[test]
fn first_invalid_palette_entry_aborts_resolution() {
    let mut tf = minimal_theme_file();
    tf.palette.insert("ok", "#123456".to_string());
    tf.palette.insert("bad", "oops".to_string());
    tf.tokens.insert("t", "ok".to_string());

    let err = opaline::resolver::resolve(&tf).expect_err("should fail");
    match err {
        OpalineError::InvalidColor { token, .. } => assert_eq!(token, "bad"),
        other => panic!("unexpected error: {other:?}"),
    }
}

#[test]
fn duplicate_palette_key_keeps_last_value() {
    let mut tf = minimal_theme_file();
    tf.palette.insert("red", "#000000".to_string());
    tf.palette.insert("red", "#ff0000".to_string());

    let resolved = opaline::resolver::resolve(&tf).expect("resolves");
    assert_eq!(resolved.palette.len(), 1);
    assert_eq!(
        resolved.palette.get("red"),
        Some(&OpalineColor::new(255, 0, 0))
    );
}

#[test]
fn cycle_detection_leaves_memo_table_untouched() {
    let mut raw: opaline::Table<String> = opaline::Table::new();
    raw.insert("a", "b".to_string());
    raw.insert("b", "a".to_string());
    let palette: opaline::Table<OpalineColor> = opaline::Table::new();
    let mut resolved: opaline::Table<OpalineColor> = opaline::Table::new();
    let mut chain: Vec<String> = Vec::new();
    let err = opaline::resolver::resolve_token("a", &raw, &palette, &mut resolved, &mut chain)
        .expect_err("cycle should fail");
    assert!(matches!(err, OpalineError::CircularReference { .. }));
    assert_eq!(resolved.len(), 0);
    // the reported chain closes the loop in traversal order
    match err {
        OpalineError::CircularReference { token, chain } => {
            assert_eq!(token, "a");
            assert_eq!(chain, vec!["a", "b", "a"]);
        }
        other => panic!("unexpected error: {other:?}"),
    }
}
