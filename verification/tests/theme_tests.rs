use opaline::schema::ThemeVariant;
use opaline::{Gradient, OpalineColor, OpalineStyle, Theme};

fn sample_theme() -> Theme {
    Theme::builder("Sample")
        .author("somebody")
        .variant(ThemeVariant::Dark)
        .version("1.0")
        .description("a small test theme")
        .palette("red", OpalineColor::new(255, 0, 0))
        .token("accent", OpalineColor::new(225, 53, 255))
        .style("keyword", OpalineStyle::fg(OpalineColor::new(225, 53, 255)).bold())
        .gradient(
            "sunset",
            Gradient::new(vec![
                OpalineColor::new(255, 0, 0),
                OpalineColor::new(0, 0, 255),
            ]),
        )
        .build()
}

#[test]
fn builder_sets_metadata() {
    let t = sample_theme();
    assert_eq!(t.meta.name, "Sample");
    assert_eq!(t.meta.author.as_deref(), Some("somebody"));
    assert_eq!(t.meta.variant, ThemeVariant::Dark);
    assert_eq!(t.meta.version.as_deref(), Some("1.0"));
    assert_eq!(t.meta.description.as_deref(), Some("a small test theme"));
}

#[test]
fn color_finds_token_then_palette_then_fallback() {
    let t = sample_theme();
    assert_eq!(t.color("accent"), OpalineColor::new(225, 53, 255));
    assert_eq!(t.color("red"), OpalineColor::new(255, 0, 0));
    assert_eq!(t.color("nonexistent"), OpalineColor::fallback());
}

#[test]
fn try_color_is_strict() {
    let t = sample_theme();
    assert_eq!(t.try_color("accent"), Some(OpalineColor::new(225, 53, 255)));
    assert_eq!(t.try_color("red"), Some(OpalineColor::new(255, 0, 0)));
    assert_eq!(t.try_color("nonexistent"), None);
}

#[test]
fn has_token_covers_tokens_and_palette() {
    let t = sample_theme();
    assert!(t.has_token("accent"));
    assert!(t.has_token("red"));
    assert!(!t.has_token("nonexistent"));
}

#[test]
fn style_returns_default_when_missing() {
    let t = sample_theme();
    assert!(t.style("keyword").bold);
    assert_eq!(t.style("nonexistent"), OpalineStyle::new());
    assert!(t.try_style("nonexistent").is_none());
    assert!(t.has_style("keyword"));
    assert!(!t.has_style("nonexistent"));
}

#[test]
fn gradient_accessors() {
    let t = sample_theme();
    assert!(t.has_gradient("sunset"));
    assert!(!t.has_gradient("nonexistent"));
    assert_eq!(t.gradient("sunset", 0, 1), OpalineColor::new(255, 0, 0));
    assert_eq!(t.gradient("sunset", 1, 1), OpalineColor::new(0, 0, 255));
    // a missing gradient samples to the fallback gray
    assert_eq!(t.gradient("nonexistent", 1, 2), OpalineColor::fallback());
    assert_eq!(t.try_gradient("nonexistent", 1, 2), None);
    assert_eq!(
        t.try_gradient("sunset", 0, 1),
        Some(OpalineColor::new(255, 0, 0))
    );
    assert_eq!(t.get_gradient("sunset").map(Gradient::len), Some(2));
}

#[test]
fn name_listings() {
    let t = sample_theme();
    assert_eq!(t.token_names(), vec!["accent"]);
    assert_eq!(t.palette_names(), vec!["red"]);
    assert_eq!(t.style_names(), vec!["keyword"]);
    assert_eq!(t.gradient_names(), vec!["sunset"]);
}

#[test]
fn variant_helpers() {
    let t = sample_theme();
    assert!(t.is_dark());
    assert!(!t.is_light());
    let light = Theme::builder("Bright").variant(ThemeVariant::Light).build();
    assert!(light.is_light());
    assert!(!light.is_dark());
}

#[test]
fn register_token_overwrites() {
    let mut t = sample_theme();
    t.register_token("accent", OpalineColor::new(1, 2, 3));
    assert_eq!(t.color("accent"), OpalineColor::new(1, 2, 3));
    t.register_token("fresh", OpalineColor::new(9, 9, 9));
    assert_eq!(t.color("fresh"), OpalineColor::new(9, 9, 9));
    // every other entry survives the registration
    assert_eq!(t.color("accent"), OpalineColor::new(1, 2, 3));
    assert_eq!(t.color("red"), OpalineColor::new(255, 0, 0));
    assert_eq!(t.token_names(), vec!["accent", "fresh"]);
}

#[test]
fn register_default_token_keeps_existing() {
    let mut t = sample_theme();
    t.register_default_token("accent", OpalineColor::new(1, 2, 3));
    assert_eq!(t.color("accent"), OpalineColor::new(225, 53, 255));
    t.register_default_token("fresh", OpalineColor::new(9, 9, 9));
    assert_eq!(t.color("fresh"), OpalineColor::new(9, 9, 9));
}

#[test]
fn register_style_overwrites_and_default_keeps() {
    let mut t = sample_theme();
    t.register_style("keyword", OpalineStyle::new().dim());
    assert!(t.style("keyword").dim);
    assert!(!t.style("keyword").bold);
    t.register_default_style("keyword", OpalineStyle::new().italic());
    assert!(t.style("keyword").dim);
    t.register_default_style("hint", OpalineStyle::new().italic());
    assert!(t.style("hint").italic);
}

#[test]
fn from_resolved_carries_all_sections() {
    let mut tf = opaline::ThemeFile::new(opaline::ThemeMeta::new("FromResolved"));
    tf.palette.insert("red", "#ff0000".to_string());
    tf.tokens.insert("accent", "red".to_string());
    let resolved = opaline::resolve(&tf).expect("resolves");
    let theme = Theme::from_resolved(tf.meta.clone(), resolved);
    assert_eq!(theme.meta.name, "FromResolved");
    assert_eq!(theme.color("accent"), OpalineColor::new(255, 0, 0));
    assert_eq!(theme.color("red"), OpalineColor::new(255, 0, 0));
}

#[test]
fn style_with_accent_fg_and_bold_resolves_exactly() {
    let mut tf = opaline::ThemeFile::new(opaline::ThemeMeta::new("Scenario"));
    tf.tokens.insert("accent", "#e135ff".to_string());
    tf.styles.insert(
        "fancy",
        opaline::StyleDef {
            fg: Some("accent".to_string()),
            bold: true,
            ..opaline::StyleDef::default()
        },
    );
    let resolved = opaline::resolve(&tf).expect("resolves");
    let theme = Theme::from_resolved(tf.meta.clone(), resolved);
    let style = theme.style("fancy");
    assert_eq!(style.fg, Some(OpalineColor::new(225, 53, 255)));
    assert!(style.bold);
    assert_eq!(style.bg, None);
}
