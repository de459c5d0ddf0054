use opaline::builtins::ThemeInfo;
use opaline::schema::ThemeVariant;
use opaline::widgets::theme_selector::{
    count_section_headers, wrap_text, SelectorKey, ThemeSelector, ThemeSelectorAction,
    ThemeSelectorState,
};

fn info(name: &str, display: &str, variant: ThemeVariant) -> ThemeInfo {
    ThemeInfo {
        name: name.to_string(),
        display_name: display.to_string(),
        variant,
        author: "tester".to_string(),
        description: String::new(),
        builtin: true,
        path: None,
    }
}

fn sample_infos() -> Vec<ThemeInfo> {
    vec![
        info("latte", "Latte", ThemeVariant::Light),
        info("nord", "Nord", ThemeVariant::Dark),
        info("dracula", "Dracula", ThemeVariant::Dark),
        info("dawn", "Dawn", ThemeVariant::Light),
    ]
}

#[test]
fn wrap_text_basic() {
    let result = wrap_text("hello world foo", 12);
    assert_eq!(result, vec!["hello world", "foo"]);
}

#[test]
fn wrap_text_empty() {
    let result = wrap_text("", 20);
    assert!(result.is_empty());
}

#[test]
fn wrap_text_single_long_word() {
    let result = wrap_text("superlongword", 5);
    assert_eq!(result, vec!["superlongword"]);
}

#[test]
fn wrap_text_zero_width_is_empty() {
    assert!(wrap_text("anything at all", 0).is_empty());
}

#[test]
fn wrap_text_collapses_whitespace() {
    let result = wrap_text("  a \t b \n c  ", 20);
    assert_eq!(result, vec!["a b c"]);
}

#[test]
fn selector_sorts_dark_first_then_alphabetically() {
    let state = ThemeSelectorState::new(sample_infos());
    let names: Vec<String> = {
        let mut v = Vec::new();
        let mut s = state;
        // walk the list with the cursor to read the display order
        loop {
            let sel = s.selected_theme().expect("entry").display_name.clone();
            v.push(sel);
            if s.handle_key(SelectorKey::Down) == ThemeSelectorAction::Noop {
                break;
            }
        }
        v
    };
    assert_eq!(names, vec!["Dracula", "Nord", "Dawn", "Latte"]);
}

#[test]
fn selector_up_down_navigation() {
    let mut state = ThemeSelectorState::new(sample_infos());
    assert_eq!(state.handle_key(SelectorKey::Up), ThemeSelectorAction::Noop);
    assert_eq!(
        state.handle_key(SelectorKey::Down),
        ThemeSelectorAction::Navigate
    );
    assert_eq!(
        state.handle_key(SelectorKey::Up),
        ThemeSelectorAction::Navigate
    );
    assert_eq!(state.handle_key(SelectorKey::Up), ThemeSelectorAction::Noop);
}

#[test]
fn selector_enter_selects_current_entry() {
    let mut state = ThemeSelectorState::new(sample_infos());
    state.handle_key(SelectorKey::Down);
    match state.handle_key(SelectorKey::Enter) {
        ThemeSelectorAction::Select(id) => assert_eq!(id, "nord"),
        other => panic!("unexpected action: {other:?}"),
    }
}

#[test]
fn selector_esc_cancels() {
    let mut state = ThemeSelectorState::new(sample_infos());
    assert_eq!(state.handle_key(SelectorKey::Esc), ThemeSelectorAction::Cancel);
}

#[test]
fn selector_filter_narrows_list() {
    let mut state = ThemeSelectorState::new(sample_infos());
    assert_eq!(
        state.handle_key(SelectorKey::Char("dra".to_string())),
        ThemeSelectorAction::FilterChanged
    );
    assert_eq!(state.filter(), "dra");
    let selected = state.selected_theme().expect("a match remains");
    assert_eq!(selected.display_name, "Dracula");
    assert_eq!(state.handle_key(SelectorKey::Down), ThemeSelectorAction::Noop);
}

#[test]
fn selector_filter_matches_author_case_insensitively() {
    let mut state = ThemeSelectorState::new(sample_infos());
    state.handle_key(SelectorKey::Char("TESTER".to_string()));
    // every sample entry has the same author, so nothing is filtered out
    let mut count = 1;
    while state.handle_key(SelectorKey::Down) == ThemeSelectorAction::Navigate {
        count += 1;
    }
    assert_eq!(count, 4);
}

#[test]
fn selector_backspace_restores_list() {
    let mut state = ThemeSelectorState::new(sample_infos());
    state.handle_key(SelectorKey::Char("zzz".to_string()));
    assert!(state.selected_theme().is_none());
    state.handle_key(SelectorKey::Backspace);
    state.handle_key(SelectorKey::Backspace);
    state.handle_key(SelectorKey::Backspace);
    assert_eq!(state.filter(), "");
    assert!(state.selected_theme().is_some());
    assert_eq!(
        state.handle_key(SelectorKey::Backspace),
        ThemeSelectorAction::Noop
    );
}

#[test]
fn selector_with_current_selected_points_at_current() {
    let state = ThemeSelectorState::with_current_selected(sample_infos(), "Nord");
    let selected = state.selected_theme().expect("entry");
    assert_eq!(selected.display_name, "Nord");
}

#[test]
fn section_headers_counted_per_variant_group() {
    let state = ThemeSelectorState::new(sample_infos());
    // dark group + light group
    assert_eq!(count_section_headers(&state), 2);
    let empty = ThemeSelectorState::new(Vec::new());
    assert_eq!(count_section_headers(&empty), 0);
}

#[test]
fn widget_title_override() {
    let w = ThemeSelector::new();
    assert_eq!(w.title_text(), "Select Theme");
    let w = w.title("Pick one");
    assert_eq!(w.title_text(), "Pick one");
}
