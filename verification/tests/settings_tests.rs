use bds_ui::views::settings_view::{default_category_rows, SettingsSection, SettingsViewState};

#[test]
fn focus_section_collapses_other_sections_and_clears_search() {
    let mut state = SettingsViewState { search_query: "publish".to_string(), ..SettingsViewState::default() };
    state.focus_section(SettingsSection::Publishing);
    assert_eq!(state.active_section, Some(SettingsSection::Publishing));
    assert!(state.search_query.is_empty());
    assert!(!state.collapsed.contains(&SettingsSection::Publishing));
    assert!(state.collapsed.contains(&SettingsSection::Project));
    assert!(state.collapsed.contains(&SettingsSection::MCP));
}

#[test]
fn focused_section_is_rendered_first() {
    let mut state = SettingsViewState::default();
    state.focus_section(SettingsSection::Technology);
    let ordered = state.ordered_sections();
    assert_eq!(ordered.first(), Some(&SettingsSection::Technology));
    assert_eq!(ordered.len(), SettingsSection::all().len());
}

#[test]
fn without_focus_sections_keep_display_order() {
    let state = SettingsViewState::default();
    assert_eq!(state.ordered_sections(), SettingsSection::all());
    assert_eq!(SettingsSection::all().len(), 8);
    assert_eq!(SettingsSection::AI.i18n_key(), "settings.nav.ai");
}

#[test]
fn defaults_match_a_new_project() {
    let state = SettingsViewState::default();
    assert_eq!(state.main_language, "en");
    assert_eq!(state.available_languages, vec!["en", "de", "fr", "it", "es"]);
    assert_eq!(state.max_posts_per_page, "50");
    assert_eq!(state.ssh_mode, "rsync");
    assert!(state.wrap_long_lines);
    let rows = default_category_rows();
    let names: Vec<&str> = rows.iter().map(|r| r.name.as_str()).collect();
    assert_eq!(names, vec!["article", "aside", "page", "picture"]);
    assert!(rows.iter().all(|r| r.is_protected));
}
