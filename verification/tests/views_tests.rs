use bds_ui::views::modal::{external_link_markdown, gallery_step};
use bds_ui::views::post_editor::{
    content_actions_visible, matching_tag_suggestions, normalize_editor_mode, tag_query_addable,
    truncate_header_title, visible_semantic_tag_suggestions,
};
use bds_ui::views::sidebar::{
    format_file_size, month_abbr, post_type_icon, truncate_media_title, truncate_to_fit_chars,
};
use bds_ui::views::style_view::{
    display_theme_name, is_supported_theme, normalize_theme, themes, PreviewMode, StyleViewState,
    DEFAULT_THEME,
};

#[test]
fn external_link_markdown_requires_url() {
    assert_eq!(external_link_markdown("", "text"), None);
    assert_eq!(
        external_link_markdown("https://example.com", ""),
        Some("https://example.com".to_string())
    );
    assert_eq!(
        external_link_markdown("https://example.com", "Example"),
        Some("[Example](https://example.com)".to_string())
    );
}

#[test]
fn external_link_markdown_trims_both_parts() {
    assert_eq!(external_link_markdown("   ", "text"), None);
    assert_eq!(
        external_link_markdown("  https://a.b  ", "  A  "),
        Some("[A](https://a.b)".to_string())
    );
}

#[test]
fn gallery_step_wraps_in_both_directions() {
    assert_eq!(gallery_step(0, 3, -1), 2);
    assert_eq!(gallery_step(2, 3, 1), 0);
    assert_eq!(gallery_step(1, 3, 1), 2);
}

#[test]
fn gallery_step_forward_then_back_returns_and_empty_gallery_stays_at_zero() {
    for i in 0..5 {
        assert_eq!(gallery_step(gallery_step(i, 5, 3), 5, -3), i);
    }
    assert_eq!(gallery_step(0, 0, 1), 0);
    assert_eq!(gallery_step(0, 3, -7), 2);
}

#[test]
fn partial_tag_query_matches_existing_tags_case_insensitively() {
    let available = vec!["Photography".to_string(), "Photo Essay".to_string(), "Rust".to_string()];
    let selected = vec!["Photography".to_string()];
    assert_eq!(matching_tag_suggestions(&available, &selected, "PHO"), vec!["Photo Essay"]);
}

#[test]
fn partial_tag_query_limits_matches_and_exact_names_are_not_addable() {
    let available = (0..10).map(|index| format!("tag-{index}")).collect::<Vec<_>>();
    assert_eq!(matching_tag_suggestions(&available, &[], "tag").len(), 8);
    assert!(!tag_query_addable(&available, &[], " TAG-3 "));
    assert!(tag_query_addable(&available, &[], "new tag"));
}

#[test]
fn semantic_tag_suggestions_are_hidden_while_filtering_and_exclude_selected_tags() {
    let selected = vec!["science".to_string()];
    let semantic = vec!["science".to_string(), "space".to_string(), "history".to_string()];
    assert_eq!(visible_semantic_tag_suggestions(&semantic, &selected, ""), vec!["space", "history"]);
    assert!(visible_semantic_tag_suggestions(&semantic, &selected, "spa").is_empty());
}

#[test]
fn blank_tag_query_suggests_nothing_and_is_not_addable() {
    let available = vec!["Rust".to_string()];
    assert!(matching_tag_suggestions(&available, &[], "   ").is_empty());
    assert!(!tag_query_addable(&available, &[], "  "));
}

#[test]
fn unsupported_default_mode_falls_back_to_markdown() {
    assert_eq!(normalize_editor_mode("visual"), "markdown");
    assert_eq!(normalize_editor_mode("preview"), "preview");
    assert_eq!(normalize_editor_mode("markdown"), "markdown");
}

#[test]
fn content_actions_are_only_visible_in_markdown_mode() {
    assert!(content_actions_visible("markdown"));
    assert!(!content_actions_visible("preview"));
}

#[test]
fn header_titles_are_cut_after_fifty_three_characters() {
    let short = "x".repeat(56);
    assert_eq!(truncate_header_title(&short), short);
    let long = "y".repeat(57);
    assert_eq!(truncate_header_title(&long), format!("{}...", "y".repeat(53)));
}

#[test]
fn truncate_media_title_short() {
    assert_eq!(truncate_media_title("short title"), "short title");
}

#[test]
fn truncate_media_title_exact_60() {
    let title: String = "a".repeat(60);
    assert_eq!(truncate_media_title(&title), title);
}

#[test]
fn truncate_media_title_over_60() {
    let title: String = "a".repeat(65);
    let expected = format!("{}...", "a".repeat(60));
    assert_eq!(truncate_media_title(&title), expected);
}

#[test]
fn truncate_media_title_unicode() {
    let title: String = "\u{00FC}".repeat(61);
    let expected = format!("{}...", "\u{00FC}".repeat(60));
    assert_eq!(truncate_media_title(&title), expected);
}

fn fit_chars_for(available_px: f32) -> usize {
    (available_px / 6.8) as usize
}

#[test]
fn truncate_to_fit_short() {
    assert_eq!(truncate_to_fit_chars("Hello", fit_chars_for(100.0)), "Hello");
}

#[test]
fn truncate_to_fit_long() {
    let result = truncate_to_fit_chars(&"a".repeat(20), fit_chars_for(50.0));
    assert!(result.ends_with('\u{2026}'));
    assert!(result.chars().count() <= 8);
}

#[test]
fn truncate_to_fit_narrow() {
    let result = truncate_to_fit_chars(&"a".repeat(20), fit_chars_for(10.0));
    assert!(result.ends_with('\u{2026}'));
    assert!(result.chars().count() >= 2);
}

#[test]
fn truncate_to_fit_keeps_at_least_five_characters() {
    assert_eq!(truncate_to_fit_chars("abcdefghij", 0), "abcde\u{2026}");
    assert_eq!(truncate_to_fit_chars("abcdef", 0), "abcdef");
}

#[test]
fn format_file_size_bytes() {
    assert_eq!(format_file_size(0), "0 B");
    assert_eq!(format_file_size(512), "512 B");
    assert_eq!(format_file_size(1023), "1023 B");
}

#[test]
fn format_file_size_kilobytes() {
    assert_eq!(format_file_size(1024), "1.0 KB");
    assert_eq!(format_file_size(1536), "1.5 KB");
    assert_eq!(format_file_size(1024 * 1024 - 1), "1024.0 KB");
}

#[test]
fn format_file_size_megabytes() {
    assert_eq!(format_file_size(1024 * 1024), "1.0 MB");
    assert_eq!(format_file_size(5 * 1024 * 1024), "5.0 MB");
}

#[test]
fn format_file_size_negative_and_rounding_match_float_formatting() {
    assert_eq!(format_file_size(-5), "-5 B");
    for size in [1024i64, 1280, 3840, 1075, 1126, 1177, 2048 + 51, 10_000, 999_999, 1_048_576 + 52_428, 123_456_789] {
        let expected = if size < 1024 * 1024 {
            format!("{:.1} KB", size as f64 / 1024.0)
        } else {
            format!("{:.1} MB", size as f64 / (1024.0 * 1024.0))
        };
        assert_eq!(format_file_size(size), expected, "size {size}");
    }
}

#[test]
fn post_icons_follow_the_first_known_category() {
    assert_eq!(post_type_icon(&["Misc".to_string(), "Picture".to_string()]), "\u{1F4F7}");
    assert_eq!(post_type_icon(&["BLOGMARK".to_string()]), "\u{1F517}");
    assert_eq!(post_type_icon(&[]), "\u{1F4C4}");
}

#[test]
fn month_abbreviations_cover_the_year() {
    assert_eq!(month_abbr(1), "Jan");
    assert_eq!(month_abbr(12), "Dec");
    assert_eq!(month_abbr(13), "???");
}

#[test]
fn preview_url_tracks_selection_and_local_mode() {
    let mut state = StyleViewState::new(Some("blue"));
    state.select_theme("pumpkin");
    assert_eq!(state.preview_url(), "http://127.0.0.1:4123/__style-preview?theme=pumpkin&mode=auto");
    state.set_preview_mode(PreviewMode::Light);
    assert_eq!(state.preview_url(), "http://127.0.0.1:4123/__style-preview?theme=pumpkin&mode=light");
    state.set_preview_mode(PreviewMode::Dark);
    assert_eq!(state.preview_url(), "http://127.0.0.1:4123/__style-preview?theme=pumpkin&mode=dark");
    assert_eq!(state.applied_theme, "blue");
}

#[test]
fn invalid_or_empty_applied_theme_uses_default() {
    assert_eq!(StyleViewState::new(None).applied_theme, "default");
    assert_eq!(StyleViewState::new(Some("")).applied_theme, "default");
    assert_eq!(StyleViewState::new(Some("unknown")).applied_theme, "default");
}

#[test]
fn applying_a_selection_and_refreshing() {
    let mut state = StyleViewState::new(Some("blue"));
    assert!(!state.can_apply());
    state.select_theme("no-such-theme");
    assert_eq!(state.selected_theme, "blue");
    state.select_theme("pumpkin");
    assert!(state.can_apply());
    state.refresh_applied_theme(Some("default"));
    assert_eq!(state.selected_theme, "pumpkin");
    state.mark_applied();
    assert_eq!(state.applied_theme, "pumpkin");
    assert!(!state.can_apply());
    state.refresh_applied_theme(Some("blue"));
    assert_eq!(state.selected_theme, "blue");
}

#[test]
fn theme_catalog_names_are_supported_and_distinct() {
    let all = themes();
    assert_eq!(all.len(), 20);
    for (i, theme) in all.iter().enumerate() {
        assert!(is_supported_theme(theme.name));
        assert!(all[..i].iter().all(|other| other.name != theme.name));
    }
    assert!(is_supported_theme(DEFAULT_THEME));
    assert_eq!(normalize_theme(Some("pumpkin")), "pumpkin");
    assert_eq!(normalize_theme(Some("zzz")), DEFAULT_THEME);
}

#[test]
fn theme_names_are_displayed_capitalised_with_spaces() {
    assert_eq!(display_theme_name("dark-blue"), "Dark blue");
    assert_eq!(display_theme_name(""), "");
}

use bds_ui::views::sidebar::format_post_date;

#[test]
fn post_dates_are_shown_as_month_day_year_in_utc() {
    assert_eq!(format_post_date(1_770_681_600_000), "Feb 10, 2026");
    assert_eq!(format_post_date(0), "Jan 01, 1970");
    assert_eq!(format_post_date(-1), "Jan 01, 1970");
    assert_eq!(format_post_date(-86_400_001), "Dec 31, 1969");
    assert_eq!(format_post_date(i64::MAX), "Jan 01, 1970");
    assert_eq!(format_post_date(253_402_300_800_000), "Jan 01, +10000");
}


#[test]
fn themes_match_the_allium_and_bds2_catalog() {
    let themes = themes();
    assert_eq!(themes.len(), 20);
    assert_eq!(themes.first().unwrap().name, "default");
    assert_eq!(themes.last().unwrap().name, "zinc");
    assert_eq!(themes[1].accent_color, "#ffbf00");
    assert_eq!(themes[2].accent_color, "#2060df");
    assert_eq!(themes[18].accent_color, "#f2df0d");
    assert_eq!(themes[19].accent_color, "#646b79");
    assert_eq!(
        themes
            .iter()
            .map(|theme| theme.accent_color)
            .collect::<std::collections::HashSet<_>>()
            .len(),
        themes.len()
    );
    assert!(themes
        .iter()
        .all(|theme| theme.light_bg_color == "#ffffff" && theme.dark_bg_color == "#13171f"));
}

use bds_ui::views::git::{
    commit_enabled, git_sidebar_body, network_actions_enabled, shown_history_len, GitSidebarBody,
};

#[test]
fn git_sidebar_offers_actions_only_when_they_can_run() {
    assert_eq!(git_sidebar_body(true, false), GitSidebarBody::Loading);
    assert_eq!(git_sidebar_body(false, false), GitSidebarBody::NotRepository);
    assert_eq!(git_sidebar_body(true, true), GitSidebarBody::Repository);
    assert!(network_actions_enabled(false, false));
    assert!(!network_actions_enabled(true, false));
    assert!(!network_actions_enabled(false, true));
    assert!(commit_enabled(2, " Fix typo "));
    assert!(!commit_enabled(0, "Fix typo"));
    assert!(!commit_enabled(3, " \n\t"));
    assert_eq!(shown_history_len(7), 7);
    assert_eq!(shown_history_len(20), 20);
    assert_eq!(shown_history_len(45), 20);
}
