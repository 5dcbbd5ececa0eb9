use bds_ui::views::media_editor::{Media, MediaEditorState, MediaTranslation};
use bds_ui::views::post_editor::{Post, PostEditorState, PostStatus, PostTranslation};

fn make_media() -> Media {
    Media {
        id: "m1".to_string(),
        filename: "image.png".to_string(),
        original_name: "image.png".to_string(),
        mime_type: "image/png".to_string(),
        size: 10,
        width: Some(1),
        height: Some(1),
        title: Some("Image".to_string()),
        alt: Some("Alt".to_string()),
        caption: None,
        author: None,
        language: Some("en".to_string()),
        file_path: "media/test/image.png".to_string(),
        tags: vec!["a".to_string(), "b".to_string()],
        created_at: 0,
        updated_at: 0,
    }
}

fn emoji(lang: &str) -> String {
    format!("[{lang}]")
}

#[test]
fn translation_flags_include_configured_languages_without_translations() {
    let state = MediaEditorState::from_media(&make_media(), &["en".to_string(), "de".to_string()], &[], Vec::new());
    let flags = state.translation_flags(emoji);
    let languages = flags.into_iter().map(|flag| flag.language).collect::<Vec<_>>();
    assert_eq!(languages, vec!["en".to_string(), "de".to_string()]);
}

#[test]
fn media_editor_starts_in_the_canonical_language() {
    let mut media = make_media();
    media.language = None;
    let tr = MediaTranslation { language: "fr".into(), title: Some("Titre".into()), alt: None, caption: None };
    let state = MediaEditorState::from_media(&media, &["en".to_string()], &[tr], Vec::new());
    assert_eq!(state.canonical_language, "en");
    assert_eq!(state.active_language, "en");
    assert_eq!(state.title, "Image");
    assert_eq!(state.caption, "");
    assert_eq!(state.tags_input, "a, b");
    assert_eq!(state.translation_drafts.len(), 1);
    assert_eq!(state.translation_drafts[0].1.title, "Titre");
    assert_eq!(state.translation_drafts[0].1.alt, "");
}

#[test]
fn later_translations_of_a_language_replace_earlier_ones() {
    let a = MediaTranslation { language: "fr".into(), title: Some("Un".into()), alt: None, caption: None };
    let b = MediaTranslation { language: "fr".into(), title: Some("Deux".into()), alt: None, caption: None };
    let state = MediaEditorState::from_media(&make_media(), &[], &[a, b], Vec::new());
    assert_eq!(state.translation_drafts.len(), 1);
    assert_eq!(state.translation_drafts[0].1.title, "Deux");
}

#[test]
fn media_flags_are_sorted_and_marked_by_their_drafts() {
    let tr = MediaTranslation { language: "fr".into(), title: None, alt: None, caption: None };
    let mut state = MediaEditorState::from_media(
        &make_media(),
        &["it".to_string(), "en".to_string(), "de".to_string()],
        &[tr],
        Vec::new(),
    );
    state.switch_language("fr");
    let flags = state.translation_flags(emoji);
    let summary: Vec<(String, String, bool, String)> = flags
        .into_iter()
        .map(|f| (f.language, f.status, f.is_active, f.flag_emoji))
        .collect();
    assert_eq!(
        summary,
        vec![
            ("en".to_string(), "canonical".to_string(), false, "[en]".to_string()),
            ("de".to_string(), "missing".to_string(), false, "[de]".to_string()),
            ("fr".to_string(), "translation".to_string(), true, "[fr]".to_string()),
            ("it".to_string(), "missing".to_string(), false, "[it]".to_string()),
        ]
    );
}

fn sample_post() -> Post {
    Post {
        id: "post-1".to_string(),
        title: "Sample".to_string(),
        slug: "sample".to_string(),
        excerpt: None,
        content: Some("Hello world".to_string()),
        status: PostStatus::Draft,
        tags: Vec::new(),
        categories: Vec::new(),
        author: None,
        language: Some("en".to_string()),
        template_slug: None,
        do_not_translate: false,
        created_at: 1,
        updated_at: 1,
        published_at: None,
    }
}

fn sample_state() -> PostEditorState {
    PostEditorState::from_post(&sample_post(), "markdown", &["en".to_string()], &[], Vec::new(), Vec::new(), Vec::new())
}

#[test]
fn unsupported_default_mode_falls_back_to_markdown_in_the_editor() {
    let mut state = sample_state();
    state.set_editor_mode("visual");
    assert_eq!(state.editor_mode, "markdown");
    state.set_editor_mode("preview");
    assert_eq!(state.editor_mode, "preview");
}

#[test]
fn post_editor_opens_with_metadata_only_for_untitled_posts() {
    let state = sample_state();
    assert!(!state.metadata_expanded);
    assert_eq!(state.content, "Hello world");
    assert_eq!(state.excerpt, "");
    let mut untitled = sample_post();
    untitled.title = String::new();
    let state = PostEditorState::from_post(&untitled, "visual", &[], &[], Vec::new(), Vec::new(), Vec::new());
    assert!(state.metadata_expanded);
    assert_eq!(state.editor_mode, "markdown");
}

#[test]
fn mark_dirty_sets_the_flag_and_the_edit_time() {
    let mut state = sample_state();
    state.mark_dirty();
    assert!(state.is_dirty);
    assert!(state.last_edit_at_ms > 0);
}

#[test]
fn post_translation_switch_saves_and_restores_drafts() {
    let tr = PostTranslation {
        language: "de".into(),
        title: "Beispiel".into(),
        excerpt: None,
        content: Some("Hallo Welt".into()),
        status: PostStatus::Published,
    };
    let mut state = PostEditorState::from_post(
        &sample_post(),
        "markdown",
        &["en".to_string(), "de".to_string(), "fr".to_string()],
        &[tr],
        Vec::new(),
        Vec::new(),
        Vec::new(),
    );
    state.content = "Edited".into();
    state.is_dirty = true;
    state.switch_language("de");
    assert_eq!(state.title, "Beispiel");
    assert_eq!(state.content, "Hallo Welt");
    assert!(!state.is_dirty);
    assert_eq!(state.status, PostStatus::Draft);
    state.switch_language("fr");
    assert_eq!(state.title, "");
    assert_eq!(state.content, "");
    state.switch_language("en");
    assert_eq!(state.content, "Edited");
    assert!(state.is_dirty);
    assert!(state.saved_canonical.is_none());
}

#[test]
fn post_flags_show_published_draft_and_missing() {
    let tr = PostTranslation {
        language: "de".into(),
        title: "Beispiel".into(),
        excerpt: None,
        content: None,
        status: PostStatus::Published,
    };
    let mut state = PostEditorState::from_post(
        &sample_post(),
        "markdown",
        &["en".to_string(), "fr".to_string(), "de".to_string()],
        &[tr],
        Vec::new(),
        Vec::new(),
        Vec::new(),
    );
    state.switch_language("es");
    state.switch_language("en");
    let flags = state.translation_flags(emoji);
    let summary: Vec<(String, String, bool)> = flags.into_iter().map(|f| (f.language, f.status, f.is_active)).collect();
    assert_eq!(
        summary,
        vec![
            ("en".to_string(), "canonical".to_string(), true),
            ("de".to_string(), "published".to_string(), false),
            ("es".to_string(), "draft".to_string(), false),
            ("fr".to_string(), "missing".to_string(), false),
        ]
    );
}

#[test]
fn restoring_view_state_carries_panels_and_language_over() {
    let mut previous = sample_state();
    previous.metadata_expanded = true;
    previous.editor_mode = "preview".into();
    previous.tags_input = "ta".into();
    previous.ai_activity = Some("thinking".into());
    previous.switch_language("de");
    let mut state = sample_state();
    state.restore_view_state(&previous);
    assert!(state.metadata_expanded);
    assert_eq!(state.editor_mode, "preview");
    assert_eq!(state.tags_input, "ta");
    assert_eq!(state.ai_activity.as_deref(), Some("thinking"));
    assert_eq!(state.active_language, "de");
    assert_eq!(state.title, "");
}
