use bds_ui::views::media_editor::{MediaEditorState, MediaTranslationDraft};

fn state() -> MediaEditorState {
    MediaEditorState {
        media_id: "m1".into(),
        filename: "a.png".into(),
        original_name: "A.png".into(),
        mime_type: "image/png".into(),
        size: 10,
        width: Some(1),
        height: Some(1),
        title: "Title".into(),
        alt: "Alt".into(),
        caption: "Caption".into(),
        author: String::new(),
        language: "en".into(),
        file_path: "media/a.png".into(),
        tags: vec![],
        tags_input: String::new(),
        created_at: 0,
        updated_at: 0,
        is_dirty: false,
        active_language: "en".into(),
        canonical_language: "en".into(),
        blog_languages: vec!["en".into(), "de".into()],
        saved_canonical: None,
        translation_drafts: vec![(
            "fr".into(),
            MediaTranslationDraft { title: "Titre".into(), alt: "Alt fr".into(), caption: "Légende".into(), is_dirty: false },
        )],
        linked_posts: vec![],
        post_picker_open: false,
        post_picker_search: String::new(),
        post_picker_results: vec![],
    }
}

#[test]
fn switching_to_a_language_without_draft_gives_blank_fields() {
    let mut s = state();
    s.switch_language("de");
    assert_eq!(s.active_language, "de");
    assert_eq!(s.title, "");
    assert_eq!(s.alt, "");
    assert_eq!(s.caption, "");
    assert!(!s.is_dirty);
}

#[test]
fn switching_to_a_translation_loads_its_draft() {
    let mut s = state();
    s.switch_language("fr");
    assert_eq!(s.title, "Titre");
    assert_eq!(s.caption, "Légende");
}

#[test]
fn switching_away_and_back_restores_the_edited_fields() {
    let mut s = state();
    s.title = "Edited".into();
    s.is_dirty = true;
    s.switch_language("fr");
    s.title = "Titre modifié".into();
    s.switch_language("en");
    assert_eq!(s.title, "Edited");
    assert!(s.is_dirty);
    s.switch_language("fr");
    assert_eq!(s.title, "Titre modifié");
}

#[test]
fn switching_to_the_active_language_does_nothing() {
    let mut s = state();
    s.title = "Changed".into();
    s.switch_language("en");
    assert_eq!(s.title, "Changed");
    assert!(s.saved_canonical.is_none());
}
