use bds_ui::state::navigation::{handle_activity_click, SidebarView};
use bds_ui::state::tabs::{close_tab, open_tab, pin_tab, Tab, TabType};
use bds_ui::state::toast::{Toast, ToastIds, ToastLevel, DEFAULT_DURATION_MS};

fn make_tab(id: &str, tab_type: TabType, transient: bool) -> Tab {
    Tab {
        id: id.to_string(),
        tab_type,
        title: id.to_string(),
        is_transient: transient,
        is_dirty: false,
    }
}

#[test]
fn toggle_off_when_same_and_visible() {
    let (view, visible) = handle_activity_click(SidebarView::Posts, true, SidebarView::Posts);
    assert_eq!(view, SidebarView::Posts);
    assert!(!visible);
}

#[test]
fn toggle_on_when_same_and_hidden() {
    let (view, visible) = handle_activity_click(SidebarView::Posts, false, SidebarView::Posts);
    assert_eq!(view, SidebarView::Posts);
    assert!(visible);
}

#[test]
fn switch_view_when_different() {
    let (view, visible) = handle_activity_click(SidebarView::Posts, true, SidebarView::Media);
    assert_eq!(view, SidebarView::Media);
    assert!(visible);
}

#[test]
fn switch_view_when_different_and_hidden() {
    let (view, visible) = handle_activity_click(SidebarView::Posts, false, SidebarView::Settings);
    assert_eq!(view, SidebarView::Settings);
    assert!(visible);
}

#[test]
fn display_returns_i18n_key() {
    assert_eq!(SidebarView::Posts.to_display_string(), "activity.posts");
    assert_eq!(SidebarView::Settings.to_display_string(), "common.settings");
}

#[test]
fn double_click_on_an_icon_restores_the_sidebar() {
    for visible in [true, false] {
        let (view, shown) = handle_activity_click(SidebarView::Media, visible, SidebarView::Media);
        let (view, shown) = handle_activity_click(view, shown, SidebarView::Media);
        assert_eq!(view, SidebarView::Media);
        assert_eq!(shown, visible);
    }
}

#[test]
fn singleton_dedup() {
    let mut tabs = Vec::new();
    let idx1 = open_tab(&mut tabs, make_tab("s1", TabType::Settings, false));
    let idx2 = open_tab(&mut tabs, make_tab("s2", TabType::Settings, false));
    assert_eq!(idx1, idx2);
    assert_eq!(tabs.len(), 1);
    assert_eq!(tabs[0].id, "s1");
}

#[test]
fn transient_replacement() {
    let mut tabs = Vec::new();
    open_tab(&mut tabs, make_tab("p1", TabType::Post, true));
    assert_eq!(tabs.len(), 1);
    let idx = open_tab(&mut tabs, make_tab("p2", TabType::Post, true));
    assert_eq!(tabs.len(), 1);
    assert_eq!(tabs[idx].id, "p2");
}

#[test]
fn pin_makes_permanent() {
    let mut tabs = Vec::new();
    open_tab(&mut tabs, make_tab("p1", TabType::Post, true));
    assert!(tabs[0].is_transient);
    pin_tab(&mut tabs, "p1");
    assert!(!tabs[0].is_transient);
}

#[test]
fn close_selects_neighbor() {
    let mut tabs = Vec::new();
    open_tab(&mut tabs, make_tab("a", TabType::Post, false));
    open_tab(&mut tabs, make_tab("b", TabType::Media, false));
    open_tab(&mut tabs, make_tab("c", TabType::Post, false));

    let next = close_tab(&mut tabs, "b");
    assert_eq!(next, Some(1));
    assert_eq!(tabs[1].id, "c");

    let next = close_tab(&mut tabs, "c");
    assert_eq!(next, Some(0));

    let next = close_tab(&mut tabs, "a");
    assert_eq!(next, None);
}

#[test]
fn open_appends_non_singleton_non_transient() {
    let mut tabs = Vec::new();
    let i0 = open_tab(&mut tabs, make_tab("p1", TabType::Post, false));
    let i1 = open_tab(&mut tabs, make_tab("p2", TabType::Post, false));
    assert_eq!(i0, 0);
    assert_eq!(i1, 1);
    assert_eq!(tabs.len(), 2);
}

#[test]
fn opening_then_closing_a_new_tab_restores_the_bar() {
    let mut tabs = Vec::new();
    open_tab(&mut tabs, make_tab("a", TabType::Post, false));
    open_tab(&mut tabs, make_tab("b", TabType::Media, false));
    let before: Vec<String> = tabs.iter().map(|t| t.id.clone()).collect();
    open_tab(&mut tabs, make_tab("c", TabType::Post, false));
    close_tab(&mut tabs, "c");
    let after: Vec<String> = tabs.iter().map(|t| t.id.clone()).collect();
    assert_eq!(before, after);
}

#[test]
fn closing_a_missing_tab_changes_nothing() {
    let mut tabs = Vec::new();
    open_tab(&mut tabs, make_tab("a", TabType::Post, false));
    assert_eq!(close_tab(&mut tabs, "zzz"), None);
    assert_eq!(tabs.len(), 1);
}

#[test]
fn toast_ids_are_unique() {
    let mut ids = ToastIds::new();
    let a = Toast::new(&mut ids, ToastLevel::Info, "a".into());
    let b = Toast::new(&mut ids, ToastLevel::Info, "b".into());
    assert_ne!(a.id, b.id);
}

#[test]
fn fresh_toast_not_expired() {
    let mut ids = ToastIds::new();
    let t = Toast::new(&mut ids, ToastLevel::Info, "test".into());
    assert!(!t.is_expired());
}

#[test]
fn error_toast_never_expires_automatically() {
    let mut ids = ToastIds::new();
    let mut toast = Toast::new(&mut ids, ToastLevel::Error, "important".into());
    toast.created_at = 0;
    assert!(!toast.is_expired());
}

#[test]
fn info_toast_expires_after_the_default_duration() {
    let mut ids = ToastIds::new();
    let toast = Toast::at(&mut ids, ToastLevel::Info, "x".into(), 1_000);
    assert!(!toast.is_expired_at(1_000 + DEFAULT_DURATION_MS - 1));
    assert!(toast.is_expired_at(1_000 + DEFAULT_DURATION_MS));
    assert!(!toast.is_expired_at(10));
    let mut old = Toast::new(&mut ids, ToastLevel::Warning, "y".into());
    old.created_at = 0;
    assert!(old.is_expired());
}

#[test]
fn toast_ids_start_at_one_and_count_up() {
    let mut ids = ToastIds::new();
    let a = Toast::at(&mut ids, ToastLevel::Info, "a".into(), 0);
    let b = Toast::at(&mut ids, ToastLevel::Info, "b".into(), 0);
    assert_eq!(a.id, 1);
    assert_eq!(b.id, 2);
}
