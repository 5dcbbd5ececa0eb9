use bds_ui::views::menu_editor::{
    category_matches_query, page_matches_query, DraftKind, DropPosition, MenuEditError,
    MenuEditorState, MoveDirection, PageOption, DRAG_EXPAND_DELAY_MS, HOME_ID,
};
use bds_ui::views::menu_tree::{find_path, item_at, MenuItemKind, MenuNode};

fn node(id: &str, kind: MenuItemKind, label: &str, slug: Option<&str>) -> MenuNode {
    MenuNode {
        id: id.into(),
        kind,
        label: label.into(),
        slug: slug.map(str::to_string),
        children: Vec::new(),
    }
}

fn labels(items: &[MenuNode]) -> Vec<&str> {
    items.iter().map(|item| item.label.as_str()).collect()
}

fn fixture() -> MenuEditorState {
    MenuEditorState::ready(
        "project".into(),
        vec![
            node(HOME_ID, MenuItemKind::Home, "Home", None),
            node("page-one", MenuItemKind::Page, "One", Some("one")),
            node("section", MenuItemKind::Submenu, "Section", None),
        ],
        vec![PageOption { id: "page-two".into(), title: "Two".into(), slug: "two".into() }],
        vec!["articles".into()],
    )
}

#[test]
fn inserts_after_a_leaf_and_as_first_child_of_a_submenu() {
    let mut state = fixture();
    state.selected_id = Some("page-one".into());
    state.start_draft(DraftKind::Page);
    state.draft_changed("Nested".into());
    state.submit_submenu("New submenu").unwrap();
    assert_eq!(labels(&state.items), vec!["Home", "One", "Nested", "Section"]);

    state.selected_id = Some("section".into());
    state.start_draft(DraftKind::Page);
    state.choose_page("page-two").unwrap();
    assert_eq!(labels(&state.items[3].children), vec!["Two"]);
}

#[test]
fn cancelling_a_draft_removes_it() {
    let mut state = fixture();
    state.selected_id = Some("page-one".into());
    state.start_draft(DraftKind::Category);
    assert!(state.draft.is_some());
    state.cancel_draft();
    assert_eq!(labels(&state.items), vec!["Home", "One", "Section"]);
}

#[test]
fn moves_indents_and_unindents_with_home_protected() {
    let mut state = fixture();
    state.selected_id = Some("section".into());
    assert!(state.move_selected(MoveDirection::Up));
    assert_eq!(labels(&state.items), vec!["Home", "Section", "One"]);
    assert!(!state.move_selected(MoveDirection::Up));
    assert!(state.move_selected(MoveDirection::Down));
    assert_eq!(labels(&state.items), vec!["Home", "One", "Section"]);
    assert!(state.move_selected(MoveDirection::Up));

    state.selected_id = Some("page-one".into());
    assert!(state.indent_selected());
    assert_eq!(labels(&state.items[1].children), vec!["One"]);
    assert!(state.unindent_selected());
    assert_eq!(labels(&state.items), vec!["Home", "Section", "One"]);

    state.selected_id = Some(HOME_ID.into());
    assert!(!state.move_selected(MoveDirection::Down));
    assert!(!state.delete_selected());
}

#[test]
fn drag_drop_supports_positions_and_rejects_invalid_targets() {
    let mut state = fixture();
    assert!(state.drop_item("page-one", "section", DropPosition::Inside));
    let section = find_path(&state.items, "section").unwrap();
    assert_eq!(labels(&item_at(&state.items, &section).unwrap().children), vec!["One"]);
    assert!(state.drop_item("page-one", "section", DropPosition::Before));
    assert_eq!(labels(&state.items), vec!["Home", "One", "Section"]);
    assert!(state.drop_item("page-one", "section", DropPosition::After));
    assert_eq!(labels(&state.items), vec!["Home", "Section", "One"]);
    assert!(state.drop_item("page-one", "section", DropPosition::Before));
    assert!(!state.drop_item("section", "page-one", DropPosition::Inside));
    assert!(!state.drop_item("section", "section", DropPosition::After));
    assert!(!state.drop_item("section", HOME_ID, DropPosition::Before));
    assert!(!state.drop_item(HOME_ID, "section", DropPosition::After));

    state.items[2].children.push(node("child", MenuItemKind::Submenu, "Child", None));
    assert!(!state.drop_item("section", "child", DropPosition::Inside));
}

#[test]
fn category_drafts_validate_and_normalize_existing_names() {
    let mut state = fixture();
    state.start_draft(DraftKind::Category);
    assert!(state.submit_category().is_err());
    assert!(state.draft.as_ref().unwrap().validation_failed);
    state.draft_changed(" ARTICLES ".into());
    assert_eq!(state.submit_category().unwrap(), ("articles".to_string(), false));

    state.start_draft(DraftKind::Category);
    state.draft_changed(" Long Form ".into());
    assert_eq!(state.submit_category().unwrap(), ("Long Form".to_string(), true));
    assert_eq!(state.categories, vec!["articles", "Long Form"]);
}

#[test]
fn collapsed_submenus_expand_only_after_the_drag_delay() {
    let mut state = fixture();
    state.collapse("section");
    state.dragging_id = Some("page-one".into());
    let started: u64 = 1_000_000;
    state.drag_over("section".into(), DropPosition::Inside, started);
    assert!(!state.expand_hovered(started + DRAG_EXPAND_DELAY_MS - 1));
    assert!(state.is_collapsed("section"));
    assert!(state.expand_hovered(started + DRAG_EXPAND_DELAY_MS));
    assert!(!state.is_collapsed("section"));
}

#[test]
fn draft_search_matches_bds2_title_slug_and_trimmed_category_rules() {
    let page = PageOption { id: "page".into(), title: "About Us".into(), slug: "company-profile".into() };
    assert!(page_matches_query(&page, " ABOUT "));
    assert!(page_matches_query(&page, "profile"));
    assert!(!page_matches_query(&page, "contact"));
    assert!(category_matches_query("Long Form", " long "));
}

#[test]
fn blank_queries_match_every_page_and_category() {
    let page = PageOption { id: "p".into(), title: "T".into(), slug: "s".into() };
    assert!(page_matches_query(&page, "   "));
    assert!(category_matches_query("Anything", ""));
}

#[test]
fn indent_then_unindent_restores_the_tree() {
    let mut state = fixture();
    state.selected_id = Some("section".into());
    assert!(state.move_selected(MoveDirection::Up));
    state.selected_id = Some("page-one".into());
    assert!(state.indent_selected());
    assert!(state.unindent_selected());
    assert_eq!(labels(&state.items), vec!["Home", "Section", "One"]);
    assert!(state.items[1].children.is_empty());
}

#[test]
fn deleting_the_selection_removes_it_and_marks_dirty() {
    let mut state = fixture();
    state.selected_id = Some("page-one".into());
    assert!(state.delete_selected());
    assert_eq!(labels(&state.items), vec!["Home", "Section"]);
    assert!(state.dirty);
}

#[test]
fn choosing_an_unknown_page_fails() {
    let mut state = fixture();
    state.selected_id = Some("page-one".into());
    state.start_draft(DraftKind::Page);
    assert!(state.choose_page("missing").is_err());
}

#[test]
fn submitting_without_a_draft_is_refused() {
    let mut state = fixture();
    assert_eq!(state.submit_submenu("New"), Err(MenuEditError::MissingDraft));
}

use bds_ui::views::menu_editor::menu_categories;
use bds_ui::views::menu_pages::{compare_pages, menu_pages, PageCandidate};

fn post(id: &str, title: &str, slug: &str, categories: &[&str]) -> PageCandidate {
    PageCandidate {
        id: id.into(),
        title: title.into(),
        slug: slug.into(),
        categories: categories.iter().map(|c| c.to_string()).collect(),
    }
}

#[test]
fn menu_pages_are_page_posts_by_lowercase_title_then_slug() {
    let posts = [
        post("a", "beta", "b-2", &["Page"]),
        post("b", "Alpha", "a", &["news", "PAGE"]),
        post("c", "Gamma", "g", &["news"]),
        post("d", "Beta", "b-1", &["page"]),
        post("e", "beta", "b-1", &["page"]),
        post("f", "Zed", "z", &[]),
    ];
    let ids: Vec<String> = menu_pages(&posts).into_iter().map(|p| p.id).collect();
    assert_eq!(ids, vec!["b", "d", "e", "a"]);
    assert!(menu_pages(&[]).is_empty());
    let x = PageOption { id: "1".into(), title: "Ab".into(), slug: "s".into() };
    let y = PageOption { id: "2".into(), title: "aB".into(), slug: "s".into() };
    assert_eq!(compare_pages(&x, &y), std::cmp::Ordering::Equal);
}

#[test]
fn menu_categories_sort_by_lowercase_and_keep_ties_in_order() {
    let sorted = menu_categories(vec!["beta".into(), "Alpha".into(), "BETA".into(), "alpha".into()]);
    assert_eq!(sorted, vec!["Alpha", "alpha", "beta", "BETA"]);
}

#[test]
fn loaded_editor_offers_sorted_pages_and_categories() {
    let state = MenuEditorState::from_loaded(
        "project".into(),
        vec![stored(MenuItemKind::Home, "Home", None, vec![])],
        &[post("p2", "Zoo", "zoo", &["page"]), post("p1", "about", "about", &["page"])],
        vec!["news".into(), "Art".into()],
    );
    let titles: Vec<&str> = state.pages.iter().map(|p| p.title.as_str()).collect();
    assert_eq!(titles, vec!["about", "Zoo"]);
    assert_eq!(state.categories, vec!["Art", "news"]);
    assert_eq!(state.selected_id.as_deref(), Some(HOME_ID));
    assert!(!state.dirty);
}

#[test]
fn new_draft_entries_get_hyphenated_random_uuids() {
    let mut state = fixture();
    assert!(state.start_draft(DraftKind::Page));
    let id = state.draft.as_ref().unwrap().item_id.clone();
    assert_eq!(id.len(), 36);
    for (i, c) in id.chars().enumerate() {
        if [8, 13, 18, 23].contains(&i) {
            assert_eq!(c, '-');
        } else {
            assert!(c.is_ascii_hexdigit() && !c.is_ascii_uppercase());
        }
    }
    assert_eq!(id.as_bytes()[14], b'4');
    assert!(matches!(id.as_bytes()[19], b'8' | b'9' | b'a' | b'b'));
}

use bds_ui::views::menu_tree::MenuItem;

fn stored(kind: MenuItemKind, label: &str, slug: Option<&str>, children: Vec<MenuItem>) -> MenuItem {
    MenuItem { kind, label: label.into(), slug: slug.map(str::to_string), children }
}

fn shape(items: &[MenuItem]) -> Vec<(MenuItemKind, String, Option<String>, usize)> {
    let mut out = Vec::new();
    for item in items {
        out.push((item.kind, item.label.clone(), item.slug.clone(), item.children.len()));
        out.extend(shape(&item.children));
    }
    out
}

#[test]
fn stored_menus_get_ids_and_round_trip() {
    let menu = vec![
        stored(MenuItemKind::Home, "Home", None, vec![]),
        stored(
            MenuItemKind::Submenu,
            "More",
            None,
            vec![stored(MenuItemKind::Page, "About", Some("about"), vec![])],
        ),
    ];
    let expected = shape(&menu);
    let state = MenuEditorState::from_persisted("p".into(), menu, vec![], vec![]);
    assert_eq!(state.items[0].id, HOME_ID);
    assert_eq!(state.selected_id.as_deref(), Some(HOME_ID));
    let sub_id = &state.items[1].id;
    let page_id = &state.items[1].children[0].id;
    assert_eq!(sub_id.len(), 36);
    assert_eq!(page_id.len(), 36);
    assert_ne!(sub_id, page_id);
    assert_eq!(shape(&state.persisted_items()), expected);
}
