use bds_ui::state::navigation::SidebarView;
use bds_ui::state::sidebar_filter::{build_calendar_tree, MediaFilter, PostFilter};
use bds_ui::state::sidebar_search::{
    is_page_post, post_listed, SidebarAction, SidebarEvent, SidebarSearchState, SIDEBAR_PAGE_SIZE,
};

fn state(view: SidebarView) -> SidebarSearchState<u32, u32> {
    SidebarSearchState {
        sidebar_view: view,
        search_index_rebuild_required: false,
        post_filter: PostFilter::new(),
        page_filter: PostFilter::new(),
        media_filter: MediaFilter::new(),
        sidebar_posts: Vec::new(),
        sidebar_posts_has_more: false,
        sidebar_media: Vec::new(),
        sidebar_media_has_more: false,
    }
}

#[test]
fn searches_update_the_filter_of_the_current_view_and_refresh() {
    let mut s = state(SidebarView::Pages);
    assert_eq!(s.handle(SidebarEvent::PostSearchChanged("rust".into())), SidebarAction::RefreshPosts);
    assert_eq!(s.page_filter.search_query, "rust");
    assert_eq!(s.post_filter.search_query, "");
    let mut s = state(SidebarView::Posts);
    assert_eq!(s.handle(SidebarEvent::MediaSearchChanged("cat".into())), SidebarAction::RefreshMedia);
    assert_eq!(s.media_filter.search_query, "cat");
}

#[test]
fn searching_while_the_index_needs_a_rebuild_asks_for_repair() {
    let mut s = state(SidebarView::Posts);
    s.search_index_rebuild_required = true;
    assert_eq!(s.handle(SidebarEvent::PostSearchChanged("x".into())), SidebarAction::ShowSearchIndexRepair);
    assert_eq!(s.post_filter.search_query, "");
    assert_eq!(s.handle(SidebarEvent::PostSearchChanged(String::new())), SidebarAction::RefreshPosts);
    assert_eq!(s.handle(SidebarEvent::MediaSearchChanged("y".into())), SidebarAction::ShowSearchIndexRepair);
}

#[test]
fn toggling_a_tag_twice_restores_the_filter() {
    let mut s = state(SidebarView::Posts);
    s.handle(SidebarEvent::TogglePostTagFilter("a".into()));
    s.handle(SidebarEvent::TogglePostTagFilter("b".into()));
    assert_eq!(s.post_filter.tag_filter, vec!["a", "b"]);
    s.handle(SidebarEvent::TogglePostTagFilter("a".into()));
    assert_eq!(s.post_filter.tag_filter, vec!["b"]);
    s.handle(SidebarEvent::ToggleMediaTagFilter("m".into()));
    s.handle(SidebarEvent::ToggleMediaTagFilter("m".into()));
    assert!(s.media_filter.tag_filter.is_empty());
}

#[test]
fn choosing_a_year_clears_the_month_and_clearing_keeps_the_panel() {
    let mut s = state(SidebarView::Posts);
    s.handle(SidebarEvent::SetPostCalendarMonth(Some(3)));
    s.handle(SidebarEvent::SetPostCalendarYear(Some(2024)));
    assert_eq!(s.post_filter.calendar.selected_year, Some(2024));
    assert_eq!(s.post_filter.calendar.selected_month, None);
    assert_eq!(s.handle(SidebarEvent::TogglePostFilterPanel), SidebarAction::Nothing);
    s.handle(SidebarEvent::SetPostStatusFilter(Some("draft".into())));
    s.handle(SidebarEvent::SetPostFromDate("2024-01-01".into()));
    assert!(s.post_filter.has_active_filters());
    assert_eq!(s.handle(SidebarEvent::ClearPostFilters), SidebarAction::RefreshPosts);
    assert!(!s.post_filter.has_active_filters());
    assert!(s.post_filter.filter_panel_visible);
    assert_eq!(s.post_filter.status_filter.as_deref(), Some("draft"));
    assert_eq!(s.post_filter.from_date, "2024-01-01");
}

#[test]
fn status_language_and_dates_alone_are_not_active_filters() {
    let mut s = state(SidebarView::Posts);
    s.handle(SidebarEvent::SetPostStatusFilter(Some("draft".into())));
    s.handle(SidebarEvent::SetPostToDate("2024-02-01".into()));
    assert!(!s.post_filter.has_active_filters());
    s.handle(SidebarEvent::PostSearchChanged("x".into()));
    assert!(s.post_filter.has_active_filters());
}

#[test]
fn pages_of_results_are_cut_to_the_page_size() {
    let mut s = state(SidebarView::Posts);
    let page: Vec<u32> = (0..(SIDEBAR_PAGE_SIZE as u32 + 1)).collect();
    s.handle(SidebarEvent::SidebarPostsLoaded(page.clone()));
    assert_eq!(s.sidebar_posts.len(), SIDEBAR_PAGE_SIZE);
    assert!(s.sidebar_posts_has_more);
    s.handle(SidebarEvent::SidebarPostsAppended(vec![7, 8]));
    assert_eq!(s.sidebar_posts.len(), SIDEBAR_PAGE_SIZE + 2);
    assert!(!s.sidebar_posts_has_more);
    s.handle(SidebarEvent::SidebarMediaLoaded(vec![1]));
    assert_eq!(s.sidebar_media, vec![1]);
    assert_eq!(s.handle(SidebarEvent::LoadMoreMedia), SidebarAction::LoadMoreMedia);
}

#[test]
fn pages_are_posts_in_the_page_category() {
    assert!(is_page_post(&["News".to_string(), "PAGE".to_string()]));
    assert!(!is_page_post(&["pages".to_string()]));
    assert!(post_listed("p1", "p1", &["page".to_string()], true));
    assert!(!post_listed("p1", "p1", &["page".to_string()], false));
    assert!(!post_listed("p1", "p2", &[], false));
}

#[test]
fn calendar_tree_groups_months_by_year_in_order_of_appearance() {
    let tree = build_calendar_tree(&[(2024, 3, 2), (2023, 1, 1), (2024, 1, 5)]);
    let years: Vec<i32> = tree.iter().map(|y| y.year).collect();
    assert_eq!(years, vec![2024, 2023]);
    let months: Vec<(u32, usize)> = tree[0].months.iter().map(|m| (m.month, m.count)).collect();
    assert_eq!(months, vec![(3, 2), (1, 5)]);
}

use bds_ui::state::sidebar_search::parse_filter_date;

#[test]
fn filter_dates_cover_the_whole_day() {
    assert_eq!(parse_filter_date(" 2024-01-02 ", false), Some(1_704_153_600_000));
    assert_eq!(parse_filter_date("2024-01-02", true), Some(1_704_239_999_000));
    assert_eq!(parse_filter_date("   ", false), None);
    assert_eq!(parse_filter_date("2024-02-30", false), None);
    assert_eq!(parse_filter_date("yesterday", true), None);
}

#[test]
fn calendar_tree_keeps_every_row_under_its_year() {
    let rows = [(2022, 5, 1), (2024, 3, 2), (2022, 7, 4), (2023, 1, 1), (2024, 3, 6)];
    let tree = build_calendar_tree(&rows);
    let years: Vec<i32> = tree.iter().map(|y| y.year).collect();
    assert_eq!(years, vec![2022, 2024, 2023]);
    let grouped: Vec<Vec<(u32, usize)>> = tree
        .iter()
        .map(|y| y.months.iter().map(|m| (m.month, m.count)).collect())
        .collect();
    assert_eq!(grouped, vec![vec![(5, 1), (7, 4)], vec![(3, 2), (3, 6)], vec![(1, 1)]]);
    assert_eq!(tree.iter().map(|y| y.months.len()).sum::<usize>(), rows.len());
    assert!(build_calendar_tree(&[]).is_empty());
}
