//! The sidebar's search and filter requests and the pages of results that
//! arrive for them: each event changes the filters or the listed items and
//! says what to do next (refresh a list, load more, or ask for the search
//! index to be repaired).

use vstd::prelude::*;
use crate::state::navigation::SidebarView;
use crate::state::sidebar_filter::{CalendarFilter, MediaFilter, PostFilter};
use crate::text::{eq_ignore_ascii_case, eq_ignore_ascii_case_seq, str_eq, strs_view, trim, trim_seq};

verus! {

/// Most items shown per page of a sidebar list.
pub const SIDEBAR_PAGE_SIZE: usize = 500;

/// A sidebar request, or a page of items arriving for the posts (`P`) or
/// media (`M`) list.
#[derive(Debug, Clone)]
pub enum SidebarEvent<P, M> {
    PostSearchChanged(String),
    TogglePostFilterPanel,
    SetPostStatusFilter(Option<String>),
    SetPostLanguageFilter(Option<String>),
    SetPostCalendarYear(Option<i32>),
    SetPostCalendarMonth(Option<u32>),
    SetPostFromDate(String),
    SetPostToDate(String),
    TogglePostTagFilter(String),
    TogglePostCategoryFilter(String),
    ClearPostFilters,
    MediaSearchChanged(String),
    ToggleMediaFilterPanel,
    SetMediaCalendarYear(Option<i32>),
    SetMediaCalendarMonth(Option<u32>),
    ToggleMediaTagFilter(String),
    ClearMediaFilters,
    SidebarPostsLoaded(Vec<P>),
    SidebarMediaLoaded(Vec<M>),
    SidebarPostsAppended(Vec<P>),
    SidebarMediaAppended(Vec<M>),
    LoadMorePosts,
    LoadMoreMedia,
}

/// What the application does after an event.
#[derive(Debug, Clone, Copy, PartialEq, Eq, Structural)]
pub enum SidebarAction {
    Nothing,
    ShowSearchIndexRepair,
    RefreshPosts,
    RefreshMedia,
    LoadMorePosts,
    LoadMoreMedia,
}

/// The sidebar lists and their filters. The pages view uses its own post
/// filter.
#[derive(Debug, Clone)]
pub struct SidebarSearchState<P, M> {
    pub sidebar_view: SidebarView,
    pub search_index_rebuild_required: bool,
    pub post_filter: PostFilter,
    pub page_filter: PostFilter,
    pub media_filter: MediaFilter,
    pub sidebar_posts: Vec<P>,
    pub sidebar_posts_has_more: bool,
    pub sidebar_media: Vec<M>,
    pub sidebar_media_has_more: bool,
}

/// The first position of `tag` among `tags`.
pub open spec fn first_position(tags: Seq<Seq<char>>, tag: Seq<char>) -> Option<int>
    decreases tags.len(),
{
    if tags.len() == 0 {
        None
    } else if tags[0] == tag {
        Some(0)
    } else {
        match first_position(tags.drop_first(), tag) {
            Some(i) => Some(i + 1),
            None => None,
        }
    }
}

/// `tags` with `tag` toggled: its first occurrence removed, or `tag` added
/// at the end.
pub open spec fn toggled(tags: Seq<String>, tag: String) -> Seq<String> {
    match first_position(strs_view(tags), tag@) {
        Some(i) => tags.remove(i),
        None => tags.push(tag),
    }
}

/// At most the first page of `items`.
pub open spec fn first_page<T>(items: Seq<T>) -> Seq<T> {
    if items.len() > SIDEBAR_PAGE_SIZE { items.take(SIDEBAR_PAGE_SIZE as int) } else { items }
}

impl<P, M> SidebarSearchState<P, M> {
    /// The post filter of the current view.
    pub open spec fn active_post_filter(self) -> PostFilter {
        if self.sidebar_view == SidebarView::Pages { self.page_filter } else { self.post_filter }
    }

    /// `new` is `self` with the current view's post filter replaced by `f`.
    pub open spec fn with_post_filter(self, new: Self, f: PostFilter) -> bool {
        if self.sidebar_view == SidebarView::Pages {
            new == (SidebarSearchState { page_filter: f, ..self })
        } else {
            new == (SidebarSearchState { post_filter: f, ..self })
        }
    }

    /// `new` is `self` with the media filter replaced by `f`.
    pub open spec fn with_media_filter(self, new: Self, f: MediaFilter) -> bool {
        new == (SidebarSearchState { media_filter: f, ..self })
    }

    /// How an event takes the sidebar from `self` to `new`, and the action
    /// that follows. A search is refused while the search index needs a
    /// rebuild; a page of items replaces or extends its list, keeping at
    /// most `SIDEBAR_PAGE_SIZE` of the page and noting whether it had more.
    pub open spec fn step(self, event: SidebarEvent<P, M>, new: Self, action: SidebarAction) -> bool {
        let f = self.active_post_filter();
        let m = self.media_filter;
        match event {
            SidebarEvent::PostSearchChanged(q) => if self.search_index_rebuild_required && q@.len() > 0 {
                new == self && action == SidebarAction::ShowSearchIndexRepair
            } else {
                self.with_post_filter(new, PostFilter { search_query: q, ..f }) && action == SidebarAction::RefreshPosts
            },
            SidebarEvent::TogglePostFilterPanel => self.with_post_filter(
                new,
                PostFilter { filter_panel_visible: !f.filter_panel_visible, ..f },
            ) && action == SidebarAction::Nothing,
            SidebarEvent::SetPostStatusFilter(v) => self.with_post_filter(new, PostFilter { status_filter: v, ..f })
                && action == SidebarAction::RefreshPosts,
            SidebarEvent::SetPostLanguageFilter(v) => self.with_post_filter(new, PostFilter { language_filter: v, ..f })
                && action == SidebarAction::RefreshPosts,
            SidebarEvent::SetPostCalendarYear(y) => self.with_post_filter(
                new,
                PostFilter { calendar: CalendarFilter { selected_year: y, selected_month: None }, ..f },
            ) && action == SidebarAction::RefreshPosts,
            SidebarEvent::SetPostCalendarMonth(mo) => self.with_post_filter(
                new,
                PostFilter { calendar: CalendarFilter { selected_month: mo, ..f.calendar }, ..f },
            ) && action == SidebarAction::RefreshPosts,
            SidebarEvent::SetPostFromDate(v) => self.with_post_filter(new, PostFilter { from_date: v, ..f })
                && action == SidebarAction::RefreshPosts,
            SidebarEvent::SetPostToDate(v) => self.with_post_filter(new, PostFilter { to_date: v, ..f })
                && action == SidebarAction::RefreshPosts,
            SidebarEvent::TogglePostTagFilter(tag) => {
                let g = new.active_post_filter();
                &&& self.with_post_filter(new, PostFilter { tag_filter: g.tag_filter, ..f })
                &&& g.tag_filter@ == toggled(f.tag_filter@, tag)
                &&& action == SidebarAction::RefreshPosts
            },
            SidebarEvent::TogglePostCategoryFilter(c) => {
                let g = new.active_post_filter();
                &&& self.with_post_filter(new, PostFilter { category_filter: g.category_filter, ..f })
                &&& g.category_filter@ == toggled(f.category_filter@, c)
                &&& action == SidebarAction::RefreshPosts
            },
            SidebarEvent::ClearPostFilters => {
                let g = new.active_post_filter();
                &&& self.with_post_filter(new, g)
                &&& g.cleared_from(f)
                &&& action == SidebarAction::RefreshPosts
            },
            SidebarEvent::MediaSearchChanged(q) => if self.search_index_rebuild_required && q@.len() > 0 {
                new == self && action == SidebarAction::ShowSearchIndexRepair
            } else {
                self.with_media_filter(new, MediaFilter { search_query: q, ..m }) && action == SidebarAction::RefreshMedia
            },
            SidebarEvent::ToggleMediaFilterPanel => self.with_media_filter(
                new,
                MediaFilter { filter_panel_visible: !m.filter_panel_visible, ..m },
            ) && action == SidebarAction::Nothing,
            SidebarEvent::SetMediaCalendarYear(y) => self.with_media_filter(
                new,
                MediaFilter { calendar: CalendarFilter { selected_year: y, selected_month: None }, ..m },
            ) && action == SidebarAction::RefreshMedia,
            SidebarEvent::SetMediaCalendarMonth(mo) => self.with_media_filter(
                new,
                MediaFilter { calendar: CalendarFilter { selected_month: mo, ..m.calendar }, ..m },
            ) && action == SidebarAction::RefreshMedia,
            SidebarEvent::ToggleMediaTagFilter(tag) => {
                &&& self.with_media_filter(new, MediaFilter { tag_filter: new.media_filter.tag_filter, ..m })
                &&& new.media_filter.tag_filter@ == toggled(m.tag_filter@, tag)
                &&& action == SidebarAction::RefreshMedia
            },
            SidebarEvent::ClearMediaFilters => {
                &&& self.with_media_filter(new, new.media_filter)
                &&& new.media_filter.cleared_from(m)
                &&& action == SidebarAction::RefreshMedia
            },
            SidebarEvent::SidebarPostsLoaded(items) => {
                &&& new == (SidebarSearchState {
                    sidebar_posts: new.sidebar_posts,
                    sidebar_posts_has_more: items@.len() > SIDEBAR_PAGE_SIZE,
                    ..self
                })
                &&& new.sidebar_posts@ == first_page(items@)
                &&& action == SidebarAction::Nothing
            },
            SidebarEvent::SidebarMediaLoaded(items) => {
                &&& new == (SidebarSearchState {
                    sidebar_media: new.sidebar_media,
                    sidebar_media_has_more: items@.len() > SIDEBAR_PAGE_SIZE,
                    ..self
                })
                &&& new.sidebar_media@ == first_page(items@)
                &&& action == SidebarAction::Nothing
            },
            SidebarEvent::SidebarPostsAppended(items) => {
                &&& new == (SidebarSearchState {
                    sidebar_posts: new.sidebar_posts,
                    sidebar_posts_has_more: items@.len() > SIDEBAR_PAGE_SIZE,
                    ..self
                })
                &&& new.sidebar_posts@ == self.sidebar_posts@ + first_page(items@)
                &&& action == SidebarAction::Nothing
            },
            SidebarEvent::SidebarMediaAppended(items) => {
                &&& new == (SidebarSearchState {
                    sidebar_media: new.sidebar_media,
                    sidebar_media_has_more: items@.len() > SIDEBAR_PAGE_SIZE,
                    ..self
                })
                &&& new.sidebar_media@ == self.sidebar_media@ + first_page(items@)
                &&& action == SidebarAction::Nothing
            },
            SidebarEvent::LoadMorePosts => new == self && action == SidebarAction::LoadMorePosts,
            SidebarEvent::LoadMoreMedia => new == self && action == SidebarAction::LoadMoreMedia,
        }
    }
}

/// The first position of `tag` among `tags`.
fn find_tag(tags: &Vec<String>, tag: &str) -> (res: Option<usize>)
    ensures
        match res {
            Some(i) => first_position(strs_view(tags@), tag@) == Some(i as int) && i < tags@.len(),
            None => first_position(strs_view(tags@), tag@) is None,
        },
{
    let ghost t = strs_view(tags@);
    assert(t.skip(0) =~= t);
    let mut i: usize = 0;
    while i < tags.len()
        invariant
            i <= tags@.len(),
            t == strs_view(tags@),
            first_position(t, tag@) == match first_position(t.skip(i as int), tag@) {
                Some(k) => Some(k + i),
                None => None,
            },
        decreases tags@.len() - i,
    {
        let ghost rest = t.skip(i as int);
        assert(rest[0] == tags@[i as int]@);
        assert(rest.drop_first() =~= t.skip(i + 1));
        if str_eq(tags[i].as_str(), tag) {
            return Some(i);
        }
        i = i + 1;
    }
    assert(t.skip(i as int).len() == 0);
    None
}

/// Toggles `tag` in `tags`: removes its first occurrence, or adds it.
fn toggle_tag(tags: &mut Vec<String>, tag: String)
    ensures
        final(tags)@ == toggled(old(tags)@, tag),
{
    match find_tag(tags, tag.as_str()) {
        Some(i) => {
            tags.remove(i);
        },
        None => {
            tags.push(tag);
        },
    }
}

/// Keeps at most the first page of `items`, and says whether it had more.
fn keep_first_page<T>(items: &mut Vec<T>) -> (more: bool)
    ensures
        more == (old(items)@.len() > SIDEBAR_PAGE_SIZE),
        final(items)@ == first_page(old(items)@),
{
    let more = items.len() > SIDEBAR_PAGE_SIZE;
    items.truncate(SIDEBAR_PAGE_SIZE);
    more
}

impl<P, M> SidebarSearchState<P, M> {
    /// Handles one sidebar event and returns what to do next.
    pub fn handle(&mut self, event: SidebarEvent<P, M>) -> (action: SidebarAction)
        ensures
            old(self).step(event, *final(self), action),
    {
        let pages = self.sidebar_view == SidebarView::Pages;
        match event {
            SidebarEvent::PostSearchChanged(q) => {
                if self.search_index_rebuild_required && q.unicode_len() > 0 {
                    return SidebarAction::ShowSearchIndexRepair;
                }
                if pages {
                    self.page_filter.search_query = q;
                } else {
                    self.post_filter.search_query = q;
                }
                SidebarAction::RefreshPosts
            },
            SidebarEvent::TogglePostFilterPanel => {
                if pages {
                    self.page_filter.filter_panel_visible = !self.page_filter.filter_panel_visible;
                } else {
                    self.post_filter.filter_panel_visible = !self.post_filter.filter_panel_visible;
                }
                SidebarAction::Nothing
            },
            SidebarEvent::SetPostStatusFilter(v) => {
                if pages {
                    self.page_filter.status_filter = v;
                } else {
                    self.post_filter.status_filter = v;
                }
                SidebarAction::RefreshPosts
            },
            SidebarEvent::SetPostLanguageFilter(v) => {
                if pages {
                    self.page_filter.language_filter = v;
                } else {
                    self.post_filter.language_filter = v;
                }
                SidebarAction::RefreshPosts
            },
            SidebarEvent::SetPostCalendarYear(y) => {
                if pages {
                    self.page_filter.calendar.selected_year = y;
                    self.page_filter.calendar.selected_month = None;
                } else {
                    self.post_filter.calendar.selected_year = y;
                    self.post_filter.calendar.selected_month = None;
                }
                SidebarAction::RefreshPosts
            },
            SidebarEvent::SetPostCalendarMonth(mo) => {
                if pages {
                    self.page_filter.calendar.selected_month = mo;
                } else {
                    self.post_filter.calendar.selected_month = mo;
                }
                SidebarAction::RefreshPosts
            },
            SidebarEvent::SetPostFromDate(v) => {
                if pages {
                    self.page_filter.from_date = v;
                } else {
                    self.post_filter.from_date = v;
                }
                SidebarAction::RefreshPosts
            },
            SidebarEvent::SetPostToDate(v) => {
                if pages {
                    self.page_filter.to_date = v;
                } else {
                    self.post_filter.to_date = v;
                }
                SidebarAction::RefreshPosts
            },
            SidebarEvent::TogglePostTagFilter(tag) => {
                if pages {
                    toggle_tag(&mut self.page_filter.tag_filter, tag);
                } else {
                    toggle_tag(&mut self.post_filter.tag_filter, tag);
                }
                SidebarAction::RefreshPosts
            },
            SidebarEvent::TogglePostCategoryFilter(c) => {
                if pages {
                    toggle_tag(&mut self.page_filter.category_filter, c);
                } else {
                    toggle_tag(&mut self.post_filter.category_filter, c);
                }
                SidebarAction::RefreshPosts
            },
            SidebarEvent::ClearPostFilters => {
                if pages {
                    self.page_filter.clear();
                } else {
                    self.post_filter.clear();
                }
                SidebarAction::RefreshPosts
            },
            SidebarEvent::MediaSearchChanged(q) => {
                if self.search_index_rebuild_required && q.unicode_len() > 0 {
                    return SidebarAction::ShowSearchIndexRepair;
                }
                self.media_filter.search_query = q;
                SidebarAction::RefreshMedia
            },
            SidebarEvent::ToggleMediaFilterPanel => {
                self.media_filter.filter_panel_visible = !self.media_filter.filter_panel_visible;
                SidebarAction::Nothing
            },
            SidebarEvent::SetMediaCalendarYear(y) => {
                self.media_filter.calendar.selected_year = y;
                self.media_filter.calendar.selected_month = None;
                SidebarAction::RefreshMedia
            },
            SidebarEvent::SetMediaCalendarMonth(mo) => {
                self.media_filter.calendar.selected_month = mo;
                SidebarAction::RefreshMedia
            },
            SidebarEvent::ToggleMediaTagFilter(tag) => {
                toggle_tag(&mut self.media_filter.tag_filter, tag);
                SidebarAction::RefreshMedia
            },
            SidebarEvent::ClearMediaFilters => {
                self.media_filter.clear();
                SidebarAction::RefreshMedia
            },
            SidebarEvent::SidebarPostsLoaded(items) => {
                let mut items = items;
                self.sidebar_posts_has_more = keep_first_page(&mut items);
                self.sidebar_posts = items;
                SidebarAction::Nothing
            },
            SidebarEvent::SidebarMediaLoaded(items) => {
                let mut items = items;
                self.sidebar_media_has_more = keep_first_page(&mut items);
                self.sidebar_media = items;
                SidebarAction::Nothing
            },
            SidebarEvent::SidebarPostsAppended(items) => {
                let mut items = items;
                self.sidebar_posts_has_more = keep_first_page(&mut items);
                self.sidebar_posts.append(&mut items);
                SidebarAction::Nothing
            },
            SidebarEvent::SidebarMediaAppended(items) => {
                let mut items = items;
                self.sidebar_media_has_more = keep_first_page(&mut items);
                self.sidebar_media.append(&mut items);
                SidebarAction::Nothing
            },
            SidebarEvent::LoadMorePosts => SidebarAction::LoadMorePosts,
            SidebarEvent::LoadMoreMedia => SidebarAction::LoadMoreMedia,
        }
    }
}

/// Whether one of the categories is `page`, up to ASCII case.
pub open spec fn is_page_spec(categories: Seq<String>) -> bool {
    exists|i: int| 0 <= i < categories.len() && eq_ignore_ascii_case_seq(#[trigger] categories[i]@, "page"@)
}

/// Whether a post is a page: one of its categories is `page`, up to ASCII
/// case.
pub fn is_page_post(categories: &[String]) -> (res: bool)
    ensures
        res == is_page_spec(categories@),
{
    let mut i: usize = 0;
    while i < categories.len()
        invariant
            i <= categories@.len(),
            forall|k: int| 0 <= k < i ==> !eq_ignore_ascii_case_seq(#[trigger] categories@[k]@, "page"@),
        decreases categories@.len() - i,
    {
        if eq_ignore_ascii_case(categories[i].as_str(), "page") {
            return true;
        }
        i = i + 1;
    }
    false
}

/// Whether a post found by a search is listed: it belongs to the project,
/// and it is a page exactly when the pages view is shown.
pub fn post_listed(project_id: &str, post_project_id: &str, categories: &[String], is_pages: bool) -> (res: bool)
    ensures
        res == (post_project_id@ == project_id@ && is_page_spec(categories@) == is_pages),
{
    str_eq(post_project_id, project_id) && is_page_post(categories) == is_pages
}

/// The Unix time in milliseconds (UTC) of the day that
/// `chrono::NaiveDate::parse_from_str` reads from `text` with format `fmt`,
/// at `hour:min:sec`; none when the text is no such date or the time does
/// not exist.
pub uninterp spec fn chrono_day_millis(text: Seq<char>, fmt: Seq<char>, hour: u32, min: u32, sec: u32) -> Option<i64>;

/// `chrono::NaiveDate::parse_from_str`, then `NaiveDate::and_hms_opt`,
/// `NaiveDateTime::and_utc` and `DateTime::timestamp_millis`. The result
/// is named by `chrono_day_millis`.
#[verifier::external_body]
fn day_millis(text: &str, fmt: &str, hour: u32, min: u32, sec: u32) -> (res: Option<i64>)
    ensures
        res == chrono_day_millis(text@, fmt@, hour, min, sec),
{
    match chrono::NaiveDate::parse_from_str(text, fmt) {
        Ok(date) => match date.and_hms_opt(hour, min, sec) {
            Some(time) => Some(time.and_utc().timestamp_millis()),
            None => None,
        },
        Err(_) => None,
    }
}

/// The format of the date filter fields.
pub const FILTER_DATE_FORMAT: &'static str = "%Y-%m-%d";

/// The bound a date filter field gives: none when blank; else the start of
/// the day (or its last second, for the end of a range) read from the
/// trimmed text.
pub open spec fn filter_date_spec(input: Seq<char>, end_of_day: bool) -> Option<i64> {
    let t = trim_seq(input);
    if t.len() == 0 {
        None
    } else if end_of_day {
        chrono_day_millis(t, FILTER_DATE_FORMAT@, 23, 59, 59)
    } else {
        chrono_day_millis(t, FILTER_DATE_FORMAT@, 0, 0, 0)
    }
}

/// The bound, in Unix milliseconds, that a date filter field gives.
pub fn parse_filter_date(input: &str, end_of_day: bool) -> (res: Option<i64>)
    ensures
        res == filter_date_spec(input@, end_of_day),
{
    let trimmed = trim(input);
    if trimmed.unicode_len() == 0 {
        return None;
    }
    if end_of_day {
        day_millis(trimmed.as_str(), FILTER_DATE_FORMAT, 23, 59, 59)
    } else {
        day_millis(trimmed.as_str(), FILTER_DATE_FORMAT, 0, 0, 0)
    }
}

/// Law: toggling the same tag twice gives back the filter, when the tag
/// was not selected.
pub proof fn law_toggle_twice(tags: Seq<String>, tag: String)
    requires
        first_position(strs_view(tags), tag@) is None,
    ensures
        toggled(toggled(tags, tag), tag) == tags,
{
    let once = tags.push(tag);
    lemma_first_position_push(strs_view(tags), tag@);
    assert(strs_view(once) =~= strs_view(tags).push(tag@));
    assert(once.remove(tags.len() as int) =~= tags);
}

/// Appending a string that does not occur puts its first position at the end.
proof fn lemma_first_position_push(t: Seq<Seq<char>>, x: Seq<char>)
    requires
        first_position(t, x) is None,
    ensures
        first_position(t.push(x), x) == Some(t.len() as int),
    decreases t.len(),
{
    if t.len() > 0 {
        assert(t.push(x).drop_first() =~= t.drop_first().push(x));
        lemma_first_position_push(t.drop_first(), x);
    }
}

/// Law: a page of media appended to the list keeps the list shown so far
/// as its beginning and adds the page's items after it, in order, up to
/// the page size; nothing else of the sidebar changes but whether more
/// items remain.
pub proof fn law_media_appended<P, M>(
    s: SidebarSearchState<P, M>,
    items: Vec<M>,
    new: SidebarSearchState<P, M>,
    action: SidebarAction,
)
    requires
        s.step(SidebarEvent::SidebarMediaAppended(items), new, action),
    ensures
        new.sidebar_media@.len() == s.sidebar_media@.len() + (if items@.len() > SIDEBAR_PAGE_SIZE {
            SIDEBAR_PAGE_SIZE as int
        } else {
            items@.len() as int
        }),
        forall|i: int| 0 <= i < s.sidebar_media@.len() ==> #[trigger] new.sidebar_media@[i] == s.sidebar_media@[i],
        forall|j: int| 0 <= j < new.sidebar_media@.len() - s.sidebar_media@.len()
            ==> #[trigger] new.sidebar_media@[s.sidebar_media@.len() + j] == items@[j],
        new.sidebar_media_has_more == (items@.len() > SIDEBAR_PAGE_SIZE),
        new.sidebar_posts == s.sidebar_posts,
        new.media_filter == s.media_filter,
        action == SidebarAction::Nothing,
{
}

/// Law: a page of posts appended to the list keeps the list shown so far
/// as its beginning and adds the page's items after it, in order, up to
/// the page size; nothing else of the sidebar changes but whether more
/// items remain.
pub proof fn law_posts_appended<P, M>(
    s: SidebarSearchState<P, M>,
    items: Vec<P>,
    new: SidebarSearchState<P, M>,
    action: SidebarAction,
)
    requires
        s.step(SidebarEvent::SidebarPostsAppended(items), new, action),
    ensures
        new.sidebar_posts@.len() == s.sidebar_posts@.len() + (if items@.len() > SIDEBAR_PAGE_SIZE {
            SIDEBAR_PAGE_SIZE as int
        } else {
            items@.len() as int
        }),
        forall|i: int| 0 <= i < s.sidebar_posts@.len() ==> #[trigger] new.sidebar_posts@[i] == s.sidebar_posts@[i],
        forall|j: int| 0 <= j < new.sidebar_posts@.len() - s.sidebar_posts@.len()
            ==> #[trigger] new.sidebar_posts@[s.sidebar_posts@.len() + j] == items@[j],
        new.sidebar_posts_has_more == (items@.len() > SIDEBAR_PAGE_SIZE),
        new.sidebar_media == s.sidebar_media,
        new.post_filter == s.post_filter,
        new.page_filter == s.page_filter,
        action == SidebarAction::Nothing,
{
}

/// Law: a loaded page replaces the list with the page's items, in order, up
/// to the page size.
pub proof fn law_loaded_replaces<P, M>(
    s: SidebarSearchState<P, M>,
    posts: Vec<P>,
    media: Vec<M>,
    new_posts: SidebarSearchState<P, M>,
    new_media: SidebarSearchState<P, M>,
    a: SidebarAction,
    b: SidebarAction,
)
    requires
        s.step(SidebarEvent::SidebarPostsLoaded(posts), new_posts, a),
        s.step(SidebarEvent::SidebarMediaLoaded(media), new_media, b),
    ensures
        new_posts.sidebar_posts@.len() == (if posts@.len() > SIDEBAR_PAGE_SIZE {
            SIDEBAR_PAGE_SIZE as int
        } else {
            posts@.len() as int
        }),
        forall|j: int| 0 <= j < new_posts.sidebar_posts@.len() ==> #[trigger] new_posts.sidebar_posts@[j] == posts@[j],
        new_media.sidebar_media@.len() == (if media@.len() > SIDEBAR_PAGE_SIZE {
            SIDEBAR_PAGE_SIZE as int
        } else {
            media@.len() as int
        }),
        forall|j: int| 0 <= j < new_media.sidebar_media@.len() ==> #[trigger] new_media.sidebar_media@[j] == media@[j],
{
}

} // verus!
