//! Sidebar search and filter state for the posts, pages and media lists,
//! and the year/month archive tree.
//!
//! Filtering is local to the sidebar: it changes only which items are
//! listed.

use vstd::prelude::*;

verus! {

/// Calendar year/month archive filter; a month is `1..=12`.
#[derive(Debug, Clone)]
pub struct CalendarFilter {
    pub selected_year: Option<i32>,
    pub selected_month: Option<u32>,
}

impl CalendarFilter {
    /// No year and no month selected.
    pub fn new() -> (res: Self)
        ensures
            res.selected_year is None,
            res.selected_month is None,
    {
        CalendarFilter { selected_year: None, selected_month: None }
    }
}

impl Default for CalendarFilter {
    fn default() -> (res: Self)
        ensures
            res.selected_year is None,
            res.selected_month is None,
    {
        CalendarFilter::new()
    }
}

/// A year in the calendar archive tree, with per-month counts.
#[derive(Debug, Clone)]
pub struct CalendarYear {
    pub year: i32,
    pub months: Vec<CalendarMonth>,
}

/// A month in the calendar archive tree.
#[derive(Debug, Clone, Copy)]
pub struct CalendarMonth {
    pub month: u32,
    pub count: usize,
}

/// Filter state for the posts sidebar (and pages, which is posts with the
/// category filter set to `page`).
#[derive(Debug, Clone)]
pub struct PostFilter {
    pub search_query: String,
    pub filter_panel_visible: bool,
    pub status_filter: Option<String>,
    pub language_filter: Option<String>,
    pub from_date: String,
    pub to_date: String,
    pub calendar: CalendarFilter,
    pub tag_filter: Vec<String>,
    pub category_filter: Vec<String>,
    pub calendar_years: Vec<CalendarYear>,
    pub available_tags: Vec<String>,
    pub available_categories: Vec<String>,
    pub available_languages: Vec<String>,
}

/// Filter state for the media sidebar.
#[derive(Debug, Clone)]
pub struct MediaFilter {
    pub search_query: String,
    pub filter_panel_visible: bool,
    pub calendar: CalendarFilter,
    pub tag_filter: Vec<String>,
    pub calendar_years: Vec<CalendarYear>,
    pub available_tags: Vec<String>,
}

impl PostFilter {
    /// A filter with nothing selected and nothing known.
    pub fn new() -> (res: Self)
        ensures
            res.search_query@.len() == 0,
            !res.filter_panel_visible,
            res.status_filter is None,
            res.language_filter is None,
            res.from_date@.len() == 0,
            res.to_date@.len() == 0,
            res.calendar.selected_year is None,
            res.calendar.selected_month is None,
            res.tag_filter@.len() == 0,
            res.category_filter@.len() == 0,
            res.calendar_years@.len() == 0,
            res.available_tags@.len() == 0,
            res.available_categories@.len() == 0,
            res.available_languages@.len() == 0,
    {
        PostFilter {
            search_query: String::new(),
            filter_panel_visible: false,
            status_filter: None,
            language_filter: None,
            from_date: String::new(),
            to_date: String::new(),
            calendar: CalendarFilter::new(),
            tag_filter: Vec::new(),
            category_filter: Vec::new(),
            calendar_years: Vec::new(),
            available_tags: Vec::new(),
            available_categories: Vec::new(),
            available_languages: Vec::new(),
        }
    }

    /// Whether a filter that "Clear All" resets is active: the search text,
    /// the year, the tags or the categories. The status, language and date
    /// filters are not counted.
    pub open spec fn active_spec(&self) -> bool {
        self.search_query@.len() > 0 || self.calendar.selected_year is Some || self.tag_filter@.len() > 0
            || self.category_filter@.len() > 0
    }

    /// Returns true if any filter is active (for "Clear All" visibility).
    pub fn has_active_filters(&self) -> (res: bool)
        ensures
            res == self.active_spec(),
    {
        self.search_query.unicode_len() > 0 || self.calendar.selected_year.is_some() || self.tag_filter.len() > 0
            || self.category_filter.len() > 0
    }

    /// `self` is `old` with the search text, the calendar selection, the
    /// tags and the categories reset; everything else (the status,
    /// language and date filters, the panel state, the known choices) stays.
    pub open spec fn cleared_from(self, old: Self) -> bool {
        &&& !self.active_spec()
        &&& self.calendar.selected_month is None
        &&& self == (PostFilter {
            search_query: self.search_query,
            calendar: self.calendar,
            tag_filter: self.tag_filter,
            category_filter: self.category_filter,
            ..old
        })
    }

    /// Resets the search text, the calendar selection, the tags and the
    /// categories; every other field stays.
    pub fn clear(&mut self)
        ensures
            final(self).cleared_from(*old(self)),
    {
        self.search_query = String::new();
        self.calendar = CalendarFilter::new();
        self.tag_filter = Vec::new();
        self.category_filter = Vec::new();
    }
}

impl Default for PostFilter {
    fn default() -> (res: Self)
        ensures
            !res.active_spec(),
            !res.filter_panel_visible,
            res.status_filter is None,
            res.language_filter is None,
            res.from_date@.len() == 0,
            res.to_date@.len() == 0,
            res.calendar.selected_month is None,
            res.calendar_years@.len() == 0,
            res.available_tags@.len() == 0,
            res.available_categories@.len() == 0,
            res.available_languages@.len() == 0,
    {
        PostFilter::new()
    }
}

impl MediaFilter {
    /// A filter with nothing selected and nothing known.
    pub fn new() -> (res: Self)
        ensures
            res.search_query@.len() == 0,
            !res.filter_panel_visible,
            res.calendar.selected_year is None,
            res.calendar.selected_month is None,
            res.tag_filter@.len() == 0,
            res.calendar_years@.len() == 0,
            res.available_tags@.len() == 0,
    {
        MediaFilter {
            search_query: String::new(),
            filter_panel_visible: false,
            calendar: CalendarFilter::new(),
            tag_filter: Vec::new(),
            calendar_years: Vec::new(),
            available_tags: Vec::new(),
        }
    }

    /// Whether any filter is active.
    pub open spec fn active_spec(&self) -> bool {
        self.search_query@.len() > 0 || self.calendar.selected_year is Some || self.tag_filter@.len() > 0
    }

    /// Returns true if any filter is active.
    pub fn has_active_filters(&self) -> (res: bool)
        ensures
            res == self.active_spec(),
    {
        self.search_query.unicode_len() > 0 || self.calendar.selected_year.is_some()
            || self.tag_filter.len() > 0
    }

    /// `self` is `old` with every filter reset: the panel state and the
    /// known choices stay.
    pub open spec fn cleared_from(self, old: Self) -> bool {
        &&& !self.active_spec()
        &&& self.calendar.selected_month is None
        &&& self == (MediaFilter {
            search_query: self.search_query,
            calendar: self.calendar,
            tag_filter: self.tag_filter,
            ..old
        })
    }

    /// Resets all filters; the panel state and the known choices stay.
    pub fn clear(&mut self)
        ensures
            final(self).cleared_from(*old(self)),
    {
        self.search_query = String::new();
        self.calendar = CalendarFilter::new();
        self.tag_filter = Vec::new();
    }
}

impl Default for MediaFilter {
    fn default() -> (res: Self)
        ensures
            !res.active_spec(),
            !res.filter_panel_visible,
    {
        MediaFilter::new()
    }
}

// ---------------------------------------------------------------------------
// Archive tree
// ---------------------------------------------------------------------------

/// A year of the archive tree: the year and its `(month, count)` entries.
pub type YearV = (i32, Seq<(u32, usize)>);

/// The view of an archive year.
pub open spec fn year_view(y: CalendarYear) -> YearV {
    (y.year, y.months@.map_values(|m: CalendarMonth| (m.month, m.count)))
}

/// The view of an archive tree.
pub open spec fn tree_view(t: Seq<CalendarYear>) -> Seq<YearV> {
    t.map_values(|y: CalendarYear| year_view(y))
}

/// The first index of year `y` in `t`, searching from `i`.
pub open spec fn year_index(t: Seq<YearV>, y: i32, i: int) -> Option<int>
    decreases t.len() - i,
{
    if i < 0 || i >= t.len() {
        None
    } else if t[i].0 == y {
        Some(i)
    } else {
        year_index(t, y, i + 1)
    }
}

/// `t` with one `(year, month, count)` row added: under the first entry of
/// its year, or as a new year at the end.
pub open spec fn add_row(t: Seq<YearV>, row: (i32, u32, usize)) -> Seq<YearV> {
    match year_index(t, row.0, 0) {
        Some(k) => t.update(k, (t[k].0, t[k].1.push((row.1, row.2)))),
        None => t.push((row.0, seq![(row.1, row.2)])),
    }
}

/// The archive tree of `rows`, built row by row in order.
pub open spec fn calendar_tree_spec(rows: Seq<(i32, u32, usize)>) -> Seq<YearV>
    decreases rows.len(),
{
    if rows.len() == 0 {
        Seq::empty()
    } else {
        add_row(calendar_tree_spec(rows.drop_last()), rows.last())
    }
}

proof fn lemma_year_index(t: Seq<YearV>, y: i32, i: int)
    ensures
        year_index(t, y, i) matches Some(k) ==> i <= k < t.len() && t[k].0 == y,
        year_index(t, y, i) is None ==> forall|j: int| 0 <= i <= j < t.len() ==> t[j].0 != y,
    decreases t.len() - i,
{
    if 0 <= i < t.len() && t[i].0 != y {
        lemma_year_index(t, y, i + 1);
    }
}

/// The index of the first entry for year `y`, or the length when none.
fn find_year(years: &Vec<CalendarYear>, y: i32) -> (k: usize)
    ensures
        k <= years@.len(),
        k < years@.len() ==> year_index(tree_view(years@), y, 0) == Some(k as int),
        k == years@.len() ==> year_index(tree_view(years@), y, 0) is None,
{
    let ghost t = tree_view(years@);
    let mut k: usize = 0;
    while k < years.len()
        invariant
            k <= years@.len(),
            t == tree_view(years@),
            t.len() == years@.len(),
            year_index(t, y, 0) == year_index(t, y, k as int),
        decreases years@.len() - k,
    {
        assert(t[k as int] == year_view(years@[k as int]));
        if years[k].year == y {
            return k;
        }
        k = k + 1;
    }
    k
}

/// Groups `(year, month, count)` rows into the year/month archive tree,
/// keeping the order in which years and months first appear.
pub fn build_calendar_tree(data: &[(i32, u32, usize)]) -> (res: Vec<CalendarYear>)
    ensures
        tree_view(res@) == calendar_tree_spec(data@),
        res@.len() == distinct_years(data@).len(),
        forall|i: int| 0 <= i < res@.len() ==> {
            &&& (#[trigger] res@[i]).year == distinct_years(data@)[i]
            &&& year_view(res@[i]).1 == months_of(data@, res@[i].year)
        },
        tree_months(tree_view(res@)) == data@.len(),
{
    let mut years: Vec<CalendarYear> = Vec::new();
    let mut i: usize = 0;
    while i < data.len()
        invariant
            i <= data@.len(),
            tree_view(years@) == calendar_tree_spec(data@.take(i as int)),
        decreases data@.len() - i,
    {
        let (y, m, c) = data[i];
        let ghost t = tree_view(years@);
        assert(data@.take(i + 1).drop_last() =~= data@.take(i as int));
        let k = find_year(&years, y);
        proof {
            lemma_year_index(t, y, 0);
        }
        if k < years.len() {
            let mut entry = years.remove(k);
            let ghost old_entry = entry;
            entry.months.push(CalendarMonth { month: m, count: c });
            assert(year_view(entry) == (old_entry.year, year_view(old_entry).1.push((m, c)))) by {
                assert(entry.months@.map_values(|mm: CalendarMonth| (mm.month, mm.count)) =~= old_entry.months@.map_values(
                    |mm: CalendarMonth| (mm.month, mm.count),
                ).push((m, c)));
            }
            years.insert(k, entry);
            assert(tree_view(years@) =~= t.update(k as int, (t[k as int].0, t[k as int].1.push((m, c)))));
        } else {
            let mut months: Vec<CalendarMonth> = Vec::new();
            months.push(CalendarMonth { month: m, count: c });
            let entry = CalendarYear { year: y, months };
            assert(year_view(entry) == (y, seq![(m, c)])) by {
                assert(entry.months@.map_values(|mm: CalendarMonth| (mm.month, mm.count)) =~= seq![(m, c)]);
            }
            years.push(entry);
            assert(tree_view(years@) =~= t.push((y, seq![(m, c)])));
        }
        i = i + 1;
    }
    assert(data@.take(data@.len() as int) =~= data@);
    proof {
        law_calendar_groups_rows(data@);
        assert forall|i: int| 0 <= i < years@.len() implies {
            &&& (#[trigger] years@[i]).year == distinct_years(data@)[i]
            &&& year_view(years@[i]).1 == months_of(data@, years@[i].year)
        } by {
            assert(tree_view(years@)[i] == year_view(years@[i]));
        }
    }
    years
}

/// Every year appears once in `t`.
pub open spec fn years_distinct(t: Seq<YearV>) -> bool {
    forall|i: int, j: int| 0 <= i < j < t.len() ==> #[trigger] t[i].0 != #[trigger] t[j].0
}

/// The sum of the counts of a year's months.
pub open spec fn months_total(m: Seq<(u32, usize)>) -> int
    decreases m.len(),
{
    if m.len() == 0 {
        0
    } else {
        months_total(m.drop_last()) + m.last().1
    }
}

/// The sum of the counts in a tree.
pub open spec fn tree_total(t: Seq<YearV>) -> int
    decreases t.len(),
{
    if t.len() == 0 {
        0
    } else {
        tree_total(t.drop_last()) + months_total(t.last().1)
    }
}

/// The sum of the counts of rows.
pub open spec fn rows_total(rows: Seq<(i32, u32, usize)>) -> int
    decreases rows.len(),
{
    if rows.len() == 0 {
        0
    } else {
        rows_total(rows.drop_last()) + rows.last().2
    }
}

proof fn lemma_tree_total_update(t: Seq<YearV>, k: int, v: YearV)
    requires
        0 <= k < t.len(),
    ensures
        tree_total(t.update(k, v)) == tree_total(t) - months_total(t[k].1) + months_total(v.1),
    decreases t.len(),
{
    if k == t.len() - 1 {
        assert(t.update(k, v).drop_last() =~= t.drop_last());
    } else {
        lemma_tree_total_update(t.drop_last(), k, v);
        assert(t.update(k, v).drop_last() =~= t.drop_last().update(k, v));
    }
}

/// Law: the archive tree lists each year once.
pub proof fn law_calendar_years_distinct(rows: Seq<(i32, u32, usize)>)
    ensures
        years_distinct(calendar_tree_spec(rows)),
    decreases rows.len(),
{
    if rows.len() > 0 {
        law_calendar_years_distinct(rows.drop_last());
        let t = calendar_tree_spec(rows.drop_last());
        let row = rows.last();
        lemma_year_index(t, row.0, 0);
        let r = add_row(t, row);
        assert forall|i: int, j: int| 0 <= i < j < r.len() implies #[trigger] r[i].0 != #[trigger] r[j].0 by {
            if year_index(t, row.0, 0) is None && j == t.len() {
                assert(t[i].0 != row.0);
            }
        }
    }
}

/// Law: the archive tree keeps every row's count: the tree's total equals
/// the rows' total.
pub proof fn law_calendar_keeps_counts(rows: Seq<(i32, u32, usize)>)
    ensures
        tree_total(calendar_tree_spec(rows)) == rows_total(rows),
    decreases rows.len(),
{
    if rows.len() > 0 {
        law_calendar_keeps_counts(rows.drop_last());
        let t = calendar_tree_spec(rows.drop_last());
        let row = rows.last();
        lemma_year_index(t, row.0, 0);
        match year_index(t, row.0, 0) {
            Some(k) => {
                lemma_tree_total_update(t, k, (t[k].0, t[k].1.push((row.1, row.2))));
                assert(t[k].1.push((row.1, row.2)).drop_last() =~= t[k].1);
                assert(months_total(t[k].1.push((row.1, row.2))) == months_total(t[k].1) + row.2);
            },
            None => {
                let r = t.push((row.0, seq![(row.1, row.2)]));
                assert(r.drop_last() =~= t);
                let one = seq![(row.1, row.2)];
                assert(one.drop_last() =~= Seq::<(u32, usize)>::empty());
                assert(months_total(Seq::<(u32, usize)>::empty()) == 0);
                assert(one.last() == (row.1, row.2));
                assert(months_total(one) == months_total(one.drop_last()) + one.last().1);
                assert(months_total(one) == row.2);
                assert(tree_total(r) == tree_total(t) + row.2);
            },
        }
    }
}

/// The years of `rows`, each once, in the order of their first row.
pub open spec fn distinct_years(rows: Seq<(i32, u32, usize)>) -> Seq<i32>
    decreases rows.len(),
{
    if rows.len() == 0 {
        Seq::empty()
    } else {
        let d = distinct_years(rows.drop_last());
        if d.contains(rows.last().0) {
            d
        } else {
            d.push(rows.last().0)
        }
    }
}

/// The `(month, count)` pairs of the rows of year `y`, in row order.
pub open spec fn months_of(rows: Seq<(i32, u32, usize)>, y: i32) -> Seq<(u32, usize)>
    decreases rows.len(),
{
    if rows.len() == 0 {
        Seq::empty()
    } else {
        let p = months_of(rows.drop_last(), y);
        if rows.last().0 == y {
            p.push((rows.last().1, rows.last().2))
        } else {
            p
        }
    }
}

/// The number of month entries in a tree.
pub open spec fn tree_months(t: Seq<YearV>) -> int
    decreases t.len(),
{
    if t.len() == 0 {
        0
    } else {
        tree_months(t.drop_last()) + t.last().1.len()
    }
}

proof fn lemma_months_of_absent(rows: Seq<(i32, u32, usize)>, y: i32)
    requires
        !distinct_years(rows).contains(y),
    ensures
        months_of(rows, y) == Seq::<(u32, usize)>::empty(),
    decreases rows.len(),
{
    if rows.len() > 0 {
        let d = distinct_years(rows.drop_last());
        if d.contains(y) {
            if d.contains(rows.last().0) {
                assert(distinct_years(rows) == d);
            } else {
                let w = choose|i: int| 0 <= i < d.len() && d[i] == y;
                assert(distinct_years(rows)[w] == y);
            }
        }
        lemma_months_of_absent(rows.drop_last(), y);
        if rows.last().0 == y {
            if !d.contains(y) {
                assert(distinct_years(rows) == d.push(y));
                assert(distinct_years(rows)[d.len() as int] == y);
            }
        }
    }
}

proof fn lemma_tree_months_update(t: Seq<YearV>, k: int, v: YearV)
    requires
        0 <= k < t.len(),
    ensures
        tree_months(t.update(k, v)) == tree_months(t) - t[k].1.len() + v.1.len(),
    decreases t.len(),
{
    if k == t.len() - 1 {
        assert(t.update(k, v).drop_last() =~= t.drop_last());
    } else {
        lemma_tree_months_update(t.drop_last(), k, v);
        assert(t.update(k, v).drop_last() =~= t.drop_last().update(k, v));
    }
}

/// Law: the archive tree groups the rows by year: its years are the
/// distinct years of the rows in the order of their first row, each
/// year holds the months of its rows in row order, and there are as many
/// month entries as rows.
pub proof fn law_calendar_groups_rows(rows: Seq<(i32, u32, usize)>)
    ensures
        calendar_tree_spec(rows).len() == distinct_years(rows).len(),
        forall|i: int| 0 <= i < calendar_tree_spec(rows).len() ==> {
            &&& (#[trigger] calendar_tree_spec(rows)[i]).0 == distinct_years(rows)[i]
            &&& calendar_tree_spec(rows)[i].1 == months_of(rows, distinct_years(rows)[i])
        },
        tree_months(calendar_tree_spec(rows)) == rows.len(),
    decreases rows.len(),
{
    if rows.len() > 0 {
        let prev = rows.drop_last();
        law_calendar_groups_rows(prev);
        law_calendar_years_distinct(prev);
        let t = calendar_tree_spec(prev);
        let d = distinct_years(prev);
        let row = rows.last();
        let y = row.0;
        lemma_year_index(t, y, 0);
        let r = calendar_tree_spec(rows);
        assert(r == add_row(t, row));
        match year_index(t, y, 0) {
            Some(k) => {
                assert(d[k] == y);
                assert(d.contains(y));
                assert(distinct_years(rows) == d);
                assert(r == t.update(k, (t[k].0, t[k].1.push((row.1, row.2)))));
                assert forall|i: int| 0 <= i < r.len() implies {
                    &&& (#[trigger] r[i]).0 == distinct_years(rows)[i]
                    &&& r[i].1 == months_of(rows, distinct_years(rows)[i])
                } by {
                    if i != k {
                        assert(t[i].0 != t[k].0);
                        assert(months_of(rows, d[i]) == months_of(prev, d[i]));
                    } else {
                        assert(months_of(rows, y) == months_of(prev, y).push((row.1, row.2)));
                    }
                }
                lemma_tree_months_update(t, k, (t[k].0, t[k].1.push((row.1, row.2))));
            },
            None => {
                assert forall|j: int| 0 <= j < d.len() implies d[j] != y by {
                    assert(t[j].0 == d[j]);
                }
                assert(!d.contains(y));
                assert(distinct_years(rows) == d.push(y));
                lemma_months_of_absent(prev, y);
                assert(r == t.push((y, seq![(row.1, row.2)])));
                assert forall|i: int| 0 <= i < r.len() implies {
                    &&& (#[trigger] r[i]).0 == distinct_years(rows)[i]
                    &&& r[i].1 == months_of(rows, distinct_years(rows)[i])
                } by {
                    if i < t.len() {
                        assert(t[i].0 != y);
                        assert(months_of(rows, d[i]) == months_of(prev, d[i]));
                    } else {
                        assert(months_of(rows, y) =~= seq![(row.1, row.2)]);
                    }
                }
                assert(r.drop_last() =~= t);
            },
        }
    }
}

} // verus!
