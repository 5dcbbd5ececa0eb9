//! The pages a menu entry can link to: the posts in the category `page`,
//! ordered by lowercase title, then by slug.

use vstd::prelude::*;
use std::cmp::Ordering;
use crate::sorting::{lemma_lex_irreflexive, lemma_lex_total, lemma_lex_transitive, str_lt};
use crate::text::{eq_ignore_ascii_case, eq_ignore_ascii_case_seq, lex_lt, to_lowercase, unicode_lowercase};
use crate::views::menu_editor::{
    forest_ids_ok, menu_categories, names_view, sorted_by_lowercase, stable_rearrangement, MenuEditorState, MenuEditorStatus, PageOption,
};
use crate::views::menu_tree::{items_view, opt_view, strip_forest, MenuItem};

verus! {

/// A post of the project as the menu editor reads it.
#[derive(Debug, Clone)]
pub struct PageCandidate {
    pub id: String,
    pub title: String,
    pub slug: String,
    pub categories: Vec<String>,
}

/// A post is a page when one of its categories is `page`, up to ASCII case.
pub open spec fn is_page_post(categories: Seq<String>) -> bool {
    exists|i: int| 0 <= i < categories.len() && eq_ignore_ascii_case_seq(#[trigger] categories[i]@, "page"@)
}

/// The page option of a post.
pub open spec fn option_of(post: PageCandidate) -> PageOption {
    PageOption { id: post.id, title: post.title, slug: post.slug }
}

/// The options of the posts that are pages, in the posts' order.
pub open spec fn page_posts(posts: Seq<PageCandidate>) -> Seq<PageOption>
    decreases posts.len(),
{
    if posts.len() == 0 {
        Seq::empty()
    } else {
        let rest = page_posts(posts.drop_last());
        if is_page_post(posts.last().categories@) {
            rest.push(option_of(posts.last()))
        } else {
            rest
        }
    }
}

/// `a` orders before `b`: by lowercase title, then by slug.
pub open spec fn page_key_lt(a: PageOption, b: PageOption) -> bool {
    ||| lex_lt(unicode_lowercase(a.title@), unicode_lowercase(b.title@))
    ||| (unicode_lowercase(a.title@) == unicode_lowercase(b.title@) && lex_lt(a.slug@, b.slug@))
}

/// `a` and `b` have the same lowercase title and the same slug.
pub open spec fn same_page_key(a: PageOption, b: PageOption) -> bool {
    unicode_lowercase(a.title@) == unicode_lowercase(b.title@) && a.slug@ == b.slug@
}

/// `new` is `old` sorted by page key, pages with the same key keeping
/// their order: `new[i]` is `old[p[i]]` for the positions `p`.
pub open spec fn stable_page_sort(old: Seq<PageOption>, new: Seq<PageOption>, p: Seq<int>) -> bool {
    &&& p.len() == old.len()
    &&& new.len() == old.len()
    &&& forall|i: int| 0 <= i < p.len() ==> 0 <= #[trigger] p[i] < old.len()
    &&& forall|i: int, j: int| 0 <= i < j < p.len() ==> #[trigger] p[i] != #[trigger] p[j]
    &&& forall|i: int| 0 <= i < new.len() ==> #[trigger] new[i] == old[p[i]]
    &&& forall|i: int, j: int| 0 <= i < j < new.len() ==> !page_key_lt(#[trigger] new[j], #[trigger] new[i])
    &&& forall|i: int, j: int|
        0 <= i < j < new.len() && same_page_key(#[trigger] new[i], #[trigger] new[j]) ==> p[i] < p[j]
}

/// Compares two pages by lowercase title, then by slug.
pub fn compare_pages(a: &PageOption, b: &PageOption) -> (res: Ordering)
    ensures
        (res == Ordering::Less) == page_key_lt(*a, *b),
        (res == Ordering::Greater) == page_key_lt(*b, *a),
        (res == Ordering::Equal) == same_page_key(*a, *b),
{
    let lower_a = to_lowercase(a.title.as_str());
    let lower_b = to_lowercase(b.title.as_str());
    let ghost la = lower_a@;
    let ghost lb = lower_b@;
    proof {
        lemma_lex_irreflexive(la);
        lemma_lex_irreflexive(a.slug@);
        if lex_lt(la, lb) && lex_lt(lb, la) {
            lemma_lex_transitive(la, lb, la);
        }
        if lex_lt(a.slug@, b.slug@) && lex_lt(b.slug@, a.slug@) {
            lemma_lex_transitive(a.slug@, b.slug@, a.slug@);
        }
        if la != lb {
            lemma_lex_total(la, lb);
        }
        if a.slug@ != b.slug@ {
            lemma_lex_total(a.slug@, b.slug@);
        }
    }
    if str_lt(lower_a.as_str(), lower_b.as_str()) {
        Ordering::Less
    } else if str_lt(lower_b.as_str(), lower_a.as_str()) {
        Ordering::Greater
    } else if str_lt(a.slug.as_str(), b.slug.as_str()) {
        Ordering::Less
    } else if str_lt(b.slug.as_str(), a.slug.as_str()) {
        Ordering::Greater
    } else {
        Ordering::Equal
    }
}

/// `slice::sort_by` with `compare_pages`: a stable sort, so it orders the
/// pages by lowercase title and slug, and pages with the same title and
/// slug keep their order. `compare_pages` is a total order, so the sort
/// does not panic.
#[verifier::external_body]
fn sort_pages(pages: &mut Vec<PageOption>)
    ensures
        exists|p: Seq<int>| stable_page_sort(old(pages)@, final(pages)@, p),
{
    pages.sort_by(compare_pages);
}

/// Whether one of `categories` is `page`, up to ASCII case.
fn has_page_category(categories: &Vec<String>) -> (res: bool)
    ensures
        res == is_page_post(categories@),
{
    let mut i: usize = 0;
    while i < categories.len()
        invariant
            i <= categories@.len(),
            forall|k: int| 0 <= k < i ==> !eq_ignore_ascii_case_seq(#[trigger] categories@[k]@, "page"@),
        decreases categories@.len() - i,
    {
        if eq_ignore_ascii_case(categories[i].as_str(), "page") {
            return true;
        }
        i = i + 1;
    }
    false
}

/// The pages a menu entry can link to: the posts with the category `page`
/// (up to ASCII case), ordered by lowercase title, then by slug, pages
/// with the same title and slug in the posts' order.
pub fn menu_pages(posts: &[PageCandidate]) -> (res: Vec<PageOption>)
    ensures
        exists|p: Seq<int>| stable_page_sort(page_posts(posts@), res@, p),
{
    let mut pages: Vec<PageOption> = Vec::new();
    let mut i: usize = 0;
    while i < posts.len()
        invariant
            i <= posts@.len(),
            pages@ == page_posts(posts@.take(i as int)),
        decreases posts@.len() - i,
    {
        assert(posts@.take(i + 1).drop_last() =~= posts@.take(i as int));
        let post = &posts[i];
        if has_page_category(&post.categories) {
            let option = PageOption {
                id: post.id.clone(),
                title: post.title.clone(),
                slug: post.slug.clone(),
            };
            pages.push(option);
        }
        i = i + 1;
    }
    assert(posts@.take(posts@.len() as int) =~= posts@);
    sort_pages(&mut pages);
    pages
}

impl MenuEditorState {
    /// The editor for a project whose menu, posts and categories were read:
    /// the menu's entries with their ids, the page options and the
    /// categories in the order the editor offers them.
    pub fn from_loaded(
        project_id: String,
        items: Vec<MenuItem>,
        posts: &[PageCandidate],
        categories: Vec<String>,
    ) -> (s: Self)
        ensures
            opt_view(s.project_id) == Some(project_id@),
            strip_forest(s.tree()) == items_view(items@),
            forest_ids_ok(s.tree()),
            opt_view(s.selected_id) == s.first_id(),
            s.draft is None,
            !s.dirty,
            s.status == MenuEditorStatus::Ready,
            s.error is None,
            s.collapsed@.len() == 0,
            s.dragging_id is None,
            s.drop_target is None,
            s.hover_expand is None,
            exists|p: Seq<int>| stable_page_sort(page_posts(posts@), s.pages@, p),
            names_view(s.categories@).to_multiset() == names_view(categories@).to_multiset(),
            sorted_by_lowercase(s.categories@),
            exists|p: Seq<int>| stable_rearrangement(categories@, s.categories@, p),
    {
        let pages = menu_pages(posts);
        let sorted = menu_categories(categories);
        MenuEditorState::from_persisted(project_id, items, pages, sorted)
    }
}

} // verus!
