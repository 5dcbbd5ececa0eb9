//! The menu editor: a draft-and-commit editor over the menu tree.
//!
//! Entries can be added as drafts, finalised as pages, submenus or category
//! archives, moved among their siblings, indented into the submenu above,
//! unindented out of their submenu, deleted, and dragged onto other entries.
//! The home entry always stays in place.

use vstd::prelude::*;
use crate::text::{
    chars_contains, contains_seq, eq_ignore_ascii_case, eq_ignore_ascii_case_seq, lex_lt, copy_str, str_eq, to_chars, to_lowercase, trim, trim_seq,
    unicode_lowercase,
};
use crate::views::menu_tree::{
    MenuItem, MenuNode, MenuNodeV, MenuItemKind, append_spec, items_view, strip_forest, strip_ids, children_at, children_len, find_path,
    find_spec, forest_view, insert_at, insert_spec, item_at, lemma_find_sound, lemma_forest_view,
    lemma_node_before_removed, lemma_path_parent, node_at, opt_view, parent_of, path_starts_with,
    relabel_at, relabel_spec, remove_at, remove_spec, replace_children, swap_adjacent, swap_seq,
};

verus! {

/// The id of the home entry, which cannot be moved or deleted.
pub const HOME_ID: &'static str = "menu-home";

/// How long, in milliseconds, a dragged entry must hover over a collapsed
/// submenu before it expands.
pub const DRAG_EXPAND_DELAY_MS: u64 = 450;

/// What a new draft entry will become.
#[derive(Debug, Clone, Copy, PartialEq, Eq, Structural)]
pub enum DraftKind {
    Page,
    Category,
}

/// Direction of a move among siblings.
#[derive(Debug, Clone, Copy, PartialEq, Eq, Structural)]
pub enum MoveDirection {
    Up,
    Down,
}

/// Where a dragged entry lands relative to the target entry.
#[derive(Debug, Clone, Copy, PartialEq, Eq, Structural)]
pub enum DropPosition {
    Before,
    Inside,
    After,
}

/// Why a draft could not be finalised.
#[derive(Debug, Clone, Copy, PartialEq, Eq, Structural)]
pub enum MenuEditError {
    MissingDraft,
    MissingChoice,
    CategoryRequired,
}

/// A page that a draft can link to.
#[derive(Debug, Clone)]
pub struct PageOption {
    pub id: String,
    pub title: String,
    pub slug: String,
}

/// The entry being created.
#[derive(Debug, Clone)]
pub struct MenuDraft {
    pub item_id: String,
    pub kind: DraftKind,
    pub query: String,
    pub validation_failed: bool,
}

/// Load state of the editor.
#[derive(Debug, Clone, Copy, PartialEq, Eq, Structural)]
pub enum MenuEditorStatus {
    NotLoaded,
    Ready,
    Saving,
    LoadFailed,
}

/// The menu editor. `collapsed` holds the ids of collapsed submenus, each at
/// most once; times are milliseconds on the caller's monotonic clock.
#[derive(Debug)]
pub struct MenuEditorState {
    pub project_id: Option<String>,
    pub items: Vec<MenuNode>,
    pub selected_id: Option<String>,
    pub draft: Option<MenuDraft>,
    pub pages: Vec<PageOption>,
    pub categories: Vec<String>,
    pub dirty: bool,
    pub status: MenuEditorStatus,
    pub error: Option<String>,
    pub collapsed: Vec<String>,
    pub dragging_id: Option<String>,
    pub drop_target: Option<(String, DropPosition)>,
    pub hover_expand: Option<(String, u64)>,
}

/// The set of strings held in `v`.
pub open spec fn string_set(v: Seq<String>) -> Set<Seq<char>> {
    Set::new(|x: Seq<char>| exists|i: int| 0 <= i < v.len() && v[i]@ == x)
}

/// `str::trim().to_lowercase()` of a search query.
pub open spec fn normalized_query(q: Seq<char>) -> Seq<char> {
    unicode_lowercase(trim_seq(q))
}

/// Whether a page is offered for a draft query: the lowercased, trimmed
/// query is empty or occurs in the lowercased title or slug.
pub open spec fn page_matches_spec(page: PageOption, query: Seq<char>) -> bool {
    let q = normalized_query(query);
    q.len() == 0 || contains_seq(unicode_lowercase(page.title@), q)
        || contains_seq(unicode_lowercase(page.slug@), q)
}

/// Whether a category is offered for a draft query.
pub open spec fn category_matches_spec(category: Seq<char>, query: Seq<char>) -> bool {
    let q = normalized_query(query);
    q.len() == 0 || contains_seq(unicode_lowercase(category), q)
}

/// `query.trim().to_lowercase()`.
fn normalize_query(query: &str) -> (res: Vec<char>)
    ensures
        res@ == normalized_query(query@),
{
    let trimmed = trim(query);
    let lower = to_lowercase(trimmed.as_str());
    to_chars(lower.as_str())
}

/// Whether `haystack.to_lowercase()` contains the already normalised query.
fn lowercase_contains(haystack: &str, q: &Vec<char>) -> (res: bool)
    ensures
        res == contains_seq(unicode_lowercase(haystack@), q@),
{
    let lower = to_lowercase(haystack);
    let chars = to_chars(lower.as_str());
    chars_contains(chars.as_slice(), q.as_slice())
}

/// Whether a page is offered for the draft query.
pub fn page_matches_query(page: &PageOption, query: &str) -> (res: bool)
    ensures
        res == page_matches_spec(*page, query@),
{
    let q = normalize_query(query);
    q.len() == 0 || lowercase_contains(page.title.as_str(), &q) || lowercase_contains(
        page.slug.as_str(),
        &q,
    )
}

/// Whether a category is offered for the draft query.
pub fn category_matches_query(category: &str, query: &str) -> (res: bool)
    ensures
        res == category_matches_spec(category@, query@),
{
    let q = normalize_query(query);
    q.len() == 0 || lowercase_contains(category, &q)
}


/// A copy of an optional string.
fn clone_opt_string(o: &Option<String>) -> (res: Option<String>)
    ensures
        opt_view(res) == opt_view(*o),
{
    match o {
        Some(v) => Some(copy_str(v.as_str())),
        None => None,
    }
}

impl MenuEditorState {
    /// The menu as a forest of node views.
    pub open spec fn tree(&self) -> Seq<MenuNodeV> {
        forest_view(self.items@)
    }

    /// The ids of collapsed submenus.
    pub open spec fn collapsed_ids(&self) -> Set<Seq<char>> {
        string_set(self.collapsed@)
    }

    /// The id of the first top-level entry, if any.
    pub open spec fn first_id(&self) -> Option<Seq<char>> {
        if self.tree().len() > 0 {
            Some(self.tree()[0].id)
        } else {
            None
        }
    }

    /// The editor as loaded for `project_id`, with the first entry selected.
    pub fn ready(
        project_id: String,
        items: Vec<MenuNode>,
        pages: Vec<PageOption>,
        categories: Vec<String>,
    ) -> (s: Self)
        ensures
            opt_view(s.project_id) == Some(project_id@),
            s.tree() == forest_view(items@),
            opt_view(s.selected_id) == s.first_id(),
            s.draft is None,
            s.pages@ == pages@,
            s.categories@ == categories@,
            !s.dirty,
            s.status == MenuEditorStatus::Ready,
            s.error is None,
            s.collapsed@.len() == 0,
            s.dragging_id is None,
            s.drop_target is None,
            s.hover_expand is None,
    {
        proof {
            lemma_forest_view(items@);
        }
        let selected_id = if items.len() > 0 {
            Some(copy_str(items[0].id.as_str()))
        } else {
            None
        };
        MenuEditorState {
            project_id: Some(project_id),
            items,
            selected_id,
            draft: None,
            pages,
            categories,
            dirty: false,
            status: MenuEditorStatus::Ready,
            error: None,
            collapsed: Vec::new(),
            dragging_id: None,
            drop_target: None,
            hover_expand: None,
        }
    }

    /// Whether the submenu `id` is collapsed.
    pub fn is_collapsed(&self, id: &str) -> (res: bool)
        ensures
            res == self.collapsed_ids().contains(id@),
    {
        let mut i: usize = 0;
        while i < self.collapsed.len()
            invariant
                i <= self.collapsed@.len(),
                forall|k: int| 0 <= k < i ==> self.collapsed@[k]@ != id@,
            decreases self.collapsed@.len() - i,
        {
            if str_eq(self.collapsed[i].as_str(), id) {
                return true;
            }
            i = i + 1;
        }
        false
    }

    /// Collapses the submenu `id`.
    pub fn collapse(&mut self, id: &str)
        ensures
            final(self).collapsed_ids() == old(self).collapsed_ids().insert(id@),
            final(self).tree() == old(self).tree(),
    {
        if !self.is_collapsed(id) {
            let ghost before = self.collapsed@;
            self.collapsed.push(copy_str(id));
            proof {
                assert(self.collapsed@ == before.push(self.collapsed@.last()));
                assert(string_set(self.collapsed@) =~= string_set(before).insert(id@)) by {
                    assert forall|x: Seq<char>| string_set(self.collapsed@).contains(x) implies string_set(before).insert(id@).contains(x) by {
                        let i = choose|i: int| 0 <= i < self.collapsed@.len() && self.collapsed@[i]@ == x;
                        if i < before.len() {
                            assert(before[i]@ == x);
                        }
                    }
                    assert forall|x: Seq<char>| string_set(before).insert(id@).contains(x) implies string_set(self.collapsed@).contains(x) by {
                        if x == id@ {
                            assert(self.collapsed@[before.len() as int]@ == x);
                        } else {
                            let i = choose|i: int| 0 <= i < before.len() && before[i]@ == x;
                            assert(self.collapsed@[i]@ == x);
                        }
                    }
                }
            }
        } else {
            assert(old(self).collapsed_ids().insert(id@) =~= old(self).collapsed_ids());
        }
    }

    /// Expands the submenu `id`.
    pub fn expand(&mut self, id: &str)
        ensures
            final(self).collapsed_ids() == old(self).collapsed_ids().remove(id@),
            final(self).items == old(self).items,
            final(self).selected_id == old(self).selected_id,
            final(self).draft == old(self).draft,
            final(self).dirty == old(self).dirty,
            final(self).rest_equal(*old(self)),
    {
        let mut kept: Vec<String> = Vec::new();
        let mut i: usize = 0;
        while i < self.collapsed.len()
            invariant
                i <= self.collapsed@.len(),
                string_set(kept@) == string_set(self.collapsed@.take(i as int)).remove(id@),
            decreases self.collapsed@.len() - i,
        {
            let ghost pre = kept@;
            let ghost t = self.collapsed@.take(i as int);
            let ghost t1 = self.collapsed@.take(i + 1);
            assert(t1 == t.push(self.collapsed@[i as int]));
            if !str_eq(self.collapsed[i].as_str(), id) {
                kept.push(copy_str(self.collapsed[i].as_str()));
                assert(string_set(kept@) =~= string_set(t1).remove(id@)) by {
                    assert forall|x: Seq<char>| string_set(kept@).contains(x) implies string_set(t1).remove(id@).contains(x) by {
                        let k = choose|k: int| 0 <= k < kept@.len() && kept@[k]@ == x;
                        if k < pre.len() {
                            assert(string_set(pre).contains(x));
                            let j = choose|j: int| 0 <= j < t.len() && t[j]@ == x;
                            assert(t1[j]@ == x);
                        } else {
                            assert(t1[i as int]@ == x);
                        }
                    }
                    assert forall|x: Seq<char>| string_set(t1).remove(id@).contains(x) implies string_set(kept@).contains(x) by {
                        let j = choose|j: int| 0 <= j < t1.len() && t1[j]@ == x;
                        if j < i {
                            assert(t[j]@ == x);
                            assert(string_set(pre).contains(x));
                            let k = choose|k: int| 0 <= k < pre.len() && pre[k]@ == x;
                            assert(kept@[k]@ == x);
                        } else {
                            assert(kept@[pre.len() as int]@ == x);
                        }
                    }
                }
            } else {
                assert(string_set(kept@) =~= string_set(t1).remove(id@)) by {
                    assert forall|x: Seq<char>| string_set(t1).remove(id@).contains(x) implies string_set(t).remove(id@).contains(x) by {
                        let j = choose|j: int| 0 <= j < t1.len() && t1[j]@ == x;
                        assert(j < i);
                        assert(t[j]@ == x);
                    }
                    assert forall|x: Seq<char>| string_set(t).remove(id@).contains(x) implies string_set(t1).remove(id@).contains(x) by {
                        let j = choose|j: int| 0 <= j < t.len() && t[j]@ == x;
                        assert(t1[j]@ == x);
                    }
                }
            }
            i = i + 1;
        }
        assert(self.collapsed@.take(self.collapsed@.len() as int) =~= self.collapsed@);
        self.collapsed = kept;
    }
}


impl MenuEditorState {
    /// Every field but the tree, the selection, the draft, the collapsed set
    /// and the dirty flag is the same in `self` and `o`.
    pub open spec fn rest_equal(self, o: Self) -> bool {
        &&& self.project_id == o.project_id
        &&& self.pages == o.pages
        &&& self.categories == o.categories
        &&& self.status == o.status
        &&& self.error == o.error
        &&& self.dragging_id == o.dragging_id
        &&& self.drop_target == o.drop_target
        &&& self.hover_expand == o.hover_expand
    }

    /// The path of the selected entry when it may be edited: it exists, it is
    /// not the home entry, and no draft is open.
    pub open spec fn editable_selection(self) -> Option<Seq<usize>> {
        match opt_view(self.selected_id) {
            None => None,
            Some(id) => if id == HOME_ID@ || self.draft is Some {
                None
            } else {
                find_spec(self.tree(), id)
            },
        }
    }

    /// For a move: the sibling list, the selected index and the index it
    /// swaps with. The home entry keeps the first top-level place.
    pub open spec fn move_plan(self, direction: MoveDirection) -> Option<(Seq<usize>, int, int)> {
        match self.editable_selection() {
            None => None,
            Some(path) => {
                let parent = path.drop_last();
                let index = path.last() as int;
                let len = children_at(self.tree(), parent).unwrap().len();
                match direction {
                    MoveDirection::Up => {
                        let minimum: int = if parent.len() == 0 { 1 } else { 0 };
                        if index <= minimum { None } else { Some((parent, index, index - 1)) }
                    },
                    MoveDirection::Down => {
                        if index + 1 >= len { None } else { Some((parent, index, index + 1)) }
                    },
                }
            },
        }
    }

    /// For an indent: the selected path and the path of the submenu just above.
    pub open spec fn indent_plan(self) -> Option<(Seq<usize>, Seq<usize>)> {
        match self.editable_selection() {
            None => None,
            Some(path) => {
                let index = path.last();
                if index == 0 {
                    None
                } else {
                    let preceding = path.drop_last().push((index - 1) as usize);
                    match node_at(self.tree(), preceding) {
                        Some(n) => if n.kind == MenuItemKind::Submenu {
                            Some((path, preceding))
                        } else {
                            None
                        },
                        None => None,
                    }
                }
            },
        }
    }

    /// For an unindent: the selected path, below a submenu other than home.
    pub open spec fn unindent_plan(self) -> Option<Seq<usize>> {
        match self.editable_selection() {
            None => None,
            Some(path) => if path.len() < 2 {
                None
            } else if node_at(self.tree(), path.drop_last()).unwrap().id == HOME_ID@ {
                None
            } else {
                Some(path)
            },
        }
    }

    /// Moves the selected entry one place up or down among its siblings.
    pub fn move_selected(&mut self, direction: MoveDirection) -> (res: bool)
        ensures
            res == old(self).move_plan(direction) is Some,
            !res ==> *final(self) == *old(self),
            res ==> ({
                let (parent, index, target) = old(self).move_plan(direction).unwrap();
                &&& final(self).tree() == replace_children(
                    old(self).tree(),
                    parent,
                    swap_seq(children_at(old(self).tree(), parent).unwrap(), index, target),
                )
                &&& final(self).dirty
                &&& final(self).selected_id == old(self).selected_id
                &&& final(self).draft == old(self).draft
                &&& final(self).collapsed == old(self).collapsed
                &&& final(self).rest_equal(*old(self))
            }),
    {
        let ghost f = self.tree();
        let id = match &self.selected_id {
            Some(id) => copy_str(id.as_str()),
            None => return false,
        };
        if str_eq(id.as_str(), HOME_ID) || self.draft.is_some() {
            return false;
        }
        let path = match find_path(&self.items, id.as_str()) {
            Some(p) => p,
            None => return false,
        };
        proof {
            lemma_find_sound(f, id@, 0);
            lemma_path_parent(f, path@);
        }
        let index = path[path.len() - 1];
        let parent = parent_of(&path);
        let len = match children_len(&self.items, &parent) {
            Some(n) => n,
            None => return false,
        };
        let target = match direction {
            MoveDirection::Up => {
                let minimum: usize = if parent.len() == 0 { 1 } else { 0 };
                if index <= minimum {
                    return false;
                }
                index - 1
            },
            MoveDirection::Down => {
                if index + 1 >= len {
                    return false;
                }
                index + 1
            },
        };
        swap_adjacent(&mut self.items, &parent, index, target);
        self.dirty = true;
        true
    }

    /// Moves the selected entry into the submenu just above it, as its last
    /// child, and expands that submenu.
    pub fn indent_selected(&mut self) -> (res: bool)
        ensures
            res == old(self).indent_plan() is Some,
            !res ==> *final(self) == *old(self),
            res ==> ({
                let (path, preceding) = old(self).indent_plan().unwrap();
                let removed = remove_spec(old(self).tree(), path);
                &&& final(self).tree() == append_spec(removed.0, preceding, removed.1.unwrap())
                &&& final(self).collapsed_ids() == old(self).collapsed_ids().remove(
                    node_at(old(self).tree(), preceding).unwrap().id,
                )
                &&& final(self).dirty
                &&& final(self).selected_id == old(self).selected_id
                &&& final(self).draft == old(self).draft
                &&& final(self).rest_equal(*old(self))
            }),
    {
        let ghost f = self.tree();
        let id = match &self.selected_id {
            Some(id) => copy_str(id.as_str()),
            None => return false,
        };
        if str_eq(id.as_str(), HOME_ID) || self.draft.is_some() {
            return false;
        }
        let path = match find_path(&self.items, id.as_str()) {
            Some(p) => p,
            None => return false,
        };
        proof {
            lemma_find_sound(f, id@, 0);
            lemma_path_parent(f, path@);
        }
        let index = path[path.len() - 1];
        if index == 0 {
            return false;
        }
        let mut preceding = parent_of(&path);
        preceding.push(index - 1);
        let (preceding_id, child_count) = match item_at(&self.items, &preceding) {
            Some(n) => {
                if n.kind != MenuItemKind::Submenu {
                    return false;
                }
                proof {
                    lemma_forest_view(n.children@);
                }
                (copy_str(n.id.as_str()), n.children.len())
            },
            None => return false,
        };
        proof {
            assert(path@ == path@.drop_last().push(index));
            lemma_node_before_removed(f, path@.drop_last(), index, (index - 1) as usize);
        }
        let item = match remove_at(&mut self.items, &path) {
            Some(item) => item,
            None => return false,
        };
        let ghost t1 = self.tree();
        assert(node_at(t1, preceding@) == node_at(f, preceding@));
        assert(t1 == remove_spec(f, path@).0);
        insert_at(&mut self.items, &preceding, child_count, item);
        proof {
            let cs = children_at(t1, preceding@).unwrap();
            assert(cs.len() == child_count);
            assert(cs.insert(cs.len() as int, item.view_node()) =~= cs.push(item.view_node()));
            assert(self.tree() == append_spec(t1, preceding@, item.view_node()));
        }
        let ghost t2 = self.tree();
        self.expand(preceding_id.as_str());
        self.dirty = true;
        assert(self.tree() == t2);
        assert(self.collapsed_ids() == old(self).collapsed_ids().remove(node_at(f, preceding@).unwrap().id));
        assert(self.rest_equal(*old(self)));
        assert(self.selected_id == old(self).selected_id);
        assert(self.draft == old(self).draft);
        true
    }

    /// Moves the selected entry out of its submenu, right after that submenu.
    pub fn unindent_selected(&mut self) -> (res: bool)
        ensures
            res == old(self).unindent_plan() is Some,
            !res ==> *final(self) == *old(self),
            res ==> ({
                let path = old(self).unindent_plan().unwrap();
                let parent = path.drop_last();
                let removed = remove_spec(old(self).tree(), path);
                &&& final(self).tree() == insert_spec(
                    removed.0,
                    parent.drop_last(),
                    parent.last() + 1,
                    removed.1.unwrap(),
                )
                &&& final(self).dirty
                &&& final(self).selected_id == old(self).selected_id
                &&& final(self).draft == old(self).draft
                &&& final(self).collapsed == old(self).collapsed
                &&& final(self).rest_equal(*old(self))
            }),
    {
        let ghost f = self.tree();
        let id = match &self.selected_id {
            Some(id) => copy_str(id.as_str()),
            None => return false,
        };
        if str_eq(id.as_str(), HOME_ID) || self.draft.is_some() {
            return false;
        }
        let path = match find_path(&self.items, id.as_str()) {
            Some(p) => p,
            None => return false,
        };
        proof {
            lemma_find_sound(f, id@, 0);
        }
        if path.len() < 2 {
            return false;
        }
        let parent_path = parent_of(&path);
        proof {
            lemma_path_parent(f, path@);
            assert(parent_path@.len() >= 1);
            assert(node_at(f, parent_path@) is Some) by {
                let cs = children_at(f, parent_path@);
                assert(cs is Some);
            }
        }
        match item_at(&self.items, &parent_path) {
            Some(parent) => {
                if str_eq(parent.id.as_str(), HOME_ID) {
                    return false;
                }
            },
            None => return false,
        }
        let grandparent = parent_of(&parent_path);
        let parent_index = parent_path[parent_path.len() - 1];
        proof {
            lemma_path_parent(f, parent_path@);
        }
        match children_len(&self.items, &grandparent) {
            Some(n) => {
                assert(parent_index < n);
            },
            None => return false,
        }
        let item = match remove_at(&mut self.items, &path) {
            Some(item) => item,
            None => return false,
        };
        insert_at(&mut self.items, &grandparent, parent_index + 1, item);
        self.dirty = true;
        true
    }
}


/// Where a dropped entry is put, given the target's path after the entry
/// was taken out.
pub open spec fn drop_insertion(
    f: Seq<MenuNodeV>,
    next: Seq<usize>,
    position: DropPosition,
    item: MenuNodeV,
) -> Seq<MenuNodeV> {
    match position {
        DropPosition::Inside => insert_spec(f, next, 0, item),
        DropPosition::Before => insert_spec(f, next.drop_last(), next.last() as int, item),
        DropPosition::After => insert_spec(f, next.drop_last(), next.last() + 1, item),
    }
}

/// `prefix` is a prefix of `path`.
pub open spec fn is_path_prefix(prefix: Seq<usize>, path: Seq<usize>) -> bool {
    prefix.len() <= path.len() && path.take(prefix.len() as int) == prefix
}

impl MenuEditorState {
    /// For a drop: the paths of the dragged and the target entry, when the
    /// drop is allowed. Home is never dragged and nothing lands before it;
    /// an entry is never dropped into its own subtree; only submenus take
    /// entries inside them.
    pub open spec fn drop_plan(self, dragged: Seq<char>, target: Seq<char>, position: DropPosition) -> Option<(Seq<usize>, Seq<usize>)> {
        if dragged.len() == 0 || target.len() == 0 || dragged == target || dragged == HOME_ID@
            || self.draft is Some {
            None
        } else {
            match (find_spec(self.tree(), dragged), find_spec(self.tree(), target)) {
                (Some(dp), Some(tp)) => if is_path_prefix(dp, tp) {
                    None
                } else if position == DropPosition::Inside && !(node_at(self.tree(), tp) matches Some(n)
                    && n.kind == MenuItemKind::Submenu) {
                    None
                } else if position == DropPosition::Before && target == HOME_ID@ {
                    None
                } else {
                    Some((dp, tp))
                },
                _ => None,
            }
        }
    }

    /// Takes out the entry with id `id`; whether one was found.
    fn remove_by_id(&mut self, id: &str) -> (res: bool)
        ensures
            res == find_spec(old(self).tree(), id@) is Some,
            !res ==> final(self).items == old(self).items,
            final(self).tree() == match find_spec(old(self).tree(), id@) {
                Some(p) => remove_spec(old(self).tree(), p).0,
                None => old(self).tree(),
            },
            final(self).selected_id == old(self).selected_id,
            final(self).draft == old(self).draft,
            final(self).collapsed == old(self).collapsed,
            final(self).dirty == old(self).dirty,
            final(self).rest_equal(*old(self)),
    {
        let ghost f = self.tree();
        match find_path(&self.items, id) {
            Some(path) => {
                proof {
                    lemma_find_sound(f, id@, 0);
                    lemma_path_parent(f, path@);
                }
                let r = remove_at(&mut self.items, &path);
                true
            },
            None => false,
        }
    }

    /// Selects the first top-level entry, if any.
    fn select_first(&mut self)
        ensures
            opt_view(final(self).selected_id) == final(self).first_id(),
            final(self).items == old(self).items,
            final(self).draft == old(self).draft,
            final(self).collapsed == old(self).collapsed,
            final(self).dirty == old(self).dirty,
            final(self).rest_equal(*old(self)),
    {
        proof {
            lemma_forest_view(self.items@);
        }
        self.selected_id = if self.items.len() > 0 {
            Some(copy_str(self.items[0].id.as_str()))
        } else {
            None
        };
    }

    /// Deletes the selected entry, unless it is home; then closes any draft
    /// and selects the first entry.
    pub fn delete_selected(&mut self) -> (res: bool)
        ensures
            res == (match opt_view(old(self).selected_id) {
                Some(id) => id != HOME_ID@ && find_spec(old(self).tree(), id) is Some,
                None => false,
            }),
            !res ==> *final(self) == *old(self),
            res ==> ({
                let path = find_spec(old(self).tree(), opt_view(old(self).selected_id).unwrap()).unwrap();
                &&& final(self).tree() == remove_spec(old(self).tree(), path).0
                &&& final(self).draft is None
                &&& opt_view(final(self).selected_id) == final(self).first_id()
                &&& final(self).dirty
                &&& final(self).collapsed == old(self).collapsed
                &&& final(self).rest_equal(*old(self))
            }),
    {
        let id = match &self.selected_id {
            Some(id) => copy_str(id.as_str()),
            None => return false,
        };
        if str_eq(id.as_str(), HOME_ID) {
            return false;
        }
        let removed = self.remove_by_id(id.as_str());
        if removed {
            self.draft = None;
            self.select_first();
            self.dirty = true;
        }
        removed
    }

    /// Discards the open draft and its entry, and selects the first entry.
    /// Returns whether the draft's entry was found and taken out.
    pub fn cancel_draft(&mut self) -> (res: bool)
        ensures
            old(self).draft is None ==> !res && *final(self) == *old(self),
            old(self).draft is Some ==> ({
                let id = old(self).draft.unwrap().item_id@;
                &&& res == find_spec(old(self).tree(), id) is Some
                &&& final(self).tree() == match find_spec(old(self).tree(), id) {
                    Some(p) => remove_spec(old(self).tree(), p).0,
                    None => old(self).tree(),
                }
                &&& final(self).draft is None
                &&& opt_view(final(self).selected_id) == final(self).first_id()
                &&& final(self).dirty == old(self).dirty
                &&& final(self).collapsed == old(self).collapsed
                &&& final(self).rest_equal(*old(self))
            }),
    {
        let draft = match self.draft.take() {
            Some(d) => d,
            None => return false,
        };
        let removed = self.remove_by_id(draft.item_id.as_str());
        self.select_first();
        removed
    }

    /// Drops the entry `dragged_id` before, inside or after `target_id`, and
    /// selects it. Returns whether it was placed.
    pub fn drop_item(&mut self, dragged_id: &str, target_id: &str, position: DropPosition) -> (res: bool)
        ensures
            old(self).drop_plan(dragged_id@, target_id@, position) is None ==> !res && *final(self)
                == *old(self),
            old(self).drop_plan(dragged_id@, target_id@, position) is Some ==> ({
                let (dp, tp) = old(self).drop_plan(dragged_id@, target_id@, position).unwrap();
                let removed = remove_spec(old(self).tree(), dp);
                let next = find_spec(removed.0, target_id@);
                &&& res == next is Some
                &&& !res ==> {
                    &&& final(self).tree() == removed.0
                    &&& final(self).selected_id == old(self).selected_id
                    &&& final(self).dirty == old(self).dirty
                }
                &&& res ==> {
                    &&& final(self).tree() == drop_insertion(removed.0, next.unwrap(), position, removed.1.unwrap())
                    &&& opt_view(final(self).selected_id) == Some(dragged_id@)
                    &&& final(self).dirty
                }
                &&& final(self).draft == old(self).draft
                &&& final(self).collapsed == old(self).collapsed
                &&& final(self).rest_equal(*old(self))
            }),
    {
        let ghost f = self.tree();
        if dragged_id.unicode_len() == 0 || target_id.unicode_len() == 0 || str_eq(dragged_id, target_id)
            || str_eq(dragged_id, HOME_ID) || self.draft.is_some() {
            return false;
        }
        let drag_path = match find_path(&self.items, dragged_id) {
            Some(p) => p,
            None => return false,
        };
        let target_path = match find_path(&self.items, target_id) {
            Some(p) => p,
            None => return false,
        };
        proof {
            lemma_find_sound(f, dragged_id@, 0);
            lemma_find_sound(f, target_id@, 0);
            lemma_path_parent(f, drag_path@);
        }
        if path_starts_with(&target_path, &drag_path) {
            return false;
        }
        if position == DropPosition::Inside {
            match item_at(&self.items, &target_path) {
                Some(n) => {
                    if n.kind != MenuItemKind::Submenu {
                        return false;
                    }
                },
                None => return false,
            }
        }
        if position == DropPosition::Before && str_eq(target_id, HOME_ID) {
            return false;
        }
        let item = match remove_at(&mut self.items, &drag_path) {
            Some(item) => item,
            None => return false,
        };
        let ghost t1 = self.tree();
        let next_target = match find_path(&self.items, target_id) {
            Some(p) => p,
            None => return false,
        };
        proof {
            lemma_find_sound(t1, target_id@, 0);
            lemma_path_parent(t1, next_target@);
        }
        match position {
            DropPosition::Inside => insert_at(&mut self.items, &next_target, 0, item),
            DropPosition::Before | DropPosition::After => {
                let index = next_target[next_target.len() - 1];
                let parent = parent_of(&next_target);
                match children_len(&self.items, &parent) {
                    Some(n) => {
                        assert(index < n);
                    },
                    None => return false,
                }
                let index = if position == DropPosition::After { index + 1 } else { index };
                insert_at(&mut self.items, &parent, index, item);
            },
        }
        self.selected_id = Some(copy_str(dragged_id));
        self.dirty = true;
        true
    }
}


/// The mathematical value of a draft.
pub ghost struct DraftV {
    pub item_id: Seq<char>,
    pub kind: DraftKind,
    pub query: Seq<char>,
    pub validation_failed: bool,
}

/// The view of an optional draft.
pub open spec fn draft_view(d: Option<MenuDraft>) -> Option<DraftV> {
    match d {
        Some(d) => Some(DraftV {
            item_id: d.item_id@,
            kind: d.kind,
            query: d.query@,
            validation_failed: d.validation_failed,
        }),
        None => None,
    }
}

/// The kind of entry a draft starts as.
pub open spec fn draft_node_kind(kind: DraftKind) -> MenuItemKind {
    match kind {
        DraftKind::Page => MenuItemKind::Page,
        DraftKind::Category => MenuItemKind::CategoryArchive,
    }
}

/// Where a new entry goes: as the first child of a selected submenu, right
/// after any other selected entry, or at the end of the top level.
pub open spec fn insertion_target_spec(f: Seq<MenuNodeV>, selected: Option<Seq<char>>) -> (Seq<usize>, int) {
    match selected {
        None => (Seq::empty(), f.len() as int),
        Some(id) => match find_spec(f, id) {
            None => (Seq::empty(), f.len() as int),
            Some(path) => if node_at(f, path).unwrap().kind == MenuItemKind::Submenu {
                (path, 0)
            } else {
                (path.drop_last(), path.last() + 1)
            },
        },
    }
}

/// A lowercase hexadecimal digit.
pub open spec fn is_lower_hex(c: char) -> bool {
    ('0' <= c && c <= '9') || ('a' <= c && c <= 'f')
}

/// The text of a random (version 4, RFC 4122 variant) UUID in hyphenated
/// lowercase form: 36 characters, hyphens at 8, 13, 18 and 23, lowercase
/// hexadecimal digits elsewhere, version digit `4` at 14 and a variant
/// digit `8`, `9`, `a` or `b` at 19.
pub open spec fn uuid_v4_text(s: Seq<char>) -> bool {
    &&& s.len() == 36
    &&& forall|i: int| 0 <= i < 36 ==> if i == 8 || i == 13 || i == 18 || i == 23 {
        #[trigger] s[i] == '-'
    } else {
        is_lower_hex(s[i])
    }
    &&& s[14] == '4'
    &&& (s[19] == '8' || s[19] == '9' || s[19] == 'a' || s[19] == 'b')
}

/// `uuid::Uuid::new_v4`, formatted by `to_string`: a fresh random id for a
/// new entry. `Display` writes the hyphenated lowercase form, and `new_v4`
/// sets the version and variant bits; the other digits are random.
#[verifier::external_body]
fn new_entry_id() -> (id: String)
    ensures
        uuid_v4_text(id@),
{
    uuid::Uuid::new_v4().to_string()
}

/// The ids the editor gives entries read from the menu file: the home
/// entry `menu-home`, every other entry a fresh random UUID.
pub open spec fn node_ids_ok(n: MenuNodeV) -> bool
    decreases n,
{
    &&& (if n.kind == MenuItemKind::Home { n.id == HOME_ID@ } else { uuid_v4_text(n.id) })
    &&& forest_ids_ok(n.children)
}

/// Every node of `f`, at any depth, has such an id.
pub open spec fn forest_ids_ok(f: Seq<MenuNodeV>) -> bool
    decreases f,
{
    f.len() == 0 || (forest_ids_ok(f.drop_last()) && node_ids_ok(f.last()))
}

/// The editor's nodes for entries read from the menu file: the same
/// entries in the same tree, each given an id.
fn nodes_from_items(items: &Vec<MenuItem>) -> (res: Vec<MenuNode>)
    ensures
        strip_forest(forest_view(res@)) == items_view(items@),
        forest_ids_ok(forest_view(res@)),
    decreases items@,
{
    let mut res: Vec<MenuNode> = Vec::new();
    let mut i: usize = 0;
    while i < items.len()
        invariant
            i <= items@.len(),
            strip_forest(forest_view(res@)) == items_view(items@.take(i as int)),
            forest_ids_ok(forest_view(res@)),
        decreases items@.len() - i,
    {
        let item = &items[i];
        let children = nodes_from_items(&item.children);
        let id = if item.kind == MenuItemKind::Home {
            copy_str(HOME_ID)
        } else {
            new_entry_id()
        };
        let node = MenuNode {
            id,
            kind: item.kind,
            label: copy_str(item.label.as_str()),
            slug: clone_opt_string(&item.slug),
            children,
        };
        let ghost old_res = res@;
        res.push(node);
        proof {
            assert(res@.drop_last() =~= old_res);
            assert(items@.take(i + 1).drop_last() =~= items@.take(i as int));
            assert(forest_view(res@) == forest_view(old_res).push(node.view_node()));
            assert(forest_view(res@).drop_last() =~= forest_view(old_res));
            assert(strip_ids(node.view_node()) == items@[i as int].view_item());
            assert(forest_view(res@).last() == node.view_node());
            assert(node_ids_ok(node.view_node()));
        }
        i = i + 1;
    }
    assert(items@.take(items@.len() as int) =~= items@);
    res
}

/// The entries to store for the editor's nodes: the same tree without ids.
fn items_from_nodes(nodes: &Vec<MenuNode>) -> (res: Vec<MenuItem>)
    ensures
        items_view(res@) == strip_forest(forest_view(nodes@)),
    decreases nodes@,
{
    let mut res: Vec<MenuItem> = Vec::new();
    let mut i: usize = 0;
    while i < nodes.len()
        invariant
            i <= nodes@.len(),
            items_view(res@) == strip_forest(forest_view(nodes@.take(i as int))),
        decreases nodes@.len() - i,
    {
        let node = &nodes[i];
        let children = items_from_nodes(&node.children);
        let item = MenuItem {
            kind: node.kind,
            label: copy_str(node.label.as_str()),
            slug: clone_opt_string(&node.slug),
            children,
        };
        let ghost old_res = res@;
        res.push(item);
        proof {
            assert(res@.drop_last() =~= old_res);
            let t = nodes@.take(i + 1);
            assert(t.drop_last() =~= nodes@.take(i as int));
            assert(forest_view(t) == forest_view(t.drop_last()).push(t.last().view_node()));
            assert(forest_view(t).drop_last() =~= forest_view(nodes@.take(i as int)));
            assert(t.last() == nodes@[i as int]);
            assert(forest_view(t).last() == nodes@[i as int].view_node());
            assert(items_view(res@) == items_view(old_res).push(item.view_item()));
            assert(item.view_item() == strip_ids(nodes@[i as int].view_node()));
        }
        i = i + 1;
    }
    assert(nodes@.take(nodes@.len() as int) =~= nodes@);
    res
}

impl MenuEditorState {
    /// The editor for a menu read from the menu file: each entry gets an id
    /// (`menu-home` for the home entry, a fresh UUID for the others), and
    /// the editor is ready with the first entry selected.
    pub fn from_persisted(
        project_id: String,
        items: Vec<MenuItem>,
        pages: Vec<PageOption>,
        categories: Vec<String>,
    ) -> (s: Self)
        ensures
            strip_forest(s.tree()) == items_view(items@),
            forest_ids_ok(s.tree()),
            opt_view(s.project_id) == Some(project_id@),
            opt_view(s.selected_id) == s.first_id(),
            s.draft is None,
            s.pages@ == pages@,
            s.categories@ == categories@,
            !s.dirty,
            s.status == MenuEditorStatus::Ready,
            s.error is None,
            s.collapsed@.len() == 0,
            s.dragging_id is None,
            s.drop_target is None,
            s.hover_expand is None,
    {
        let nodes = nodes_from_items(&items);
        MenuEditorState::ready(project_id, nodes, pages, categories)
    }

    /// The menu to store: the editor's tree without its ids.
    pub fn persisted_items(&self) -> (res: Vec<MenuItem>)
        ensures
            items_view(res@) == strip_forest(self.tree()),
    {
        items_from_nodes(&self.items)
    }
}

/// Where a new entry goes, as a parent path and an index.
fn insertion_target(items: &Vec<MenuNode>, selected: &Option<String>) -> (res: (Vec<usize>, usize))
    ensures
        res.0@ == insertion_target_spec(forest_view(items@), opt_view(*selected)).0,
        res.1 as int == insertion_target_spec(forest_view(items@), opt_view(*selected)).1,
{
    proof {
        lemma_forest_view(items@);
    }
    let id = match selected {
        Some(id) => id,
        None => return (Vec::new(), items.len()),
    };
    let path = match find_path(items, id.as_str()) {
        Some(p) => p,
        None => return (Vec::new(), items.len()),
    };
    proof {
        lemma_find_sound(forest_view(items@), id@, 0);
        lemma_path_parent(forest_view(items@), path@);
    }
    match item_at(items, &path) {
        Some(n) => {
            if n.kind == MenuItemKind::Submenu {
                return (path, 0);
            }
        },
        None => return (Vec::new(), items.len()),
    }
    let index = path[path.len() - 1];
    let parent = parent_of(&path);
    match children_len(items, &parent) {
        Some(n) => {
            assert(index < n);
        },
        None => return (Vec::new(), items.len()),
    }
    (parent, index + 1)
}

/// The index of the first page whose id is `id`, searching from `i`.
pub open spec fn first_page_from(pages: Seq<PageOption>, id: Seq<char>, i: int) -> Option<int>
    decreases pages.len() - i,
{
    if i < 0 || i >= pages.len() {
        None
    } else if pages[i].id@ == id {
        Some(i)
    } else {
        first_page_from(pages, id, i + 1)
    }
}

/// The index of the first page whose id is `id`.
fn find_page(pages: &Vec<PageOption>, id: &str) -> (res: Option<usize>)
    ensures
        match res {
            Some(i) => i < pages@.len() && first_page_from(pages@, id@, 0) == Some(i as int),
            None => first_page_from(pages@, id@, 0) is None,
        },
{
    let mut i: usize = 0;
    while i < pages.len()
        invariant
            i <= pages@.len(),
            first_page_from(pages@, id@, 0) == first_page_from(pages@, id@, i as int),
        decreases pages@.len() - i,
    {
        if str_eq(pages[i].id.as_str(), id) {
            return Some(i);
        }
        i = i + 1;
    }
    None
}

/// The index of the first category equal to `q` up to ASCII case, searching from `i`.
pub open spec fn first_category_from(categories: Seq<String>, q: Seq<char>, i: int) -> Option<int>
    decreases categories.len() - i,
{
    if i < 0 || i >= categories.len() {
        None
    } else if eq_ignore_ascii_case_seq(categories[i]@, q) {
        Some(i)
    } else {
        first_category_from(categories, q, i + 1)
    }
}

/// The label a submenu draft takes: the trimmed query, or the default when
/// the query is blank.
pub open spec fn submenu_label(query: Seq<char>, default_label: Seq<char>) -> Seq<char> {
    if trim_seq(query).len() == 0 { default_label } else { trim_seq(query) }
}

impl MenuEditorState {
    /// Opens a draft entry next to (or inside) the selection and selects it.
    pub fn start_draft(&mut self, kind: DraftKind) -> (res: bool)
        ensures
            res == (old(self).draft is None && old(self).status == MenuEditorStatus::Ready),
            !res ==> *final(self) == *old(self),
            res ==> ({
                let t = insertion_target_spec(old(self).tree(), opt_view(old(self).selected_id));
                let d = draft_view(final(self).draft).unwrap();
                &&& final(self).draft is Some
                &&& d.kind == kind
                &&& uuid_v4_text(d.item_id)
                &&& d.query.len() == 0
                &&& !d.validation_failed
                &&& opt_view(final(self).selected_id) == Some(d.item_id)
                &&& final(self).tree() == insert_spec(
                    old(self).tree(),
                    t.0,
                    t.1,
                    MenuNodeV {
                        id: d.item_id,
                        kind: draft_node_kind(kind),
                        label: Seq::empty(),
                        slug: None,
                        children: Seq::empty(),
                    },
                )
                &&& final(self).collapsed_ids() == match opt_view(old(self).selected_id) {
                    Some(s) => old(self).collapsed_ids().remove(s),
                    None => old(self).collapsed_ids(),
                }
                &&& final(self).dirty == old(self).dirty
                &&& final(self).rest_equal(*old(self))
            }),
    {
        if self.draft.is_some() || self.status != MenuEditorStatus::Ready {
            return false;
        }
        let id = new_entry_id();
        let node = MenuNode {
            id: copy_str(id.as_str()),
            kind: match kind {
                DraftKind::Page => MenuItemKind::Page,
                DraftKind::Category => MenuItemKind::CategoryArchive,
            },
            label: String::new(),
            slug: None,
            children: Vec::new(),
        };
        proof {
            assert(forest_view(node.children@) =~= Seq::<MenuNodeV>::empty());
        }
        let (parent, index) = insertion_target(&self.items, &self.selected_id);
        insert_at(&mut self.items, &parent, index, node);
        let selected = clone_opt_string(&self.selected_id);
        match selected {
            Some(sel) => self.expand(sel.as_str()),
            None => {},
        }
        self.selected_id = Some(copy_str(id.as_str()));
        self.draft = Some(MenuDraft { item_id: id, kind, query: String::new(), validation_failed: false });
        true
    }

    /// Replaces the draft's query and clears its validation error.
    pub fn draft_changed(&mut self, query: String)
        ensures
            draft_view(final(self).draft) == match draft_view(old(self).draft) {
                Some(d) => Some(DraftV { query: query@, validation_failed: false, ..d }),
                None => None,
            },
            final(self).items == old(self).items,
            final(self).selected_id == old(self).selected_id,
            final(self).collapsed == old(self).collapsed,
            final(self).dirty == old(self).dirty,
            final(self).rest_equal(*old(self)),
    {
        match &mut self.draft {
            Some(d) => {
                d.query = query;
                d.validation_failed = false;
            },
            None => {},
        }
    }

    /// Turns the page draft into a link to the page `page_id`.
    pub fn choose_page(&mut self, page_id: &str) -> (res: Result<(), MenuEditError>)
        ensures
            ({
                let page = first_page_from(old(self).pages@, page_id@, 0);
                let d = draft_view(old(self).draft);
                if page is None {
                    res == Err::<(), MenuEditError>(MenuEditError::MissingChoice)
                } else if !(d matches Some(dv) && dv.kind == DraftKind::Page) {
                    res == Err::<(), MenuEditError>(MenuEditError::MissingDraft)
                } else if find_spec(old(self).tree(), d.unwrap().item_id) is None {
                    res == Err::<(), MenuEditError>(MenuEditError::MissingDraft)
                } else {
                    res == Ok::<(), MenuEditError>(())
                }
            }),
            res is Err ==> *final(self) == *old(self),
            res is Ok ==> ({
                let p = old(self).pages@[first_page_from(old(self).pages@, page_id@, 0).unwrap()];
                let path = find_spec(old(self).tree(), draft_view(old(self).draft).unwrap().item_id).unwrap();
                &&& final(self).tree() == relabel_spec(old(self).tree(), path, MenuItemKind::Page, p.title@, Some(p.slug@))
                &&& final(self).draft is None
                &&& final(self).dirty
                &&& final(self).selected_id == old(self).selected_id
                &&& final(self).collapsed == old(self).collapsed
                &&& final(self).rest_equal(*old(self))
            }),
    {
        let found = find_page(&self.pages, page_id);
        let index = match found {
            Some(k) => k,
            None => return Err(MenuEditError::MissingChoice),
        };
        let item_id = match &self.draft {
            Some(d) => {
                if d.kind != DraftKind::Page {
                    return Err(MenuEditError::MissingDraft);
                }
                copy_str(d.item_id.as_str())
            },
            None => return Err(MenuEditError::MissingDraft),
        };
        let path = match find_path(&self.items, item_id.as_str()) {
            Some(p) => p,
            None => return Err(MenuEditError::MissingDraft),
        };
        let title = copy_str(self.pages[index].title.as_str());
        let slug = copy_str(self.pages[index].slug.as_str());
        let changed = relabel_at(&mut self.items, &path, MenuItemKind::Page, title, Some(slug));
        self.draft = None;
        self.dirty = true;
        Ok(())
    }

    /// Turns the page draft into a submenu labelled with the trimmed query,
    /// or with `default_label` when the query is blank.
    pub fn submit_submenu(&mut self, default_label: &str) -> (res: Result<(), MenuEditError>)
        ensures
            ({
                let d = draft_view(old(self).draft);
                if !(d matches Some(dv) && dv.kind == DraftKind::Page) {
                    res == Err::<(), MenuEditError>(MenuEditError::MissingDraft)
                } else if find_spec(old(self).tree(), d.unwrap().item_id) is None {
                    res == Err::<(), MenuEditError>(MenuEditError::MissingDraft)
                } else {
                    res == Ok::<(), MenuEditError>(())
                }
            }),
            res is Err ==> *final(self) == *old(self),
            res is Ok ==> ({
                let d = draft_view(old(self).draft).unwrap();
                let path = find_spec(old(self).tree(), d.item_id).unwrap();
                &&& final(self).tree() == relabel_spec(
                    old(self).tree(),
                    path,
                    MenuItemKind::Submenu,
                    submenu_label(d.query, default_label@),
                    None,
                )
                &&& final(self).draft is None
                &&& final(self).dirty
                &&& final(self).selected_id == old(self).selected_id
                &&& final(self).collapsed == old(self).collapsed
                &&& final(self).rest_equal(*old(self))
            }),
    {
        let (item_id, label) = match &self.draft {
            Some(d) => {
                if d.kind != DraftKind::Page {
                    return Err(MenuEditError::MissingDraft);
                }
                let trimmed = trim(d.query.as_str());
                let label = if trimmed.unicode_len() == 0 { copy_str(default_label) } else { trimmed };
                (copy_str(d.item_id.as_str()), label)
            },
            None => return Err(MenuEditError::MissingDraft),
        };
        let path = match find_path(&self.items, item_id.as_str()) {
            Some(p) => p,
            None => return Err(MenuEditError::MissingDraft),
        };
        let changed = relabel_at(&mut self.items, &path, MenuItemKind::Submenu, label, None);
        self.draft = None;
        self.dirty = true;
        Ok(())
    }

    /// Expands a collapsed submenu that a dragged entry hovers inside, once
    /// the hover has lasted `DRAG_EXPAND_DELAY_MS`.
    pub fn expand_hovered(&mut self, now: u64) -> (res: bool)
        ensures
            res == (match old(self).hover_expand {
                Some((id, started)) => now >= started + DRAG_EXPAND_DELAY_MS,
                None => false,
            }),
            !res ==> *final(self) == *old(self),
            res ==> ({
                &&& final(self).collapsed_ids() == old(self).collapsed_ids().remove(old(self).hover_expand.unwrap().0@)
                &&& final(self).hover_expand is None
                &&& final(self).items == old(self).items
                &&& final(self).selected_id == old(self).selected_id
                &&& final(self).draft == old(self).draft
                &&& final(self).dirty == old(self).dirty
                &&& final(self).project_id == old(self).project_id
                &&& final(self).pages == old(self).pages
                &&& final(self).categories == old(self).categories
                &&& final(self).status == old(self).status
                &&& final(self).error == old(self).error
                &&& final(self).dragging_id == old(self).dragging_id
                &&& final(self).drop_target == old(self).drop_target
            }),
    {
        let (id, started) = match &self.hover_expand {
            Some((id, started)) => (copy_str(id.as_str()), *started),
            None => return false,
        };
        if now < started || now - started < DRAG_EXPAND_DELAY_MS {
            return false;
        }
        self.expand(id.as_str());
        self.hover_expand = None;
        true
    }

    /// Records the drop target under a dragged entry, and starts the expand
    /// timer when it hovers inside a collapsed submenu.
    pub fn drag_over(&mut self, target: String, position: DropPosition, now: u64)
        ensures
            old(self).dragging_id is None ==> *final(self) == *old(self),
            old(self).dragging_id is Some ==> ({
                let should_expand = position == DropPosition::Inside
                    && old(self).collapsed_ids().contains(target@)
                    && (find_spec(old(self).tree(), target@) matches Some(p)
                        && node_at(old(self).tree(), p) matches Some(n) && n.kind == MenuItemKind::Submenu);
                &&& final(self).drop_target == Some((target, position))
                &&& should_expand ==> (match old(self).hover_expand {
                    Some((id, t)) => if id@ == target@ {
                        final(self).hover_expand == old(self).hover_expand
                    } else {
                        final(self).hover_expand == Some((target, now))
                    },
                    None => final(self).hover_expand == Some((target, now)),
                })
                &&& !should_expand ==> final(self).hover_expand is None
                &&& final(self).items == old(self).items
                &&& final(self).selected_id == old(self).selected_id
                &&& final(self).draft == old(self).draft
                &&& final(self).collapsed == old(self).collapsed
                &&& final(self).dirty == old(self).dirty
                &&& final(self).project_id == old(self).project_id
                &&& final(self).pages == old(self).pages
                &&& final(self).categories == old(self).categories
                &&& final(self).status == old(self).status
                &&& final(self).error == old(self).error
                &&& final(self).dragging_id == old(self).dragging_id
            }),
    {
        if self.dragging_id.is_none() {
            return;
        }
        self.drop_target = Some((target.clone(), position));
        let mut should_expand = false;
        if position == DropPosition::Inside && self.is_collapsed(target.as_str()) {
            match find_path(&self.items, target.as_str()) {
                Some(path) => match item_at(&self.items, &path) {
                    Some(n) => {
                        should_expand = n.kind == MenuItemKind::Submenu;
                    },
                    None => {},
                },
                None => {},
            }
        }
        if should_expand {
            let restart = match &self.hover_expand {
                Some((id, _)) => !str_eq(id.as_str(), target.as_str()),
                None => true,
            };
            if restart {
                self.hover_expand = Some((target, now));
            }
        } else {
            self.hover_expand = None;
        }
    }
}


/// The names viewed as character sequences.
pub open spec fn names_view(names: Seq<String>) -> Seq<Seq<char>> {
    names.map_values(|s: String| s@)
}

/// The names are ordered by their lowercase forms.
pub open spec fn sorted_by_lowercase(names: Seq<String>) -> bool {
    forall|i: int, j: int|
        0 <= i < j < names.len() ==> !lex_lt(unicode_lowercase(#[trigger] names[j]@), unicode_lowercase(#[trigger] names[i]@))
}

/// `new` is `old` rearranged by the positions `p`, and names with equal
/// lowercase forms keep their relative order.
pub open spec fn stable_rearrangement(old: Seq<String>, new: Seq<String>, p: Seq<int>) -> bool {
    &&& p.len() == old.len()
    &&& new.len() == old.len()
    &&& forall|i: int| 0 <= i < p.len() ==> 0 <= #[trigger] p[i] < old.len()
    &&& forall|i: int, j: int| 0 <= i < j < p.len() ==> #[trigger] p[i] != #[trigger] p[j]
    &&& forall|i: int| 0 <= i < new.len() ==> #[trigger] new[i] == old[p[i]]
    &&& forall|i: int, j: int|
        0 <= i < j < new.len() && unicode_lowercase(#[trigger] new[i]@) == unicode_lowercase(#[trigger] new[j]@)
            ==> p[i] < p[j]
}

/// The names in the order of their lowercase forms, names with equal
/// lowercase forms in their given order (a stable insertion sort).
fn sort_by_lowercase(names: &mut Vec<String>)
    ensures
        names_view(final(names)@).to_multiset() == names_view(old(names)@).to_multiset(),
        sorted_by_lowercase(final(names)@),
        exists|p: Seq<int>| stable_rearrangement(old(names)@, final(names)@, p),
{
    let mut src: Vec<String> = Vec::new();
    std::mem::swap(&mut src, names);
    let ghost orig = src@;
    let mut out: Vec<String> = Vec::new();
    let mut keys: Vec<String> = Vec::new();
    let ghost mut p: Seq<int> = Seq::empty();
    let mut i: usize = 0;
    assert(names_view(out@) =~= names_view(orig.take(0)));
    while i < src.len()
        invariant
            src@ == orig,
            i <= orig.len(),
            out@.len() == i,
            keys@.len() == i,
            forall|k: int| 0 <= k < i ==> (#[trigger] keys@[k])@ == unicode_lowercase(out@[k]@),
            forall|a: int, b: int| 0 <= a < b < i ==> !lex_lt((#[trigger] keys@[b])@, (#[trigger] keys@[a])@),
            names_view(out@).to_multiset() == names_view(orig.take(i as int)).to_multiset(),
            p.len() == i,
            forall|k: int| 0 <= k < i ==> 0 <= #[trigger] p[k] < i,
            forall|a: int, b: int| 0 <= a < b < i ==> #[trigger] p[a] != #[trigger] p[b],
            forall|k: int| 0 <= k < i ==> #[trigger] out@[k] == orig[p[k]],
            forall|a: int, b: int|
                0 <= a < b < i && (#[trigger] keys@[a])@ == (#[trigger] keys@[b])@ ==> p[a] < p[b],
        decreases orig.len() - i,
    {
        let name = src[i].clone();
        let key = to_lowercase(name.as_str());
        let ghost kv = key@;
        let mut pos: usize = 0;
        while pos < keys.len() && !crate::sorting::str_lt(key.as_str(), keys[pos].as_str())
            invariant
                pos <= keys@.len(),
                keys@.len() == i,
                kv == key@,
                forall|k: int| 0 <= k < pos ==> !lex_lt(kv, (#[trigger] keys@[k])@),
            decreases keys@.len() - pos,
        {
            pos = pos + 1;
        }
        proof {
            if pos < keys@.len() {
                assert(lex_lt(kv, keys@[pos as int]@));
                assert forall|m: int| pos <= m < i implies lex_lt(kv, (#[trigger] keys@[m])@) by {
                    if m > pos {
                        crate::sorting::lemma_lex_lt_le(kv, keys@[pos as int]@, keys@[m]@);
                    }
                }
            }
        }
        let ghost old_out = out@;
        let ghost old_keys = keys@;
        let ghost old_p = p;
        out.insert(pos, name);
        keys.insert(pos, key);
        proof {
            p = old_p.insert(pos as int, i as int);
            assert(orig.take(i + 1) =~= orig.take(i as int).push(orig[i as int]));
            assert(names_view(out@) =~= names_view(old_out).insert(pos as int, orig[i as int]@));
            assert(names_view(orig.take(i + 1)) =~= names_view(orig.take(i as int)).push(orig[i as int]@));
            vstd::seq_lib::to_multiset_insert(names_view(old_out), pos as int, orig[i as int]@);
            vstd::seq_lib::to_multiset_build(names_view(orig.take(i as int)), orig[i as int]@);
            assert forall|k: int| 0 <= k < i + 1 implies (#[trigger] keys@[k])@ == unicode_lowercase(out@[k]@) by {
                if k < pos {
                    assert(keys@[k] == old_keys[k] && out@[k] == old_out[k]);
                } else if k > pos {
                    assert(keys@[k] == old_keys[k - 1] && out@[k] == old_out[k - 1]);
                }
            }
            assert forall|a: int, b: int| 0 <= a < b < i + 1 implies !lex_lt((#[trigger] keys@[b])@, (#[trigger] keys@[a])@) by {
                if b < pos {
                    assert(keys@[a] == old_keys[a] && keys@[b] == old_keys[b]);
                } else if b == pos {
                    assert(keys@[a] == old_keys[a]);
                } else if a == pos {
                    assert(keys@[b] == old_keys[b - 1]);
                    if lex_lt(old_keys[b - 1]@, kv) {
                        crate::sorting::lemma_lex_transitive(kv, old_keys[b - 1]@, kv);
                        crate::sorting::lemma_lex_irreflexive(kv);
                    }
                } else if a < pos {
                    assert(keys@[a] == old_keys[a] && keys@[b] == old_keys[b - 1]);
                } else {
                    assert(keys@[a] == old_keys[a - 1] && keys@[b] == old_keys[b - 1]);
                }
            }
            assert forall|k: int| 0 <= k < i + 1 implies 0 <= #[trigger] p[k] < i + 1 by {
                if k < pos {
                    assert(p[k] == old_p[k]);
                } else if k > pos {
                    assert(p[k] == old_p[k - 1]);
                }
            }
            assert forall|a: int, b: int| 0 <= a < b < i + 1 implies #[trigger] p[a] != #[trigger] p[b] by {
                if a < pos && b < pos {
                    assert(p[a] == old_p[a] && p[b] == old_p[b]);
                } else if a < pos && b == pos {
                    assert(p[a] == old_p[a]);
                } else if a < pos {
                    assert(p[a] == old_p[a] && p[b] == old_p[b - 1]);
                } else if a == pos {
                    assert(p[b] == old_p[b - 1]);
                } else {
                    assert(p[a] == old_p[a - 1] && p[b] == old_p[b - 1]);
                }
            }
            assert forall|k: int| 0 <= k < i + 1 implies #[trigger] out@[k] == orig[p[k]] by {
                if k < pos {
                    assert(p[k] == old_p[k] && out@[k] == old_out[k]);
                } else if k > pos {
                    assert(p[k] == old_p[k - 1] && out@[k] == old_out[k - 1]);
                }
            }
            assert forall|a: int, b: int|
                0 <= a < b < i + 1 && (#[trigger] keys@[a])@ == (#[trigger] keys@[b])@ implies p[a] < p[b] by {
                if b < pos {
                    assert(keys@[a] == old_keys[a] && keys@[b] == old_keys[b]);
                    assert(p[a] == old_p[a] && p[b] == old_p[b]);
                } else if b == pos {
                    assert(p[a] == old_p[a]);
                } else if a == pos {
                    assert(keys@[b] == old_keys[b - 1]);
                    crate::sorting::lemma_lex_irreflexive(kv);
                } else if a < pos {
                    assert(keys@[a] == old_keys[a] && keys@[b] == old_keys[b - 1]);
                    assert(p[a] == old_p[a] && p[b] == old_p[b - 1]);
                } else {
                    assert(keys@[a] == old_keys[a - 1] && keys@[b] == old_keys[b - 1]);
                    assert(p[a] == old_p[a - 1] && p[b] == old_p[b - 1]);
                }
            }
        }
        i = i + 1;
    }
    proof {
        assert(orig.take(orig.len() as int) =~= orig);
        assert forall|a: int, b: int| 0 <= a < b < out@.len()
            implies !lex_lt(unicode_lowercase(#[trigger] out@[b]@), unicode_lowercase(#[trigger] out@[a]@)) by {
            assert(keys@[a]@ == unicode_lowercase(out@[a]@));
            assert(keys@[b]@ == unicode_lowercase(out@[b]@));
        }
        assert forall|a: int, b: int|
            0 <= a < b < out@.len() && unicode_lowercase(#[trigger] out@[a]@) == unicode_lowercase(#[trigger] out@[b]@)
            implies p[a] < p[b] by {
            assert(keys@[a]@ == unicode_lowercase(out@[a]@));
            assert(keys@[b]@ == unicode_lowercase(out@[b]@));
        }
        assert(stable_rearrangement(orig, out@, p));
    }
    std::mem::swap(names, &mut out);
}

/// The project's categories as the editor offers them: the same names,
/// ordered by their lowercase forms, names with equal lowercase forms in
/// their given order.
pub fn menu_categories(categories: Vec<String>) -> (res: Vec<String>)
    ensures
        names_view(res@).to_multiset() == names_view(categories@).to_multiset(),
        sorted_by_lowercase(res@),
        exists|p: Seq<int>| stable_rearrangement(categories@, res@, p),
{
    let mut names = categories;
    sort_by_lowercase(&mut names);
    names
}

impl MenuEditorState {
    /// How submitting the category draft `draft` takes the editor from
    /// `old` to `new` with result `res`. An existing category equal to the
    /// trimmed query up to ASCII case is reused under its own spelling; a
    /// new one is added and the categories are sorted again.
    pub open spec fn category_submitted(
        old: Self,
        draft: Option<DraftV>,
        new: Self,
        res: Result<(String, bool), MenuEditError>,
    ) -> bool {
        let fixed = {
            &&& new.project_id == old.project_id
            &&& new.pages == old.pages
            &&& new.status == old.status
            &&& new.error == old.error
            &&& new.dragging_id == old.dragging_id
            &&& new.drop_target == old.drop_target
            &&& new.hover_expand == old.hover_expand
            &&& new.selected_id == old.selected_id
            &&& new.collapsed == old.collapsed
        };
        let untouched = {
            &&& new.items == old.items
            &&& new.categories == old.categories
            &&& new.dirty == old.dirty
        };
        &&& fixed
        &&& if !(draft matches Some(dv) && dv.kind == DraftKind::Category) {
            &&& res == Err::<(String, bool), MenuEditError>(MenuEditError::MissingDraft)
            &&& draft_view(new.draft) == draft
            &&& untouched
        } else if trim_seq(draft.unwrap().query).len() == 0 {
            &&& res == Err::<(String, bool), MenuEditError>(MenuEditError::CategoryRequired)
            &&& draft_view(new.draft) == Some(DraftV { validation_failed: true, ..draft.unwrap() })
            &&& untouched
        } else {
            let dv = draft.unwrap();
            let q = trim_seq(dv.query);
            let existing = first_category_from(old.categories@, q, 0);
            let name = match existing {
                Some(i) => old.categories@[i]@,
                None => q,
            };
            match find_spec(old.tree(), dv.item_id) {
                None => {
                    &&& res == Err::<(String, bool), MenuEditError>(MenuEditError::MissingDraft)
                    &&& draft_view(new.draft) == draft
                    &&& untouched
                },
                Some(path) => {
                    &&& res matches Ok((n, is_new)) && n@ == name && is_new == existing is None
                    &&& new.tree() == relabel_spec(old.tree(), path, MenuItemKind::CategoryArchive, name, Some(name))
                    &&& new.draft is None
                    &&& new.dirty
                    &&& existing is None ==> {
                        &&& names_view(new.categories@).to_multiset() == names_view(old.categories@).push(name).to_multiset()
                        &&& sorted_by_lowercase(new.categories@)
                    }
                    &&& existing is Some ==> new.categories == old.categories
                },
            }
        }
    }

    /// The index of the first category equal to `q` up to ASCII case.
    fn find_category(&self, q: &str) -> (res: Option<usize>)
        ensures
            match res {
                Some(i) => i < self.categories@.len() && first_category_from(self.categories@, q@, 0) == Some(i as int),
                None => first_category_from(self.categories@, q@, 0) is None,
            },
    {
        let mut i: usize = 0;
        while i < self.categories.len()
            invariant
                i <= self.categories@.len(),
                first_category_from(self.categories@, q@, 0) == first_category_from(self.categories@, q@, i as int),
            decreases self.categories@.len() - i,
        {
            if eq_ignore_ascii_case(self.categories[i].as_str(), q) {
                return Some(i);
            }
            i = i + 1;
        }
        None
    }

    /// Finalises the category draft. Returns the category's name and whether
    /// it is new (its metadata must then be created).
    pub fn submit_category(&mut self) -> (res: Result<(String, bool), MenuEditError>)
        ensures
            Self::category_submitted(*old(self), draft_view(old(self).draft), *final(self), res),
    {
        let (item_id, query) = match &self.draft {
            Some(d) => {
                if d.kind != DraftKind::Category {
                    return Err(MenuEditError::MissingDraft);
                }
                (copy_str(d.item_id.as_str()), trim(d.query.as_str()))
            },
            None => return Err(MenuEditError::MissingDraft),
        };
        if query.unicode_len() == 0 {
            match &mut self.draft {
                Some(d) => {
                    d.validation_failed = true;
                },
                None => {},
            }
            return Err(MenuEditError::CategoryRequired);
        }
        let existing = self.find_category(query.as_str());
        let name = match existing {
            Some(i) => copy_str(self.categories[i].as_str()),
            None => copy_str(query.as_str()),
        };
        let is_new = existing.is_none();
        let path = match find_path(&self.items, item_id.as_str()) {
            Some(p) => p,
            None => return Err(MenuEditError::MissingDraft),
        };
        let changed = relabel_at(
            &mut self.items,
            &path,
            MenuItemKind::CategoryArchive,
            copy_str(name.as_str()),
            Some(copy_str(name.as_str())),
        );
        if is_new {
            let ghost before = self.categories@;
            self.categories.push(copy_str(name.as_str()));
            proof {
                assert(names_view(self.categories@) =~= names_view(before).push(name@));
            }
            sort_by_lowercase(&mut self.categories);
        }
        self.draft = None;
        self.dirty = true;
        Ok((name, is_new))
    }

    /// Finalises the category draft with the existing category `name`.
    pub fn choose_category(&mut self, name: &str) -> (res: Result<(String, bool), MenuEditError>)
        ensures
            !string_set(old(self).categories@).contains(name@) ==> res == Err::<(String, bool), MenuEditError>(
                MenuEditError::MissingChoice,
            ) && *final(self) == *old(self),
            string_set(old(self).categories@).contains(name@) ==> Self::category_submitted(
                *old(self),
                match draft_view(old(self).draft) {
                    Some(d) => Some(DraftV { query: name@, validation_failed: false, ..d }),
                    None => None,
                },
                *final(self),
                res,
            ),
    {
        let mut i: usize = 0;
        let mut known = false;
        while i < self.categories.len()
            invariant
                i <= self.categories@.len(),
                known == exists|k: int| 0 <= k < i && self.categories@[k]@ == name@,
            decreases self.categories@.len() - i,
        {
            if str_eq(self.categories[i].as_str(), name) {
                known = true;
            }
            i = i + 1;
        }
        if !known {
            return Err(MenuEditError::MissingChoice);
        }
        self.draft_changed(copy_str(name));
        self.submit_category()
    }
}

/// What the menu editor view asks for.
#[derive(Debug, Clone)]
pub enum MenuEditorMsg {
    Reload,
    Select(String),
    StartDraft(DraftKind),
    DraftChanged(String),
    ChoosePage(String),
    ChooseCategory(String),
    SubmitDraft,
    CancelDraft,
    Move(MoveDirection),
    Indent,
    Unindent,
    Delete,
    Save,
    ToggleExpanded(String),
    DragStart(String),
    DragOver(String, DropPosition),
    DragLeave(String),
    Drop,
    DragCancel,
    ExpandTick,
}

/// Law: an editable entry inside a submenu moves up whenever it is not the
/// submenu's first child, swapping with the child just above it; only at
/// the top level is the first place kept for the home entry, so the entry
/// at top-level index 1 stays and any later one moves up.
pub proof fn law_move_up(s: MenuEditorState)
    requires
        s.editable_selection() is Some,
    ensures
        ({
            let path = s.editable_selection().unwrap();
            let parent = path.drop_last();
            let index = path.last() as int;
            &&& (path.len() >= 2 && index >= 1) ==> s.move_plan(MoveDirection::Up) == Some((parent, index, index - 1))
            &&& (path.len() == 1 && index >= 2) ==> s.move_plan(MoveDirection::Up) == Some((parent, index, index - 1))
            &&& (path.len() == 1 && index <= 1) ==> s.move_plan(MoveDirection::Up) is None
            &&& index == 0 ==> s.move_plan(MoveDirection::Up) is None
        }),
{
}

/// Law: an editable entry moves down whenever a sibling follows it,
/// swapping with that sibling, at any depth.
pub proof fn law_move_down(s: MenuEditorState)
    requires
        s.editable_selection() is Some,
    ensures
        ({
            let path = s.editable_selection().unwrap();
            let parent = path.drop_last();
            let index = path.last() as int;
            let len = children_at(s.tree(), parent).unwrap().len();
            &&& index + 1 < len ==> s.move_plan(MoveDirection::Down) == Some((parent, index, index + 1))
            &&& index + 1 >= len ==> s.move_plan(MoveDirection::Down) is None
        }),
{
}

} // verus!
