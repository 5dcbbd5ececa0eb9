//! The tab bar of the editor area.
//!
//! Singleton tab types appear at most once; a transient tab is replaced by
//! the next transient tab of its type; closing a tab selects its neighbour.

use vstd::prelude::*;

verus! {

/// The kind of content a tab holds.
#[derive(Debug, Clone, Copy, PartialEq, Eq, Structural)]
pub enum TabType {
    Post,
    Media,
    Settings,
    Style,
    Tags,
    Chat,
    Import,
    MenuEditor,
    MetadataDiff,
    Scripts,
    Templates,
    Documentation,
    SiteValidation,
    TranslationValidation,
    GitDiff,
}

/// Every type except `Post` and `Media` is a singleton.
pub open spec fn is_singleton_type(t: TabType) -> bool {
    !(t == TabType::Post || t == TabType::Media)
}

impl TabType {
    /// Singleton tabs may only appear once in the tab bar.
    pub fn is_singleton(&self) -> (res: bool)
        ensures
            res == is_singleton_type(*self),
    {
        !(*self == TabType::Post || *self == TabType::Media)
    }
}

/// A single tab in the editor area.
#[derive(Debug, Clone)]
pub struct Tab {
    pub id: String,
    pub tab_type: TabType,
    pub title: String,
    pub is_transient: bool,
    pub is_dirty: bool,
}

/// The first index at or after `i` of a tab of type `t`.
pub open spec fn first_of_type(tabs: Seq<Tab>, t: TabType, i: int) -> Option<int>
    decreases tabs.len() - i,
{
    if i < 0 || i >= tabs.len() {
        None
    } else if tabs[i].tab_type == t {
        Some(i)
    } else {
        first_of_type(tabs, t, i + 1)
    }
}

/// The first index at or after `i` of a transient tab of type `t`.
pub open spec fn first_transient_of_type(tabs: Seq<Tab>, t: TabType, i: int) -> Option<int>
    decreases tabs.len() - i,
{
    if i < 0 || i >= tabs.len() {
        None
    } else if tabs[i].tab_type == t && tabs[i].is_transient {
        Some(i)
    } else {
        first_transient_of_type(tabs, t, i + 1)
    }
}

/// The first index at or after `i` of a tab whose id is `id`.
pub open spec fn first_with_id(tabs: Seq<Tab>, id: Seq<char>, i: int) -> Option<int>
    decreases tabs.len() - i,
{
    if i < 0 || i >= tabs.len() {
        None
    } else if tabs[i].id@ == id {
        Some(i)
    } else {
        first_with_id(tabs, id, i + 1)
    }
}

/// The tab bar and the selected index after opening `new_tab`: a singleton
/// type already present is focused; a transient tab replaces the first
/// transient tab of its type; otherwise the tab is appended.
pub open spec fn open_spec(tabs: Seq<Tab>, new_tab: Tab) -> (Seq<Tab>, int) {
    if is_singleton_type(new_tab.tab_type) && first_of_type(tabs, new_tab.tab_type, 0) is Some {
        (tabs, first_of_type(tabs, new_tab.tab_type, 0).unwrap())
    } else if new_tab.is_transient && first_transient_of_type(tabs, new_tab.tab_type, 0) is Some {
        let i = first_transient_of_type(tabs, new_tab.tab_type, 0).unwrap();
        (tabs.update(i, new_tab), i)
    } else {
        (tabs.push(new_tab), tabs.len() as int)
    }
}

/// The tab bar and the next selection after closing the first tab whose id
/// is `id`: the same index, clamped to the last tab; `None` when no tab
/// remains. Nothing changes when no tab has that id.
pub open spec fn close_spec(tabs: Seq<Tab>, id: Seq<char>) -> (Seq<Tab>, Option<int>) {
    match first_with_id(tabs, id, 0) {
        None => (tabs, None),
        Some(pos) => {
            let rest = tabs.remove(pos);
            if rest.len() == 0 {
                (rest, None)
            } else {
                (rest, Some(if pos < rest.len() - 1 { pos } else { rest.len() - 1 }))
            }
        },
    }
}

/// The tab bar after marking the first tab whose id is `id` as permanent.
pub open spec fn pin_spec(tabs: Seq<Tab>, id: Seq<char>) -> Seq<Tab> {
    match first_with_id(tabs, id, 0) {
        None => tabs,
        Some(i) => tabs.update(i, Tab { is_transient: false, ..tabs[i] }),
    }
}

proof fn lemma_first_of_type_bounds(tabs: Seq<Tab>, t: TabType, i: int)
    ensures
        first_of_type(tabs, t, i) matches Some(k) ==> i <= k < tabs.len() && tabs[k].tab_type == t
            && forall|j: int| i <= j < k ==> tabs[j].tab_type != t,
        first_of_type(tabs, t, i) is None ==> forall|j: int| 0 <= i <= j < tabs.len() ==> tabs[j].tab_type != t,
    decreases tabs.len() - i,
{
    if 0 <= i < tabs.len() && tabs[i].tab_type != t {
        lemma_first_of_type_bounds(tabs, t, i + 1);
    }
}

proof fn lemma_first_transient_bounds(tabs: Seq<Tab>, t: TabType, i: int)
    ensures
        first_transient_of_type(tabs, t, i) matches Some(k) ==> i <= k < tabs.len(),
    decreases tabs.len() - i,
{
    if 0 <= i < tabs.len() && !(tabs[i].tab_type == t && tabs[i].is_transient) {
        lemma_first_transient_bounds(tabs, t, i + 1);
    }
}

proof fn lemma_first_with_id_bounds(tabs: Seq<Tab>, id: Seq<char>, i: int)
    ensures
        first_with_id(tabs, id, i) matches Some(k) ==> i <= k < tabs.len() && tabs[k].id@ == id
            && forall|j: int| i <= j < k ==> tabs[j].id@ != id,
        first_with_id(tabs, id, i) is None ==> forall|j: int| 0 <= i <= j < tabs.len() ==> tabs[j].id@ != id,
    decreases tabs.len() - i,
{
    if 0 <= i < tabs.len() && tabs[i].id@ != id {
        lemma_first_with_id_bounds(tabs, id, i + 1);
    }
}

/// The index of the first tab whose id is `id`.
fn position_of_id(tabs: &Vec<Tab>, id: &str) -> (res: Option<usize>)
    ensures
        match res {
            Some(i) => first_with_id(tabs@, id@, 0) == Some(i as int),
            None => first_with_id(tabs@, id@, 0) is None,
        },
{
    let mut i: usize = 0;
    while i < tabs.len()
        invariant
            i <= tabs@.len(),
            first_with_id(tabs@, id@, 0) == first_with_id(tabs@, id@, i as int),
        decreases tabs@.len() - i,
    {
        if crate::text::str_eq(tabs[i].id.as_str(), id) {
            return Some(i);
        }
        i = i + 1;
    }
    None
}

/// Opens (or focuses) a tab; returns the index of the resulting tab.
pub fn open_tab(tabs: &mut Vec<Tab>, new_tab: Tab) -> (res: usize)
    requires
        old(tabs)@.len() < usize::MAX,
    ensures
        final(tabs)@ == open_spec(old(tabs)@, new_tab).0,
        res as int == open_spec(old(tabs)@, new_tab).1,
{
    let ghost t0 = tabs@;
    if new_tab.tab_type.is_singleton() {
        let mut i: usize = 0;
        while i < tabs.len()
            invariant
                tabs@ == t0,
                t0 == old(tabs)@,
                is_singleton_type(new_tab.tab_type),
                i <= tabs@.len(),
                first_of_type(tabs@, new_tab.tab_type, 0) == first_of_type(tabs@, new_tab.tab_type, i as int),
            decreases tabs@.len() - i,
        {
            if tabs[i].tab_type == new_tab.tab_type {
                assert(first_of_type(tabs@, new_tab.tab_type, i as int) == Some(i as int));
                return i;
            }
            i = i + 1;
        }
    }
    if new_tab.is_transient {
        let mut i: usize = 0;
        while i < tabs.len()
            invariant
                tabs@ == t0,
                t0 == old(tabs)@,
                new_tab.is_transient,
                !(is_singleton_type(new_tab.tab_type) && first_of_type(tabs@, new_tab.tab_type, 0) is Some),
                i <= tabs@.len(),
                first_transient_of_type(tabs@, new_tab.tab_type, 0) == first_transient_of_type(
                    tabs@,
                    new_tab.tab_type,
                    i as int,
                ),
            decreases tabs@.len() - i,
        {
            if tabs[i].tab_type == new_tab.tab_type && tabs[i].is_transient {
                assert(first_transient_of_type(tabs@, new_tab.tab_type, i as int) == Some(i as int));
                tabs.set(i, new_tab);
                return i;
            }
            i = i + 1;
        }
    }
    tabs.push(new_tab);
    tabs.len() - 1
}

/// Removes the tab whose id matches and returns the index to select next.
pub fn close_tab(tabs: &mut Vec<Tab>, id: &str) -> (res: Option<usize>)
    ensures
        final(tabs)@ == close_spec(old(tabs)@, id@).0,
        match res {
            Some(i) => close_spec(old(tabs)@, id@).1 == Some(i as int),
            None => close_spec(old(tabs)@, id@).1 is None,
        },
{
    proof {
        lemma_first_with_id_bounds(tabs@, id@, 0);
    }
    let pos = match position_of_id(tabs, id) {
        Some(p) => p,
        None => return None,
    };
    tabs.remove(pos);
    if tabs.len() == 0 {
        None
    } else if pos < tabs.len() - 1 {
        Some(pos)
    } else {
        Some(tabs.len() - 1)
    }
}

/// Marks a transient tab as permanent.
pub fn pin_tab(tabs: &mut Vec<Tab>, id: &str)
    ensures
        final(tabs)@ == pin_spec(old(tabs)@, id@),
{
    proof {
        lemma_first_with_id_bounds(tabs@, id@, 0);
    }
    match position_of_id(tabs, id) {
        Some(i) => {
            let mut tab = tabs.remove(i);
            let ghost removed = tabs@;
            tab.is_transient = false;
            tabs.insert(i, tab);
            assert(tabs@ =~= old(tabs)@.update(i as int, Tab { is_transient: false, ..old(tabs)@[i as int] }));
        },
        None => {},
    }
}

/// At most one tab of each singleton type is open.
pub open spec fn singletons_unique(tabs: Seq<Tab>) -> bool {
    forall|i: int, j: int|
        0 <= i < j < tabs.len() && #[trigger] tabs[i].tab_type == #[trigger] tabs[j].tab_type
            ==> !is_singleton_type(tabs[i].tab_type)
}

/// Law: opening a tab keeps every singleton type at most once in the bar.
pub proof fn law_open_keeps_singletons_unique(tabs: Seq<Tab>, new_tab: Tab)
    requires
        singletons_unique(tabs),
    ensures
        singletons_unique(open_spec(tabs, new_tab).0),
{
    lemma_first_of_type_bounds(tabs, new_tab.tab_type, 0);
    lemma_first_transient_bounds(tabs, new_tab.tab_type, 0);
    let r = open_spec(tabs, new_tab).0;
    assert forall|i: int, j: int|
        0 <= i < j < r.len() && #[trigger] r[i].tab_type == #[trigger] r[j].tab_type implies !is_singleton_type(
        r[i].tab_type) by {
        if is_singleton_type(new_tab.tab_type) && first_of_type(tabs, new_tab.tab_type, 0) is Some {
        } else if new_tab.is_transient && first_transient_of_type(tabs, new_tab.tab_type, 0) is Some {
            let k = first_transient_of_type(tabs, new_tab.tab_type, 0).unwrap();
            assert(tabs[k].tab_type == new_tab.tab_type) by {
                lemma_first_transient_type(tabs, new_tab.tab_type, 0);
            }
            if i == k {
                assert(tabs[i].tab_type == tabs[j].tab_type);
            } else if j == k {
                assert(tabs[i].tab_type == tabs[j].tab_type);
            }
        } else {
            if j == tabs.len() {
                assert(tabs[i].tab_type == new_tab.tab_type);
            }
        }
    }
}

proof fn lemma_first_transient_type(tabs: Seq<Tab>, t: TabType, i: int)
    ensures
        first_transient_of_type(tabs, t, i) matches Some(k) ==> tabs[k].tab_type == t && tabs[k].is_transient,
    decreases tabs.len() - i,
{
    if 0 <= i < tabs.len() && !(tabs[i].tab_type == t && tabs[i].is_transient) {
        lemma_first_transient_type(tabs, t, i + 1);
    }
}

/// Law: closing or pinning a tab keeps every singleton type at most once.
pub proof fn law_close_pin_keep_singletons_unique(tabs: Seq<Tab>, id: Seq<char>)
    requires
        singletons_unique(tabs),
    ensures
        singletons_unique(close_spec(tabs, id).0),
        singletons_unique(pin_spec(tabs, id)),
{
    lemma_first_with_id_bounds(tabs, id, 0);
    match first_with_id(tabs, id, 0) {
        Some(pos) => {
            let r = tabs.remove(pos);
            assert forall|i: int, j: int|
                0 <= i < j < r.len() && #[trigger] r[i].tab_type == #[trigger] r[j].tab_type implies !is_singleton_type(
                r[i].tab_type) by {
                let a = if i < pos { i } else { i + 1 };
                let b = if j < pos { j } else { j + 1 };
                assert(r[i] == tabs[a] && r[j] == tabs[b]);
            }
            let p = pin_spec(tabs, id);
            assert forall|i: int, j: int|
                0 <= i < j < p.len() && #[trigger] p[i].tab_type == #[trigger] p[j].tab_type implies !is_singleton_type(
                p[i].tab_type) by {
                assert(p[i].tab_type == tabs[i].tab_type && p[j].tab_type == tabs[j].tab_type);
            }
        },
        None => {},
    }
}

/// Law: a tab opened and then closed by its id, when no open tab had that
/// id and it did not merely focus an existing singleton, leaves the bar as
/// it was, provided it was appended.
pub proof fn law_open_then_close(tabs: Seq<Tab>, new_tab: Tab)
    requires
        first_with_id(tabs, new_tab.id@, 0) is None,
        !(is_singleton_type(new_tab.tab_type) && first_of_type(tabs, new_tab.tab_type, 0) is Some),
        !(new_tab.is_transient && first_transient_of_type(tabs, new_tab.tab_type, 0) is Some),
    ensures
        close_spec(open_spec(tabs, new_tab).0, new_tab.id@).0 == tabs,
{
    lemma_first_with_id_bounds(tabs, new_tab.id@, 0);
    let r = tabs.push(new_tab);
    lemma_first_with_id_bounds(r, new_tab.id@, 0);
    assert(first_with_id(r, new_tab.id@, 0) == Some(tabs.len() as int)) by {
        let k = first_with_id(r, new_tab.id@, 0);
        if k is None {
            assert(r[tabs.len() as int].id@ == new_tab.id@);
        } else {
            let kk = k.unwrap();
            if kk < tabs.len() {
                assert(r[kk] == tabs[kk]);
            }
        }
    }
    assert(r.remove(tabs.len() as int) =~= tabs);
}

/// Law: the tab at the index that opening returns has the opened type.
pub proof fn law_open_focuses_type(tabs: Seq<Tab>, new_tab: Tab)
    ensures
        ({
            let (r, i) = open_spec(tabs, new_tab);
            0 <= i < r.len() && r[i].tab_type == new_tab.tab_type
        }),
{
    lemma_first_of_type_bounds(tabs, new_tab.tab_type, 0);
    lemma_first_transient_bounds(tabs, new_tab.tab_type, 0);
}

} // verus!
