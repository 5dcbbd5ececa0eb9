//! The editable menu tree and its path operations.
//!
//! A menu is a forest of nodes; a node is addressed by a path, the sequence
//! of child indexes that leads to it from the top level. Every operation is
//! stated over the ghost view of the forest, `Seq<MenuNodeV>`.

use vstd::prelude::*;

verus! {

/// The kind of a menu entry.
#[derive(Debug, Clone, Copy, PartialEq, Eq, Structural)]
pub enum MenuItemKind {
    Home,
    Page,
    Submenu,
    CategoryArchive,
}

/// One entry of the menu being edited.
#[derive(Debug)]
pub struct MenuNode {
    pub id: String,
    pub kind: MenuItemKind,
    pub label: String,
    pub slug: Option<String>,
    pub children: Vec<MenuNode>,
}

/// The mathematical value of a menu entry.
pub ghost struct MenuNodeV {
    pub id: Seq<char>,
    pub kind: MenuItemKind,
    pub label: Seq<char>,
    pub slug: Option<Seq<char>>,
    pub children: Seq<MenuNodeV>,
}

/// The view of an optional string.
pub open spec fn opt_view(s: Option<String>) -> Option<Seq<char>> {
    match s {
        Some(v) => Some(v@),
        None => None,
    }
}

impl MenuNode {
    pub open spec fn view_node(self) -> MenuNodeV
        decreases self,
    {
        MenuNodeV {
            id: self.id@,
            kind: self.kind,
            label: self.label@,
            slug: opt_view(self.slug),
            children: forest_view(self.children@),
        }
    }
}

/// The view of a sequence of nodes.
pub open spec fn forest_view(nodes: Seq<MenuNode>) -> Seq<MenuNodeV>
    decreases nodes,
{
    if nodes.len() == 0 {
        Seq::empty()
    } else {
        forest_view(nodes.drop_last()).push(nodes.last().view_node())
    }
}

/// A menu entry as the project's menu file stores it: without an editor id.
#[derive(Debug)]
pub struct MenuItem {
    pub kind: MenuItemKind,
    pub label: String,
    pub slug: Option<String>,
    pub children: Vec<MenuItem>,
}

/// The mathematical value of a stored menu entry.
pub ghost struct MenuItemV {
    pub kind: MenuItemKind,
    pub label: Seq<char>,
    pub slug: Option<Seq<char>>,
    pub children: Seq<MenuItemV>,
}

impl MenuItem {
    pub open spec fn view_item(self) -> MenuItemV
        decreases self,
    {
        MenuItemV {
            kind: self.kind,
            label: self.label@,
            slug: opt_view(self.slug),
            children: items_view(self.children@),
        }
    }
}

/// The view of a sequence of stored entries.
pub open spec fn items_view(items: Seq<MenuItem>) -> Seq<MenuItemV>
    decreases items,
{
    if items.len() == 0 {
        Seq::empty()
    } else {
        items_view(items.drop_last()).push(items.last().view_item())
    }
}

/// A node without its id (and its children without theirs).
pub open spec fn strip_ids(n: MenuNodeV) -> MenuItemV
    decreases n,
{
    MenuItemV { kind: n.kind, label: n.label, slug: n.slug, children: strip_forest(n.children) }
}

/// Nodes without their ids.
pub open spec fn strip_forest(f: Seq<MenuNodeV>) -> Seq<MenuItemV>
    decreases f,
{
    if f.len() == 0 {
        Seq::empty()
    } else {
        strip_forest(f.drop_last()).push(strip_ids(f.last()))
    }
}

} // verus!

verus! {

/// `forest_view` keeps the length and views each node in place.
pub proof fn lemma_forest_view(nodes: Seq<MenuNode>)
    ensures
        forest_view(nodes).len() == nodes.len(),
        forall|i: int| 0 <= i < nodes.len() ==> #[trigger] forest_view(nodes)[i] == nodes[i].view_node(),
    decreases nodes.len(),
{
    if nodes.len() > 0 {
        lemma_forest_view(nodes.drop_last());
    }
}


pub proof fn lemma_forest_view_insert(s: Seq<MenuNode>, i: int, x: MenuNode)
    requires
        0 <= i <= s.len(),
    ensures
        forest_view(s.insert(i, x)) == forest_view(s).insert(i, x.view_node()),
{
    lemma_forest_view(s);
    lemma_forest_view(s.insert(i, x));
    assert(forest_view(s.insert(i, x)) =~= forest_view(s).insert(i, x.view_node()));
}

pub proof fn lemma_forest_view_remove(s: Seq<MenuNode>, i: int)
    requires
        0 <= i < s.len(),
    ensures
        forest_view(s.remove(i)) == forest_view(s).remove(i),
{
    lemma_forest_view(s);
    lemma_forest_view(s.remove(i));
    assert(forest_view(s.remove(i)) =~= forest_view(s).remove(i));
}


// ---------------------------------------------------------------------------
// Paths
// ---------------------------------------------------------------------------

/// The node that `path` leads to, if any.
pub open spec fn node_at(f: Seq<MenuNodeV>, path: Seq<usize>) -> Option<MenuNodeV>
    decreases path.len(),
{
    if path.len() == 0 || path[0] >= f.len() {
        None
    } else if path.len() == 1 {
        Some(f[path[0] as int])
    } else {
        node_at(f[path[0] as int].children, path.drop_first())
    }
}

/// The sibling list that a node with parent path `parent` belongs to:
/// the top level for the empty path, else the children of the parent.
pub open spec fn children_at(f: Seq<MenuNodeV>, parent: Seq<usize>) -> Option<Seq<MenuNodeV>> {
    if parent.len() == 0 {
        Some(f)
    } else {
        match node_at(f, parent) {
            Some(n) => Some(n.children),
            None => None,
        }
    }
}

/// `f` with the sibling list under `parent` replaced by `c`
/// (unchanged when `parent` leads nowhere).
pub open spec fn replace_children(f: Seq<MenuNodeV>, parent: Seq<usize>, c: Seq<MenuNodeV>) -> Seq<MenuNodeV>
    decreases parent.len(),
{
    if parent.len() == 0 {
        c
    } else if parent[0] >= f.len() {
        f
    } else {
        let n = f[parent[0] as int];
        f.update(
            parent[0] as int,
            MenuNodeV { children: replace_children(n.children, parent.drop_first(), c), ..n },
        )
    }
}

/// The smaller of two integers.
pub open spec fn min_int(a: int, b: int) -> int {
    if a < b { a } else { b }
}

/// `f` with `item` inserted at position `index` (clamped to the end) of the
/// sibling list under `parent`; unchanged when `parent` leads nowhere.
pub open spec fn insert_spec(f: Seq<MenuNodeV>, parent: Seq<usize>, index: int, item: MenuNodeV) -> Seq<MenuNodeV> {
    match children_at(f, parent) {
        Some(cs) => replace_children(f, parent, cs.insert(min_int(index, cs.len() as int), item)),
        None => f,
    }
}

/// `f` with the node at `path` taken out, and that node; `f` and `None`
/// when `path` leads nowhere.
pub open spec fn remove_spec(f: Seq<MenuNodeV>, path: Seq<usize>) -> (Seq<MenuNodeV>, Option<MenuNodeV>) {
    if path.len() == 0 {
        (f, None)
    } else {
        let parent = path.drop_last();
        let index = path.last() as int;
        match children_at(f, parent) {
            Some(cs) => if index < cs.len() {
                (replace_children(f, parent, cs.remove(index)), Some(cs[index]))
            } else {
                (f, None)
            },
            None => (f, None),
        }
    }
}

/// `f` with the node at `path` given a new kind, label and slug, its id and
/// children kept.
pub open spec fn relabel_spec(
    f: Seq<MenuNodeV>,
    path: Seq<usize>,
    kind: MenuItemKind,
    label: Seq<char>,
    slug: Option<Seq<char>>,
) -> Seq<MenuNodeV> {
    if path.len() == 0 {
        f
    } else {
        let parent = path.drop_last();
        let index = path.last() as int;
        match children_at(f, parent) {
            Some(cs) => if index < cs.len() {
                replace_children(
                    f,
                    parent,
                    cs.update(index, MenuNodeV { kind: kind, label: label, slug: slug, ..cs[index] }),
                )
            } else {
                f
            },
            None => f,
        }
    }
}

/// The first path, in pre-order, among the subtrees `f[i..]`, of a node
/// whose id is `id`.
pub open spec fn find_from(f: Seq<MenuNodeV>, id: Seq<char>, i: int) -> Option<Seq<usize>>
    decreases f, f.len() - i,
{
    if i < 0 || i >= f.len() || i > usize::MAX {
        None
    } else if f[i].id == id {
        Some(seq![i as usize])
    } else {
        match find_from(f[i].children, id, 0) {
            Some(p) => Some(seq![i as usize] + p),
            None => find_from(f, id, i + 1),
        }
    }
}

/// The path of the first node, in pre-order, whose id is `id`.
pub open spec fn find_spec(f: Seq<MenuNodeV>, id: Seq<char>) -> Option<Seq<usize>> {
    find_from(f, id, 0)
}

pub proof fn lemma_children_at_step(f: Seq<MenuNodeV>, parent: Seq<usize>)
    requires
        parent.len() > 0,
    ensures
        children_at(f, parent) == (if parent[0] >= f.len() {
            None
        } else {
            children_at(f[parent[0] as int].children, parent.drop_first())
        }),
{
    if parent.len() > 1 && parent[0] < f.len() {
        let rest = parent.drop_first();
        assert(node_at(f, parent) == node_at(f[parent[0] as int].children, rest));
    }
}

} // verus!

verus! {

/// `p` followed by `q`, as a new vector.
fn prepend_index(i: usize, q: Vec<usize>) -> (res: Vec<usize>)
    ensures
        res@ == seq![i] + q@,
{
    let mut res: Vec<usize> = Vec::new();
    res.push(i);
    let mut k: usize = 0;
    while k < q.len()
        invariant
            k <= q@.len(),
            res@ == seq![i] + q@.take(k as int),
        decreases q@.len() - k,
    {
        res.push(q[k]);
        k = k + 1;
        assert(q@.take(k as int) == q@.take((k - 1) as int).push(q@[k - 1]));
    }
    assert(q@.take(q@.len() as int) =~= q@);
    res
}

/// The path of the first node, in pre-order, whose id is `id`.
pub fn find_path(items: &Vec<MenuNode>, id: &str) -> (res: Option<Vec<usize>>)
    ensures
        match res {
            Some(p) => find_spec(forest_view(items@), id@) == Some(p@),
            None => find_spec(forest_view(items@), id@) is None,
        },
    decreases items@,
{
    let ghost f = forest_view(items@);
    proof {
        lemma_forest_view(items@);
    }
    let mut i: usize = 0;
    while i < items.len()
        invariant
            f == forest_view(items@),
            f.len() == items@.len(),
            i <= items@.len(),
            find_from(f, id@, 0) == find_from(f, id@, i as int),
        decreases items@.len() - i,
    {
        proof {
            lemma_forest_view(items@);
        }
        assert(f[i as int] == items@[i as int].view_node());
        if crate::text::str_eq(items[i].id.as_str(), id) {
            return Some(vec![i]);
        }
        match find_path(&items[i].children, id) {
            Some(p) => {
                return Some(prepend_index(i, p));
            },
            None => {},
        }
        i = i + 1;
    }
    None
}

/// The node that `path` leads to, if any.
pub fn item_at<'a>(items: &'a Vec<MenuNode>, path: &Vec<usize>) -> (res: Option<&'a MenuNode>)
    ensures
        match res {
            Some(n) => node_at(forest_view(items@), path@) == Some(n.view_node()),
            None => node_at(forest_view(items@), path@) is None,
        },
{
    assert(path@.skip(0) =~= path@);
    item_at_from(items, path, 0)
}

fn item_at_from<'a>(items: &'a Vec<MenuNode>, path: &Vec<usize>, depth: usize) -> (res: Option<&'a MenuNode>)
    requires
        depth <= path@.len(),
    ensures
        match res {
            Some(n) => node_at(forest_view(items@), path@.skip(depth as int)) == Some(n.view_node()),
            None => node_at(forest_view(items@), path@.skip(depth as int)) is None,
        },
    decreases path@.len() - depth,
{
    proof {
        lemma_forest_view(items@);
    }
    let ghost rest = path@.skip(depth as int);
    if depth >= path.len() {
        return None;
    }
    let i = path[depth];
    if i >= items.len() {
        return None;
    }
    assert(rest[0] == i);
    if depth + 1 == path.len() {
        return Some(&items[i]);
    }
    assert(rest.drop_first() =~= path@.skip(depth + 1));
    item_at_from(&items[i].children, path, depth + 1)
}

/// Inserts `item` at position `index` (clamped to the end) of the sibling
/// list under `parent`; does nothing when `parent` leads nowhere.
pub fn insert_at(items: &mut Vec<MenuNode>, parent: &Vec<usize>, index: usize, item: MenuNode)
    ensures
        forest_view(final(items)@) == insert_spec(forest_view(old(items)@), parent@, index as int, item.view_node()),
{
    assert(parent@.skip(0) =~= parent@);
    insert_at_from(items, parent, 0, index, item);
}

fn insert_at_from(items: &mut Vec<MenuNode>, parent: &Vec<usize>, depth: usize, index: usize, item: MenuNode)
    requires
        depth <= parent@.len(),
    ensures
        forest_view(final(items)@) == insert_spec(
            forest_view(old(items)@),
            parent@.skip(depth as int),
            index as int,
            item.view_node(),
        ),
    decreases parent@.len() - depth,
{
    let ghost f = forest_view(items@);
    let ghost p = parent@.skip(depth as int);
    proof {
        lemma_forest_view(items@);
    }
    if depth >= parent.len() {
        let at = if index < items.len() { index } else { items.len() };
        proof {
            lemma_forest_view_insert(items@, at as int, item);
        }
        items.insert(at, item);
        return;
    }
    let i = parent[depth];
    proof {
        lemma_children_at_step(f, p);
    }
    if i >= items.len() {
        return;
    }
    assert(p.drop_first() =~= parent@.skip(depth + 1));
    let mut node = items.remove(i);
    let ghost old_node = node;
    let ghost removed = items@;
    insert_at_from(&mut node.children, parent, depth + 1, index, item);
    proof {
        lemma_forest_view_insert(removed, i as int, node);
        assert(removed.insert(i as int, old_node) =~= old(items)@);
        lemma_forest_view_insert(removed, i as int, old_node);
        lemma_forest_view_remove(old(items)@, i as int);
        let cs = children_at(f[i as int].children, p.drop_first());
        assert(f[i as int] == old_node.view_node());
        assert(node.view_node() == MenuNodeV {
            children: forest_view(node.children@),
            ..old_node.view_node()
        });
        match children_at(f, p) {
            Some(c) => {
                assert(forest_view(removed).insert(i as int, node.view_node()) =~= f.update(
                    i as int,
                    MenuNodeV {
                        children: replace_children(
                            f[i as int].children,
                            p.drop_first(),
                            c.insert(min_int(index as int, c.len() as int), item.view_node()),
                        ),
                        ..f[i as int]
                    },
                ));
            },
            None => {
                assert(forest_view(removed).insert(i as int, node.view_node()) =~= f);
            },
        }
    }
    items.insert(i, node);
}

} // verus!

verus! {

pub proof fn lemma_remove_step(f: Seq<MenuNodeV>, p: Seq<usize>)
    requires
        p.len() >= 2,
    ensures
        remove_spec(f, p) == (if p[0] >= f.len() {
            (f, None)
        } else {
            let r = remove_spec(f[p[0] as int].children, p.drop_first());
            (f.update(p[0] as int, MenuNodeV { children: r.0, ..f[p[0] as int] }), r.1)
        }),
{
    let parent = p.drop_last();
    lemma_children_at_step(f, parent);
    assert(parent[0] == p[0]);
    assert(parent.drop_first() =~= p.drop_first().drop_last());
    assert(p.drop_first().last() == p.last());
    if p[0] < f.len() {
        let n = f[p[0] as int];
        assert(f.update(p[0] as int, MenuNodeV { children: n.children, ..n }) =~= f);
    }
}

pub proof fn lemma_relabel_step(
    f: Seq<MenuNodeV>,
    p: Seq<usize>,
    kind: MenuItemKind,
    label: Seq<char>,
    slug: Option<Seq<char>>,
)
    requires
        p.len() >= 2,
    ensures
        relabel_spec(f, p, kind, label, slug) == (if p[0] >= f.len() {
            f
        } else {
            f.update(
                p[0] as int,
                MenuNodeV {
                    children: relabel_spec(f[p[0] as int].children, p.drop_first(), kind, label, slug),
                    ..f[p[0] as int]
                },
            )
        }),
{
    let parent = p.drop_last();
    lemma_children_at_step(f, parent);
    assert(parent[0] == p[0]);
    assert(parent.drop_first() =~= p.drop_first().drop_last());
    assert(p.drop_first().last() == p.last());
    if p[0] < f.len() {
        let n = f[p[0] as int];
        assert(f.update(p[0] as int, MenuNodeV { children: n.children, ..n }) =~= f);
    }
}

/// Takes out the node at `path`; `None`, with nothing changed, when `path`
/// leads nowhere.
pub fn remove_at(items: &mut Vec<MenuNode>, path: &Vec<usize>) -> (res: Option<MenuNode>)
    ensures
        forest_view(final(items)@) == remove_spec(forest_view(old(items)@), path@).0,
        match res {
            Some(n) => remove_spec(forest_view(old(items)@), path@).1 == Some(n.view_node()),
            None => remove_spec(forest_view(old(items)@), path@).1 is None,
        },
{
    if path.len() == 0 {
        return None;
    }
    assert(path@.skip(0) =~= path@);
    remove_at_from(items, path, 0)
}

fn remove_at_from(items: &mut Vec<MenuNode>, path: &Vec<usize>, depth: usize) -> (res: Option<MenuNode>)
    requires
        depth < path.len(),
    ensures
        forest_view(final(items)@) == remove_spec(forest_view(old(items)@), path@.skip(depth as int)).0,
        match res {
            Some(n) => remove_spec(forest_view(old(items)@), path@.skip(depth as int)).1 == Some(n.view_node()),
            None => remove_spec(forest_view(old(items)@), path@.skip(depth as int)).1 is None,
        },
    decreases path@.len() - depth,
{
    let ghost f = forest_view(items@);
    let ghost p = path@.skip(depth as int);
    proof {
        lemma_forest_view(items@);
    }
    let i = path[depth];
    if depth + 1 == path.len() {
        assert(p.drop_last() =~= Seq::<usize>::empty());
        if i < items.len() {
            proof {
                lemma_forest_view_remove(items@, i as int);
            }
            let n = items.remove(i);
            return Some(n);
        }
        return None;
    }
    proof {
        lemma_remove_step(f, p);
    }
    if i >= items.len() {
        return None;
    }
    assert(p.drop_first() =~= path@.skip(depth + 1));
    let mut node = items.remove(i);
    let ghost old_node = node;
    let ghost removed = items@;
    let r = remove_at_from(&mut node.children, path, depth + 1);
    proof {
        lemma_forest_view_insert(removed, i as int, node);
        assert(removed.insert(i as int, old_node) =~= old(items)@);
        lemma_forest_view_insert(removed, i as int, old_node);
        lemma_forest_view_remove(old(items)@, i as int);
        assert(f[i as int] == old_node.view_node());
        assert(node.view_node() == MenuNodeV {
            children: forest_view(node.children@),
            ..old_node.view_node()
        });
        assert(forest_view(removed).insert(i as int, node.view_node()) =~= f.update(
            i as int,
            MenuNodeV { children: forest_view(node.children@), ..f[i as int] },
        ));
    }
    items.insert(i, node);
    r
}

/// Gives the node at `path` a new kind, label and slug; does nothing when
/// `path` leads nowhere. Returns whether a node was changed.
pub fn relabel_at(
    items: &mut Vec<MenuNode>,
    path: &Vec<usize>,
    kind: MenuItemKind,
    label: String,
    slug: Option<String>,
) -> (res: bool)
    ensures
        forest_view(final(items)@) == relabel_spec(forest_view(old(items)@), path@, kind, label@, opt_view(slug)),
        res == (node_at(forest_view(old(items)@), path@) is Some),
{
    if path.len() == 0 {
        return false;
    }
    assert(path@.skip(0) =~= path@);
    relabel_at_from(items, path, 0, kind, label, slug)
}

fn relabel_at_from(
    items: &mut Vec<MenuNode>,
    path: &Vec<usize>,
    depth: usize,
    kind: MenuItemKind,
    label: String,
    slug: Option<String>,
) -> (res: bool)
    requires
        depth < path.len(),
    ensures
        forest_view(final(items)@) == relabel_spec(
            forest_view(old(items)@),
            path@.skip(depth as int),
            kind,
            label@,
            opt_view(slug),
        ),
        res == (node_at(forest_view(old(items)@), path@.skip(depth as int)) is Some),
    decreases path@.len() - depth,
{
    let ghost f = forest_view(items@);
    let ghost p = path@.skip(depth as int);
    proof {
        lemma_forest_view(items@);
    }
    let i = path[depth];
    if depth + 1 == path.len() {
        assert(p.drop_last() =~= Seq::<usize>::empty());
        if i < items.len() {
            let mut node = items.remove(i);
            let ghost old_node = node;
            let ghost removed = items@;
            node.kind = kind;
            node.label = label;
            node.slug = slug;
            proof {
                lemma_forest_view_insert(removed, i as int, node);
                assert(removed.insert(i as int, old_node) =~= old(items)@);
                lemma_forest_view_insert(removed, i as int, old_node);
                lemma_forest_view_remove(old(items)@, i as int);
                assert(forest_view(removed).insert(i as int, node.view_node()) =~= f.update(
                    i as int,
                    node.view_node(),
                ));
            }
            items.insert(i, node);
            return true;
        }
        return false;
    }
    proof {
        lemma_relabel_step(f, p, kind, label@, opt_view(slug));
    }
    if i >= items.len() {
        return false;
    }
    assert(p.drop_first() =~= path@.skip(depth + 1));
    let mut node = items.remove(i);
    let ghost old_node = node;
    let ghost removed = items@;
    let r = relabel_at_from(&mut node.children, path, depth + 1, kind, label, slug);
    proof {
        lemma_forest_view_insert(removed, i as int, node);
        assert(removed.insert(i as int, old_node) =~= old(items)@);
        lemma_forest_view_insert(removed, i as int, old_node);
        lemma_forest_view_remove(old(items)@, i as int);
        assert(f[i as int] == old_node.view_node());
        assert(node.view_node() == MenuNodeV {
            children: forest_view(node.children@),
            ..old_node.view_node()
        });
        assert(forest_view(removed).insert(i as int, node.view_node()) =~= f.update(
            i as int,
            MenuNodeV { children: forest_view(node.children@), ..f[i as int] },
        ));
    }
    items.insert(i, node);
    r
}

} // verus!

verus! {

/// Replacing a sibling list that exists makes it the list found there.
pub proof fn lemma_children_after_replace(f: Seq<MenuNodeV>, parent: Seq<usize>, c: Seq<MenuNodeV>)
    requires
        children_at(f, parent) is Some,
    ensures
        children_at(replace_children(f, parent, c), parent) == Some(c),
    decreases parent.len(),
{
    if parent.len() > 0 {
        lemma_children_at_step(f, parent);
        let g = replace_children(f, parent, c);
        lemma_children_at_step(g, parent);
        lemma_children_after_replace(f[parent[0] as int].children, parent.drop_first(), c);
    }
}

/// A second replacement of the same sibling list overrides the first.
pub proof fn lemma_replace_twice(f: Seq<MenuNodeV>, parent: Seq<usize>, c1: Seq<MenuNodeV>, c2: Seq<MenuNodeV>)
    ensures
        replace_children(replace_children(f, parent, c1), parent, c2) == replace_children(f, parent, c2),
    decreases parent.len(),
{
    if parent.len() > 0 && parent[0] < f.len() {
        let i = parent[0] as int;
        lemma_replace_twice(f[i].children, parent.drop_first(), c1, c2);
        let g = replace_children(f, parent, c1);
        assert(g[i].children == replace_children(f[i].children, parent.drop_first(), c1));
        assert(replace_children(g, parent, c2) =~= replace_children(f, parent, c2));
    }
}

/// Putting back the sibling list that is already there changes nothing.
pub proof fn lemma_replace_same(f: Seq<MenuNodeV>, parent: Seq<usize>)
    requires
        children_at(f, parent) is Some,
    ensures
        replace_children(f, parent, children_at(f, parent).unwrap()) == f,
    decreases parent.len(),
{
    if parent.len() > 0 {
        lemma_children_at_step(f, parent);
        let i = parent[0] as int;
        lemma_replace_same(f[i].children, parent.drop_first());
        assert(replace_children(f, parent, children_at(f, parent).unwrap()) =~= f);
    }
}

/// The node at `parent + [i]` is entry `i` of the sibling list under `parent`.
pub proof fn lemma_node_at_child(f: Seq<MenuNodeV>, parent: Seq<usize>, i: usize)
    ensures
        node_at(f, parent.push(i)) == (match children_at(f, parent) {
            Some(cs) => if i < cs.len() { Some(cs[i as int]) } else { None },
            None => None,
        }),
    decreases parent.len(),
{
    if parent.len() > 0 {
        lemma_children_at_step(f, parent);
        if parent[0] < f.len() {
            assert(parent.push(i).drop_first() =~= parent.drop_first().push(i));
            lemma_node_at_child(f[parent[0] as int].children, parent.drop_first(), i);
        }
    }
}

/// `cs` with entries `a` and `b` exchanged.
pub open spec fn swap_seq(cs: Seq<MenuNodeV>, a: int, b: int) -> Seq<MenuNodeV> {
    cs.update(a, cs[b]).update(b, cs[a])
}

/// Exchanges the node at `parent + [index]` with its sibling at
/// `parent + [target]`, where `target` is next to `index`.
pub fn swap_adjacent(items: &mut Vec<MenuNode>, parent: &Vec<usize>, index: usize, target: usize)
    requires
        children_at(forest_view(old(items)@), parent@) is Some,
        index < children_at(forest_view(old(items)@), parent@).unwrap().len(),
        target < children_at(forest_view(old(items)@), parent@).unwrap().len(),
        target + 1 == index || index + 1 == target,
    ensures
        forest_view(final(items)@) == replace_children(
            forest_view(old(items)@),
            parent@,
            swap_seq(children_at(forest_view(old(items)@), parent@).unwrap(), index as int, target as int),
        ),
{
    let ghost f = forest_view(items@);
    let ghost cs = children_at(f, parent@).unwrap();
    let mut path = parent.clone();
    assert(path@ == parent@);
    path.push(index);
    proof {
        assert(path@.drop_last() =~= parent@);
    }
    let removed = remove_at(items, &path);
    let ghost g = forest_view(items@);
    proof {
        lemma_children_after_replace(f, parent@, cs.remove(index as int));
    }
    match removed {
        Some(node) => {
            insert_at(items, parent, target, node);
            proof {
                let c1 = cs.remove(index as int);
                assert(min_int(target as int, c1.len() as int) == target);
                lemma_replace_twice(f, parent@, c1, c1.insert(target as int, node.view_node()));
                assert(c1.insert(target as int, node.view_node()) =~= swap_seq(cs, index as int, target as int));
            }
        },
        None => {
            assert(false);
        },
    }
}

} // verus!

verus! {

/// A path found by `find_from` leads to a node with the searched id.
pub proof fn lemma_find_sound(f: Seq<MenuNodeV>, id: Seq<char>, i: int)
    requires
        find_from(f, id, i) is Some,
    ensures
        find_from(f, id, i).unwrap().len() >= 1,
        node_at(f, find_from(f, id, i).unwrap()) is Some,
        node_at(f, find_from(f, id, i).unwrap()).unwrap().id == id,
    decreases f, f.len() - i,
{
    if 0 <= i < f.len() && i <= usize::MAX && f[i].id != id {
        match find_from(f[i].children, id, 0) {
            Some(p) => {
                lemma_find_sound(f[i].children, id, 0);
                let q = seq![i as usize] + p;
                assert(q.drop_first() =~= p);
                assert(q[0] == i as usize);
            },
            None => {
                lemma_find_sound(f, id, i + 1);
            },
        }
    }
}

/// The sibling list of a node that a path leads to exists and holds it.
pub proof fn lemma_path_parent(f: Seq<MenuNodeV>, path: Seq<usize>)
    requires
        path.len() >= 1,
        node_at(f, path) is Some,
    ensures
        children_at(f, path.drop_last()) is Some,
        path.last() < children_at(f, path.drop_last()).unwrap().len(),
        children_at(f, path.drop_last()).unwrap()[path.last() as int] == node_at(f, path).unwrap(),
{
    lemma_node_at_child(f, path.drop_last(), path.last());
    assert(path.drop_last().push(path.last()) =~= path);
}

/// Entries before a removed sibling keep their paths.
pub proof fn lemma_node_before_removed(f: Seq<MenuNodeV>, parent: Seq<usize>, i: usize, j: usize)
    requires
        j < i,
        node_at(f, parent.push(i)) is Some,
    ensures
        node_at(remove_spec(f, parent.push(i)).0, parent.push(j)) == node_at(f, parent.push(j)),
{
    let p = parent.push(i);
    assert(p.drop_last() =~= parent);
    lemma_node_at_child(f, parent, i);
    lemma_node_at_child(f, parent, j);
    let cs = children_at(f, parent).unwrap();
    lemma_children_after_replace(f, parent, cs.remove(i as int));
    lemma_node_at_child(remove_spec(f, p).0, parent, j);
}

/// `f` with `item` appended to the sibling list under `parent`.
pub open spec fn append_spec(f: Seq<MenuNodeV>, parent: Seq<usize>, item: MenuNodeV) -> Seq<MenuNodeV> {
    match children_at(f, parent) {
        Some(cs) => replace_children(f, parent, cs.push(item)),
        None => f,
    }
}

} // verus!

verus! {

/// The length of the sibling list under `parent`, if it exists.
pub fn children_len(items: &Vec<MenuNode>, parent: &Vec<usize>) -> (res: Option<usize>)
    ensures
        match res {
            Some(n) => children_at(forest_view(items@), parent@) is Some && n == children_at(
                forest_view(items@),
                parent@,
            ).unwrap().len(),
            None => children_at(forest_view(items@), parent@) is None,
        },
{
    if parent.len() == 0 {
        proof {
            lemma_forest_view(items@);
        }
        return Some(items.len());
    }
    match item_at(items, parent) {
        Some(n) => {
            proof {
                lemma_forest_view(n.children@);
            }
            Some(n.children.len())
        },
        None => None,
    }
}

/// `path` without its last index.
pub fn parent_of(path: &Vec<usize>) -> (res: Vec<usize>)
    requires
        path@.len() >= 1,
    ensures
        res@ == path@.drop_last(),
{
    let mut res: Vec<usize> = Vec::new();
    let mut k: usize = 0;
    let n: usize = path.len() - 1;
    while k < n
        invariant
            n + 1 == path@.len(),
            k <= n,
            res@ == path@.take(k as int),
        decreases path@.len() - k,
    {
        res.push(path[k]);
        k = k + 1;
        assert(path@.take(k as int) == path@.take((k - 1) as int).push(path@[k - 1]));
    }
    assert(path@.take(k as int) =~= path@.drop_last());
    res
}

/// Whether `prefix` is a prefix of `path` (`path.starts_with(prefix)`).
pub fn path_starts_with(path: &Vec<usize>, prefix: &Vec<usize>) -> (res: bool)
    ensures
        res == (prefix@.len() <= path@.len() && path@.take(prefix@.len() as int) == prefix@),
{
    if prefix.len() > path.len() {
        return false;
    }
    let mut k: usize = 0;
    while k < prefix.len()
        invariant
            prefix@.len() <= path@.len(),
            k <= prefix@.len(),
            forall|j: int| 0 <= j < k ==> path@[j] == prefix@[j],
        decreases prefix@.len() - k,
    {
        if path[k] != prefix[k] {
            assert(path@.take(prefix@.len() as int)[k as int] != prefix@[k as int]);
            return false;
        }
        k = k + 1;
    }
    assert(path@.take(prefix@.len() as int) =~= prefix@);
    true
}

} // verus!

verus! {

/// Law: taking a node out and inserting it back at the same place gives
/// back the menu.
pub proof fn law_remove_then_insert(f: Seq<MenuNodeV>, parent: Seq<usize>, i: usize)
    requires
        node_at(f, parent.push(i)) is Some,
    ensures
        ({
            let removed = remove_spec(f, parent.push(i));
            insert_spec(removed.0, parent, i as int, removed.1.unwrap()) == f
        }),
{
    let p = parent.push(i);
    assert(p.drop_last() =~= parent);
    lemma_node_at_child(f, parent, i);
    let cs = children_at(f, parent).unwrap();
    let c1 = cs.remove(i as int);
    lemma_children_after_replace(f, parent, c1);
    let t1 = replace_children(f, parent, c1);
    assert(min_int(i as int, c1.len() as int) == i);
    assert(c1.insert(i as int, cs[i as int]) =~= cs);
    lemma_replace_twice(f, parent, c1, cs);
    lemma_replace_same(f, parent);
}

/// Law: swapping two siblings and swapping them back gives back the menu.
pub proof fn law_swap_twice(f: Seq<MenuNodeV>, parent: Seq<usize>, i: int, j: int)
    requires
        children_at(f, parent) is Some,
        0 <= i < children_at(f, parent).unwrap().len(),
        0 <= j < children_at(f, parent).unwrap().len(),
    ensures
        ({
            let cs = children_at(f, parent).unwrap();
            let f1 = replace_children(f, parent, swap_seq(cs, i, j));
            &&& children_at(f1, parent) == Some(swap_seq(cs, i, j))
            &&& replace_children(f1, parent, swap_seq(swap_seq(cs, i, j), j, i)) == f
        }),
{
    let cs = children_at(f, parent).unwrap();
    lemma_children_after_replace(f, parent, swap_seq(cs, i, j));
    assert(swap_seq(swap_seq(cs, i, j), j, i) =~= cs);
    lemma_replace_twice(f, parent, swap_seq(cs, i, j), cs);
    lemma_replace_same(f, parent);
}

/// Law: indenting the entry at `parent + [i]` into the submenu just above it
/// and then unindenting it from its new place (the last child of that
/// submenu) gives back the menu.
pub proof fn law_indent_then_unindent(f: Seq<MenuNodeV>, parent: Seq<usize>, i: usize)
    requires
        i > 0,
        node_at(f, parent.push(i)) is Some,
        node_at(f, parent.push((i - 1) as usize)) is Some,
    ensures
        ({
            let path = parent.push(i);
            let preceding = parent.push((i - 1) as usize);
            let removed = remove_spec(f, path);
            let indented = append_spec(removed.0, preceding, removed.1.unwrap());
            let k = node_at(f, preceding).unwrap().children.len();
            let new_path = preceding.push(k as usize);
            let back = remove_spec(indented, new_path);
            &&& k <= usize::MAX ==> node_at(indented, new_path) == removed.1
            &&& k <= usize::MAX ==> insert_spec(back.0, new_path.drop_last().drop_last(), new_path.drop_last().last() + 1, back.1.unwrap()) == f
        }),
{
    let path = parent.push(i);
    let preceding = parent.push((i - 1) as usize);
    let removed = remove_spec(f, path);
    let t1 = removed.0;
    let item = removed.1.unwrap();
    lemma_node_before_removed(f, parent, i, (i - 1) as usize);
    assert(path.drop_last() =~= parent);
    lemma_node_at_child(f, parent, i);
    let ccs = node_at(f, preceding).unwrap().children;
    assert(children_at(t1, preceding) == Some(ccs));
    let indented = replace_children(t1, preceding, ccs.push(item));
    assert(append_spec(t1, preceding, item) == indented);
    let k = ccs.len();
    if k <= usize::MAX {
        let new_path = preceding.push(k as usize);
        assert(new_path.drop_last() =~= preceding);
        lemma_children_after_replace(t1, preceding, ccs.push(item));
        lemma_node_at_child(indented, preceding, k as usize);
        assert(ccs.push(item).remove(k as int) =~= ccs);
        lemma_replace_twice(t1, preceding, ccs.push(item), ccs);
        lemma_replace_same(t1, preceding);
        assert(remove_spec(indented, new_path).0 == t1);
        assert(preceding.drop_last() =~= parent);
        law_remove_then_insert(f, parent, i);
    }
}

} // verus!
