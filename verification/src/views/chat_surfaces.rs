//! Chat surfaces: the rows of a mind map, walked from its roots so that
//! cycles end and nodes that no root reaches are still shown; and the
//! grid of a heatmap chart.

use vstd::prelude::*;
use crate::text::{copy_str, str_eq, strs_view};

verus! {

/// A node of a mind map: an optional id, a label, and the ids of its
/// children.
#[derive(Debug, Clone)]
pub struct MindmapNode {
    pub id: Option<String>,
    pub label: String,
    pub children: Vec<String>,
}

/// The value of a node.
pub ghost struct NodeV {
    pub id: Option<Seq<char>>,
    pub label: Seq<char>,
    pub children: Seq<Seq<char>>,
}

/// The value of a node.
pub open spec fn node_view(n: MindmapNode) -> NodeV {
    NodeV {
        id: match n.id {
            Some(x) => Some(x@),
            None => None,
        },
        label: n.label@,
        children: strs_view(n.children@),
    }
}

/// The values of the nodes.
pub open spec fn nodes_view(ns: Seq<MindmapNode>) -> Seq<NodeV> {
    ns.map_values(|n: MindmapNode| node_view(n))
}

/// The rows' depths and labels.
pub open spec fn rows_view(rows: Seq<(usize, String)>) -> Seq<(int, Seq<char>)> {
    rows.map_values(|r: (usize, String)| (r.0 as int, r.1@))
}

/// The node a child id names: the last node with that id.
pub open spec fn node_of(ns: Seq<NodeV>, id: Seq<char>) -> Option<int>
    decreases ns.len(),
{
    if ns.len() == 0 {
        None
    } else if ns.last().id == Some(id) {
        Some(ns.len() - 1)
    } else {
        node_of(ns.drop_last(), id)
    }
}

/// Whether some node lists `id` as a child.
pub open spec fn is_child(ns: Seq<NodeV>, id: Seq<char>) -> bool {
    exists|k: int| 0 <= k < ns.len() && #[trigger] ns[k].children.contains(id)
}

/// A root: a node without an id, or one that no node lists as a child.
pub open spec fn is_root(ns: Seq<NodeV>, k: int) -> bool {
    match ns[k].id {
        None => true,
        Some(x) => !is_child(ns, x),
    }
}

/// The number of nodes whose id is not yet visited.
pub open spec fn count_unvisited(ns: Seq<NodeV>, visited: Seq<Seq<char>>) -> nat
    decreases ns.len(),
{
    if ns.len() == 0 {
        0
    } else {
        let rest = count_unvisited(ns.drop_last(), visited);
        match ns.last().id {
            Some(x) => if visited.contains(x) { rest } else { rest + 1 },
            None => rest,
        }
    }
}

/// Every id visited in `a` is visited in `b`.
pub open spec fn grows(a: Seq<Seq<char>>, b: Seq<Seq<char>>) -> bool {
    forall|x: Seq<char>| a.contains(x) ==> b.contains(x)
}

/// Visiting more ids leaves no more nodes unvisited.
pub proof fn lemma_count_monotone(ns: Seq<NodeV>, a: Seq<Seq<char>>, b: Seq<Seq<char>>)
    requires
        grows(a, b),
    ensures
        count_unvisited(ns, b) <= count_unvisited(ns, a),
    decreases ns.len(),
{
    if ns.len() > 0 {
        lemma_count_monotone(ns.drop_last(), a, b);
    }
}

/// Visiting the id of a node not yet visited leaves fewer nodes unvisited.
pub proof fn lemma_count_drops(ns: Seq<NodeV>, a: Seq<Seq<char>>, j: int, x: Seq<char>)
    requires
        0 <= j < ns.len(),
        ns[j].id == Some(x),
        !a.contains(x),
    ensures
        count_unvisited(ns, a.push(x)) < count_unvisited(ns, a),
    decreases ns.len(),
{
    let p = a.push(x);
    assert(grows(a, p)) by {
        assert forall|y: Seq<char>| a.contains(y) implies p.contains(y) by {
            let i = choose|i: int| 0 <= i < a.len() && a[i] == y;
            assert(p[i] == y);
        }
    }
    assert(p.contains(x)) by {
        assert(p[a.len() as int] == x);
    }
    if j == ns.len() - 1 {
        lemma_count_monotone(ns.drop_last(), a, p);
    } else {
        lemma_count_drops(ns.drop_last(), a, j, x);
        assert(ns.drop_last()[j] == ns[j]);
    }
}

/// No more nodes are unvisited than there are nodes.
pub proof fn lemma_count_bounded(ns: Seq<NodeV>, a: Seq<Seq<char>>)
    ensures
        count_unvisited(ns, a) <= ns.len(),
    decreases ns.len(),
{
    if ns.len() > 0 {
        lemma_count_bounded(ns.drop_last(), a);
    }
}

/// The rows for node `j` and what it reaches, its own id (if any) already
/// counted as visited: its row at `depth`, then its children's one level
/// deeper.
pub open spec fn visit_spec(ns: Seq<NodeV>, j: int, depth: int, visited: Seq<Seq<char>>) -> (Seq<(int, Seq<char>)>, Seq<Seq<char>>)
    decreases count_unvisited(ns, visited), 1int, 0int,
{
    if 0 <= j < ns.len() {
        let (rows, v) = children_spec(ns, j, 0, depth + 1, visited);
        (seq![(depth, ns[j].label)] + rows, v)
    } else {
        (Seq::empty(), visited)
    }
}

/// The rows for the children of node `j` from the `k`th on: each child id
/// that names a node not visited yet is visited, in order; other child ids
/// give nothing.
pub open spec fn children_spec(ns: Seq<NodeV>, j: int, k: int, depth: int, visited: Seq<Seq<char>>) -> (Seq<(int, Seq<char>)>, Seq<Seq<char>>)
    decreases count_unvisited(ns, visited), 0int, (if 0 <= j < ns.len() { ns[j].children.len() - k } else { 0 }),
{
    if !(0 <= j < ns.len()) || k < 0 || k >= ns[j].children.len() {
        (Seq::empty(), visited)
    } else {
        let child = ns[j].children[k];
        match node_of(ns, child) {
            None => children_spec(ns, j, k + 1, depth, visited),
            Some(c) => if visited.contains(child) || !(0 <= c < ns.len() && ns[c].id == Some(child)) {
                children_spec(ns, j, k + 1, depth, visited)
            } else {
                proof {
                    lemma_count_drops(ns, visited, c, child);
                }
                let (r1, v1) = visit_spec(ns, c, depth, visited.push(child));
                if count_unvisited(ns, v1) <= count_unvisited(ns, visited.push(child)) {
                    let (r2, v2) = children_spec(ns, j, k + 1, depth, v1);
                    (r1 + r2, v2)
                } else {
                    (r1, v1)
                }
            },
        }
    }
}

/// The rows of the nodes from the `k`th on, in order, for the nodes that
/// `start` picks (not yet visited): each as the top of a walk at depth 0.
pub open spec fn walks_from(ns: Seq<NodeV>, k: int, visited: Seq<Seq<char>>, roots_only: bool) -> (Seq<(int, Seq<char>)>, Seq<Seq<char>>)
    decreases ns.len() - k,
{
    if k < 0 || k >= ns.len() {
        (Seq::empty(), visited)
    } else if roots_only && !is_root(ns, k) {
        walks_from(ns, k + 1, visited, roots_only)
    } else {
        match ns[k].id {
            Some(x) => if visited.contains(x) {
                walks_from(ns, k + 1, visited, roots_only)
            } else {
                let (r1, v1) = visit_spec(ns, k, 0, visited.push(x));
                let (r2, v2) = walks_from(ns, k + 1, v1, roots_only);
                (r1 + r2, v2)
            },
            None => if roots_only {
                let (r1, v1) = visit_spec(ns, k, 0, visited);
                let (r2, v2) = walks_from(ns, k + 1, v1, roots_only);
                (r1 + r2, v2)
            } else {
                walks_from(ns, k + 1, visited, roots_only)
            },
        }
    }
}

/// The rows of a mind map: the walks from its roots, in order, then a walk
/// from each node with an id that no earlier walk reached. A node is
/// visited at most once, so cycles end.
pub open spec fn mindmap_spec(ns: Seq<NodeV>) -> Seq<(int, Seq<char>)> {
    let (r1, v1) = walks_from(ns, 0, Seq::empty(), true);
    let (r2, _) = walks_from(ns, 0, v1, false);
    r1 + r2
}

/// Whether some visited id equals `x`.
fn visited_contains(visited: &Vec<String>, x: &str) -> (res: bool)
    ensures
        res == strs_view(visited@).contains(x@),
{
    let mut i: usize = 0;
    while i < visited.len()
        invariant
            i <= visited@.len(),
            forall|k: int| 0 <= k < i ==> strs_view(visited@)[k] != x@,
        decreases visited@.len() - i,
    {
        if str_eq(visited[i].as_str(), x) {
            assert(strs_view(visited@)[i as int] == x@);
            return true;
        }
        i = i + 1;
    }
    false
}

/// The index of the last node with id `id`.
fn find_node(ns: &Vec<MindmapNode>, id: &str) -> (res: Option<usize>)
    ensures
        match res {
            Some(c) => node_of(nodes_view(ns@), id@) == Some(c as int),
            None => node_of(nodes_view(ns@), id@) is None,
        },
{
    let ghost nv = nodes_view(ns@);
    let mut k: usize = ns.len();
    assert(nv.take(k as int) =~= nv);
    while k > 0
        invariant
            k <= ns@.len(),
            nv == nodes_view(ns@),
            nv.len() == ns@.len(),
            node_of(nv, id@) == node_of(nv.take(k as int), id@),
        decreases k,
    {
        let ghost t = nv.take(k as int);
        assert(t.last() == node_view(ns@[k - 1]));
        assert(t.drop_last() =~= nv.take(k - 1));
        let hit = match &ns[k - 1].id {
            Some(x) => str_eq(x.as_str(), id),
            None => false,
        };
        if hit {
            return Some(k - 1);
        }
        k = k - 1;
    }
    None
}

/// Appends the rows for node `j` (its id, if any, already visited).
fn visit(ns: &Vec<MindmapNode>, j: usize, depth: usize, visited: &mut Vec<String>, rows: &mut Vec<(usize, String)>)
    requires
        j < ns@.len(),
        ns@.len() < usize::MAX,
        depth + count_unvisited(nodes_view(ns@), strs_view(old(visited)@)) <= ns@.len(),
    ensures
        rows_view(final(rows)@) == rows_view(old(rows)@) + visit_spec(
            nodes_view(ns@),
            j as int,
            depth as int,
            strs_view(old(visited)@),
        ).0,
        strs_view(final(visited)@) == visit_spec(nodes_view(ns@), j as int, depth as int, strs_view(old(visited)@)).1,
        grows(strs_view(old(visited)@), strs_view(final(visited)@)),
    decreases count_unvisited(nodes_view(ns@), strs_view(old(visited)@)), 1int, 0int,
{
    let ghost nv = nodes_view(ns@);
    let ghost rows0 = rows_view(rows@);
    let label = copy_str(ns[j].label.as_str());
    assert(nv[j as int] == node_view(ns@[j as int]));
    rows.push((depth, label));
    assert(rows_view(rows@) =~= rows0 + seq![(depth as int, nv[j as int].label)]);
    walk_children(ns, j, 0, depth + 1, visited, rows);
    proof {
        let (rs, v) = children_spec(nv, j as int, 0, depth + 1, strs_view(old(visited)@));
        assert(rows_view(rows@) =~= rows0 + (seq![(depth as int, nv[j as int].label)] + rs));
    }
}

/// Appends the rows for the children of node `j` from the `k`th on.
fn walk_children(
    ns: &Vec<MindmapNode>,
    j: usize,
    k: usize,
    depth: usize,
    visited: &mut Vec<String>,
    rows: &mut Vec<(usize, String)>,
)
    requires
        j < ns@.len(),
        k <= ns@[j as int].children@.len(),
        ns@.len() < usize::MAX,
        depth + count_unvisited(nodes_view(ns@), strs_view(old(visited)@)) <= ns@.len() + 1,
    ensures
        rows_view(final(rows)@) == rows_view(old(rows)@) + children_spec(
            nodes_view(ns@),
            j as int,
            k as int,
            depth as int,
            strs_view(old(visited)@),
        ).0,
        strs_view(final(visited)@) == children_spec(
            nodes_view(ns@),
            j as int,
            k as int,
            depth as int,
            strs_view(old(visited)@),
        ).1,
        grows(strs_view(old(visited)@), strs_view(final(visited)@)),
    decreases count_unvisited(nodes_view(ns@), strs_view(old(visited)@)), 0int, ns@[j as int].children@.len() - k,
{
    let ghost nv = nodes_view(ns@);
    let ghost v0 = strs_view(visited@);
    let ghost rows0 = rows_view(rows@);
    assert(nv[j as int] == node_view(ns@[j as int]));
    if k >= ns[j].children.len() {
        assert(rows_view(rows@) =~= rows0 + Seq::<(int, Seq<char>)>::empty());
        return;
    }
    let ghost child = nv[j as int].children[k as int];
    assert(child == ns@[j as int].children@[k as int]@);
    let found = find_node(ns, ns[j].children[k].as_str());
    match found {
        None => {
            walk_children(ns, j, k + 1, depth, visited, rows);
        },
        Some(c) => {
            let seen = visited_contains(visited, ns[j].children[k].as_str());
            proof {
                lemma_node_of_has_id(nv, child);
            }
            if seen {
                walk_children(ns, j, k + 1, depth, visited, rows);
            } else {
                assert(nv[c as int] == node_view(ns@[c as int]));
                let name = copy_str(ns[j].children[k].as_str());
                let ghost before = visited@;
                visited.push(name);
                proof {
                    assert(strs_view(visited@) =~= v0.push(child));
                    lemma_count_drops(nv, v0, c as int, child);
                }
                let ghost v1 = strs_view(visited@);
                let ghost rows1 = rows_view(rows@);
                visit(ns, c, depth, visited, rows);
                let ghost v2 = strs_view(visited@);
                let ghost rows2 = rows_view(rows@);
                proof {
                    lemma_count_monotone(nv, v1, v2);
                    assert(grows(v0, v1)) by {
                        assert forall|y: Seq<char>| v0.contains(y) implies v1.contains(y) by {
                            let i = choose|i: int| 0 <= i < v0.len() && v0[i] == y;
                            assert(v1[i] == y);
                        }
                    }
                }
                walk_children(ns, j, k + 1, depth, visited, rows);
                proof {
                    let (r1, w1) = visit_spec(nv, c as int, depth as int, v1);
                    let (r2, w2) = children_spec(nv, j as int, k + 1, depth as int, v2);
                    assert(rows_view(rows@) =~= rows0 + (r1 + r2));
                }
            }
        },
    }
}

/// The node that `node_of` finds has the id it was looked up by.
proof fn lemma_node_of_has_id(ns: Seq<NodeV>, id: Seq<char>)
    ensures
        node_of(ns, id) matches Some(c) ==> 0 <= c < ns.len() && ns[c].id == Some(id),
    decreases ns.len(),
{
    if ns.len() > 0 && ns.last().id != Some(id) {
        lemma_node_of_has_id(ns.drop_last(), id);
        if let Some(c) = node_of(ns.drop_last(), id) {
            assert(ns.drop_last()[c] == ns[c]);
        }
    }
}

/// Whether `id` is a child of some node.
fn is_child_exec(ns: &Vec<MindmapNode>, id: &str) -> (res: bool)
    ensures
        res == is_child(nodes_view(ns@), id@),
{
    let ghost nv = nodes_view(ns@);
    let mut k: usize = 0;
    while k < ns.len()
        invariant
            k <= ns@.len(),
            nv == nodes_view(ns@),
            forall|i: int| 0 <= i < k ==> !(#[trigger] nv[i]).children.contains(id@),
        decreases ns@.len() - k,
    {
        assert(nv[k as int] == node_view(ns@[k as int]));
        let mut m: usize = 0;
        while m < ns[k].children.len()
            invariant
                k < ns@.len(),
                m <= ns@[k as int].children@.len(),
                nv == nodes_view(ns@),
                nv[k as int] == node_view(ns@[k as int]),
                forall|i: int| 0 <= i < m ==> nv[k as int].children[i] != id@,
            decreases ns@[k as int].children@.len() - m,
        {
            assert(nv[k as int].children[m as int] == ns@[k as int].children@[m as int]@);
            if str_eq(ns[k].children[m].as_str(), id) {
                assert(nv[k as int].children.contains(id@));
                return true;
            }
            m = m + 1;
        }
        k = k + 1;
    }
    false
}

/// Appends the walks from the nodes from the `k`th on: from roots only, or
/// from every node with an id not yet visited.
fn walks(
    ns: &Vec<MindmapNode>,
    k: usize,
    roots_only: bool,
    visited: &mut Vec<String>,
    rows: &mut Vec<(usize, String)>,
)
    requires
        k <= ns@.len(),
        ns@.len() < usize::MAX,
    ensures
        rows_view(final(rows)@) == rows_view(old(rows)@) + walks_from(
            nodes_view(ns@),
            k as int,
            strs_view(old(visited)@),
            roots_only,
        ).0,
        strs_view(final(visited)@) == walks_from(nodes_view(ns@), k as int, strs_view(old(visited)@), roots_only).1,
    decreases ns@.len() - k,
{
    let ghost nv = nodes_view(ns@);
    let ghost v0 = strs_view(visited@);
    let ghost rows0 = rows_view(rows@);
    if k >= ns.len() {
        assert(rows_view(rows@) =~= rows0 + Seq::<(int, Seq<char>)>::empty());
        return;
    }
    assert(nv[k as int] == node_view(ns@[k as int]));
    let root = match &ns[k].id {
        None => true,
        Some(x) => !is_child_exec(ns, x.as_str()),
    };
    if roots_only && !root {
        walks(ns, k + 1, roots_only, visited, rows);
        return;
    }
    proof {
        lemma_count_bounded(nv, v0);
    }
    match &ns[k].id {
        Some(x) => {
            if visited_contains(visited, x.as_str()) {
                walks(ns, k + 1, roots_only, visited, rows);
            } else {
                let name = copy_str(x.as_str());
                visited.push(name);
                proof {
                    assert(strs_view(visited@) =~= v0.push(x@));
                    lemma_count_bounded(nv, strs_view(visited@));
                }
                visit(ns, k, 0, visited, rows);
                let ghost rows1 = rows_view(rows@);
                walks(ns, k + 1, roots_only, visited, rows);
                proof {
                    let (r1, w1) = visit_spec(nv, k as int, 0, v0.push(x@));
                    let (r2, w2) = walks_from(nv, k + 1, w1, roots_only);
                    assert(rows_view(rows@) =~= rows0 + (r1 + r2));
                }
            }
        },
        None => {
            if roots_only {
                visit(ns, k, 0, visited, rows);
                walks(ns, k + 1, roots_only, visited, rows);
                proof {
                    let (r1, w1) = visit_spec(nv, k as int, 0, v0);
                    let (r2, w2) = walks_from(nv, k + 1, w1, roots_only);
                    assert(rows_view(rows@) =~= rows0 + (r1 + r2));
                }
            } else {
                walks(ns, k + 1, roots_only, visited, rows);
            }
        },
    }
}

/// The rows of a mind map, each a depth and a label: the walks from its
/// roots, then from each node no walk reached, every node with an id
/// shown once.
pub fn mindmap_rows(nodes: &Vec<MindmapNode>) -> (res: Vec<(usize, String)>)
    requires
        nodes@.len() < usize::MAX,
    ensures
        rows_view(res@) == mindmap_spec(nodes_view(nodes@)),
{
    let mut visited: Vec<String> = Vec::new();
    let mut rows: Vec<(usize, String)> = Vec::new();
    assert(strs_view(visited@) =~= Seq::<Seq<char>>::empty());
    assert(rows_view(rows@) =~= Seq::<(int, Seq<char>)>::empty());
    walks(nodes, 0, true, &mut visited, &mut rows);
    let ghost mid = rows_view(rows@);
    walks(nodes, 0, false, &mut visited, &mut rows);
    proof {
        let (r1, v1) = walks_from(nodes_view(nodes@), 0, Seq::empty(), true);
        let (r2, v2) = walks_from(nodes_view(nodes@), 0, v1, false);
        assert(rows_view(rows@) =~= Seq::<(int, Seq<char>)>::empty() + r1 + r2);
        assert(rows_view(rows@) =~= r1 + r2);
    }
    rows
}

/// The number of nodes without an id from the `k`th on.
pub open spec fn idless_from(ns: Seq<NodeV>, k: int) -> nat
    decreases ns.len() - k,
{
    if k < 0 || k >= ns.len() {
        0
    } else {
        idless_from(ns, k + 1) + if ns[k].id is None { 1nat } else { 0nat }
    }
}

/// `grows` is transitive.
proof fn lemma_grows_trans(a: Seq<Seq<char>>, b: Seq<Seq<char>>, c: Seq<Seq<char>>)
    requires
        grows(a, b),
        grows(b, c),
    ensures
        grows(a, c),
{
}

/// Visiting one more id grows the visited ids.
proof fn lemma_grows_push(a: Seq<Seq<char>>, x: Seq<char>)
    ensures
        grows(a, a.push(x)),
        a.push(x).contains(x),
{
    assert forall|y: Seq<char>| a.contains(y) implies a.push(x).contains(y) by {
        let i = choose|i: int| 0 <= i < a.len() && a[i] == y;
        assert(a.push(x)[i] == y);
    }
    assert(a.push(x)[a.len() as int] == x);
}

/// A visit adds at most one row per node it newly visits, plus its own.
proof fn lemma_visit_rows(ns: Seq<NodeV>, j: int, depth: int, v: Seq<Seq<char>>)
    ensures
        grows(v, visit_spec(ns, j, depth, v).1),
        visit_spec(ns, j, depth, v).0.len() + count_unvisited(ns, visit_spec(ns, j, depth, v).1)
            <= count_unvisited(ns, v) + 1,
    decreases count_unvisited(ns, v), 1int, 0int,
{
    if 0 <= j < ns.len() {
        lemma_children_rows(ns, j, 0, depth + 1, v);
    }
}

/// The children's walks add at most one row per node they newly visit.
proof fn lemma_children_rows(ns: Seq<NodeV>, j: int, k: int, depth: int, v: Seq<Seq<char>>)
    ensures
        grows(v, children_spec(ns, j, k, depth, v).1),
        children_spec(ns, j, k, depth, v).0.len() + count_unvisited(ns, children_spec(ns, j, k, depth, v).1)
            <= count_unvisited(ns, v),
    decreases count_unvisited(ns, v), 0int, (if 0 <= j < ns.len() { ns[j].children.len() - k } else { 0 }),
{
    if 0 <= j < ns.len() && 0 <= k < ns[j].children.len() {
        let child = ns[j].children[k];
        match node_of(ns, child) {
            None => {
                lemma_children_rows(ns, j, k + 1, depth, v);
            },
            Some(c) => {
                if v.contains(child) || !(0 <= c < ns.len() && ns[c].id == Some(child)) {
                    lemma_children_rows(ns, j, k + 1, depth, v);
                } else {
                    let p = v.push(child);
                    lemma_count_drops(ns, v, c, child);
                    lemma_grows_push(v, child);
                    lemma_visit_rows(ns, c, depth, p);
                    let (r1, v1) = visit_spec(ns, c, depth, p);
                    lemma_grows_trans(v, p, v1);
                    lemma_count_monotone(ns, p, v1);
                    lemma_children_rows(ns, j, k + 1, depth, v1);
                    let (r2, v2) = children_spec(ns, j, k + 1, depth, v1);
                    lemma_grows_trans(v, v1, v2);
                }
            },
        }
    }
}

/// The walks from the `k`th node on add at most one row per node they
/// newly visit, plus one per root without an id.
proof fn lemma_walks_rows(ns: Seq<NodeV>, k: int, v: Seq<Seq<char>>, roots_only: bool)
    ensures
        grows(v, walks_from(ns, k, v, roots_only).1),
        walks_from(ns, k, v, roots_only).0.len() + count_unvisited(ns, walks_from(ns, k, v, roots_only).1)
            <= count_unvisited(ns, v) + (if roots_only { idless_from(ns, k) } else { 0 }),
    decreases ns.len() - k,
{
    if 0 <= k < ns.len() {
        if roots_only && !is_root(ns, k) {
            lemma_walks_rows(ns, k + 1, v, roots_only);
        } else {
            match ns[k].id {
                Some(x) => {
                    if v.contains(x) {
                        lemma_walks_rows(ns, k + 1, v, roots_only);
                    } else {
                        let p = v.push(x);
                        lemma_count_drops(ns, v, k, x);
                        lemma_grows_push(v, x);
                        lemma_visit_rows(ns, k, 0, p);
                        let (r1, v1) = visit_spec(ns, k, 0, p);
                        lemma_grows_trans(v, p, v1);
                        lemma_walks_rows(ns, k + 1, v1, roots_only);
                        let (r2, v2) = walks_from(ns, k + 1, v1, roots_only);
                        lemma_grows_trans(v, v1, v2);
                    }
                },
                None => {
                    if roots_only {
                        lemma_visit_rows(ns, k, 0, v);
                        let (r1, v1) = visit_spec(ns, k, 0, v);
                        lemma_walks_rows(ns, k + 1, v1, roots_only);
                        let (r2, v2) = walks_from(ns, k + 1, v1, roots_only);
                        lemma_grows_trans(v, v1, v2);
                    } else {
                        lemma_walks_rows(ns, k + 1, v, roots_only);
                    }
                },
            }
        }
    }
}

/// Nothing visited: every node with an id is unvisited, so the nodes with
/// an id and those without make up all nodes.
proof fn lemma_count_all(ns: Seq<NodeV>)
    ensures
        count_unvisited(ns, Seq::empty()) + idless_from(ns, 0) == ns.len(),
    decreases ns.len(),
{
    if ns.len() > 0 {
        lemma_count_all(ns.drop_last());
        lemma_idless_split(ns);
    }
}

/// Counting the nodes without an id over all nodes, or over all but the
/// last and then the last.
proof fn lemma_idless_split(ns: Seq<NodeV>)
    requires
        ns.len() > 0,
    ensures
        idless_from(ns, 0) == idless_from(ns.drop_last(), 0) + if ns.last().id is None { 1nat } else { 0nat },
{
    lemma_idless_prefix(ns, 0);
}

/// `idless_from` over a sequence splits at its last node.
proof fn lemma_idless_prefix(ns: Seq<NodeV>, k: int)
    requires
        ns.len() > 0,
        0 <= k < ns.len(),
    ensures
        idless_from(ns, k) == idless_from(ns.drop_last(), k) + if ns.last().id is None { 1nat } else { 0nat },
    decreases ns.len() - k,
{
    if k < ns.len() - 1 {
        lemma_idless_prefix(ns, k + 1);
        assert(ns.drop_last()[k] == ns[k]);
    } else {
        assert(idless_from(ns, k + 1) == 0);
        assert(idless_from(ns.drop_last(), k) == 0);
    }
}

/// Law: the walk is cycle-safe: a mind map gives at most one row per
/// node, whatever cycles its child links form.
pub proof fn law_mindmap_row_per_node(ns: Seq<NodeV>)
    ensures
        mindmap_spec(ns).len() <= ns.len(),
{
    lemma_walks_rows(ns, 0, Seq::empty(), true);
    let (r1, v1) = walks_from(ns, 0, Seq::empty(), true);
    lemma_walks_rows(ns, 0, v1, false);
    lemma_count_all(ns);
}

/// After the walks from the `k`th node on without `roots_only`, every node
/// from the `k`th on that has an id is visited.
proof fn lemma_walks_visit_all(ns: Seq<NodeV>, k: int, v: Seq<Seq<char>>)
    requires
        0 <= k,
    ensures
        forall|i: int| k <= i < ns.len() && ns[i].id is Some ==> walks_from(ns, k, v, false).1.contains(ns[i].id.unwrap()),
    decreases ns.len() - k,
{
    if k < ns.len() {
        match ns[k].id {
            Some(x) => {
                if v.contains(x) {
                    lemma_walks_visit_all(ns, k + 1, v);
                    lemma_walks_rows(ns, k + 1, v, false);
                } else {
                    let p = v.push(x);
                    lemma_grows_push(v, x);
                    lemma_visit_rows(ns, k, 0, p);
                    let (r1, v1) = visit_spec(ns, k, 0, p);
                    lemma_walks_visit_all(ns, k + 1, v1);
                    lemma_walks_rows(ns, k + 1, v1, false);
                }
            },
            None => {
                lemma_walks_visit_all(ns, k + 1, v);
            },
        }
    }
}

/// Law: nodes that no root reaches are still walked: by the end every node
/// with an id has been visited.
pub proof fn law_mindmap_keeps_orphans(ns: Seq<NodeV>)
    ensures
        ({
            let (r1, v1) = walks_from(ns, 0, Seq::empty(), true);
            let v2 = walks_from(ns, 0, v1, false).1;
            forall|i: int| 0 <= i < ns.len() && ns[i].id is Some ==> v2.contains(ns[i].id.unwrap())
        }),
{
    let (r1, v1) = walks_from(ns, 0, Seq::empty(), true);
    lemma_walks_visit_all(ns, 0, v1);
}

/// A labelled part of a chart series. `V` is the number type of values.
#[derive(Debug, Clone)]
pub struct ChartSegment<V> {
    pub label: String,
    pub value: V,
}

/// A chart series: its label, its value, and its labelled segments.
#[derive(Debug, Clone)]
pub struct ChartSeries<V> {
    pub label: String,
    pub value: V,
    pub segments: Vec<ChartSegment<V>>,
}

/// The segment labels of the series, series after series.
pub open spec fn segment_labels<V>(series: Seq<ChartSeries<V>>) -> Seq<Seq<char>>
    decreases series.len(),
{
    if series.len() == 0 {
        Seq::empty()
    } else {
        segment_labels(series.drop_last()) + series.last().segments@.map_values(|g: ChartSegment<V>| g.label@)
    }
}

/// The distinct strings of `s`, in order of first appearance.
pub open spec fn distinct_in_order(s: Seq<Seq<char>>) -> Seq<Seq<char>>
    decreases s.len(),
{
    if s.len() == 0 {
        s
    } else {
        let r = distinct_in_order(s.drop_last());
        if r.contains(s.last()) { r } else { r.push(s.last()) }
    }
}

/// The value of the first segment labelled `label`, or `zero`.
pub open spec fn cell_value<V>(segments: Seq<ChartSegment<V>>, label: Seq<char>, zero: V) -> V
    decreases segments.len(),
{
    if segments.len() == 0 {
        zero
    } else if segments[0].label@ == label {
        segments[0].value
    } else {
        cell_value(segments.drop_first(), label, zero)
    }
}

/// The heatmap's rows: each series with segments, its label and one value
/// per column (`zero` where it has no segment of that label).
pub open spec fn heatmap_rows<V>(series: Seq<ChartSeries<V>>, columns: Seq<Seq<char>>, zero: V) -> Seq<(Seq<char>, Seq<V>)>
    decreases series.len(),
{
    if series.len() == 0 {
        Seq::empty()
    } else {
        let rest = heatmap_rows(series.drop_last(), columns, zero);
        let s = series.last();
        if s.segments@.len() == 0 {
            rest
        } else {
            rest.push((s.label@, columns.map_values(|c: Seq<char>| cell_value(s.segments@, c, zero))))
        }
    }
}

/// The value of the first segment labelled `label`, or `zero`.
fn find_cell<V: Copy>(segments: &Vec<ChartSegment<V>>, label: &str, zero: V) -> (res: V)
    ensures
        res == cell_value(segments@, label@, zero),
{
    let ghost g = segments@;
    assert(g.skip(0) =~= g);
    let mut i: usize = 0;
    while i < segments.len()
        invariant
            i <= segments@.len(),
            g == segments@,
            cell_value(g, label@, zero) == cell_value(g.skip(i as int), label@, zero),
        decreases segments@.len() - i,
    {
        let ghost rest = g.skip(i as int);
        assert(rest[0] == g[i as int]);
        assert(rest.drop_first() =~= g.skip(i + 1));
        if str_eq(segments[i].label.as_str(), label) {
            return segments[i].value;
        }
        i = i + 1;
    }
    assert(g.skip(i as int).len() == 0);
    zero
}

/// The grid of a heatmap: the distinct segment labels as columns, in order
/// of first appearance, and a row for each series with segments, holding
/// its value for each column (`zero` where it has none).
pub fn heatmap_layout<V: Copy>(series: &[ChartSeries<V>], zero: V) -> (res: (Vec<String>, Vec<(String, Vec<V>)>))
    ensures
        strs_view(res.0@) == distinct_in_order(segment_labels(series@)),
        res.1@.map_values(|r: (String, Vec<V>)| (r.0@, r.1@)) == heatmap_rows(series@, strs_view(res.0@), zero),
{
    let mut columns: Vec<String> = Vec::new();
    let mut i: usize = 0;
    assert(series@.take(0) =~= Seq::<ChartSeries<V>>::empty());
    while i < series.len()
        invariant
            i <= series@.len(),
            strs_view(columns@) == distinct_in_order(segment_labels(series@.take(i as int))),
        decreases series@.len() - i,
    {
        let ghost base = segment_labels(series@.take(i as int));
        let ghost segs = series@[i as int].segments@.map_values(|g: ChartSegment<V>| g.label@);
        proof {
            assert(series@.take(i + 1).drop_last() =~= series@.take(i as int));
            assert(segment_labels(series@.take(i + 1)) == base + segs);
        }
        let mut k: usize = 0;
        while k < series[i].segments.len()
            invariant
                i < series@.len(),
                k <= series@[i as int].segments@.len(),
                segs == series@[i as int].segments@.map_values(|g: ChartSegment<V>| g.label@),
                strs_view(columns@) == distinct_in_order(base + segs.take(k as int)),
            decreases series@[i as int].segments@.len() - k,
        {
            proof {
                assert((base + segs.take(k + 1)).drop_last() =~= base + segs.take(k as int));
                assert((base + segs.take(k + 1)).last() == segs[k as int]);
            }
            let label = series[i].segments[k].label.as_str();
            if !visited_contains(&columns, label) {
                let ghost before = strs_view(columns@);
                columns.push(copy_str(label));
                assert(strs_view(columns@) =~= before.push(label@));
            }
            k = k + 1;
        }
        assert(segs.take(k as int) =~= segs);
        i = i + 1;
    }
    assert(series@.take(series@.len() as int) =~= series@);
    let ghost cols = strs_view(columns@);
    let mut rows: Vec<(String, Vec<V>)> = Vec::new();
    let mut j: usize = 0;
    while j < series.len()
        invariant
            j <= series@.len(),
            cols == strs_view(columns@),
            rows@.map_values(|r: (String, Vec<V>)| (r.0@, r.1@)) == heatmap_rows(series@.take(j as int), cols, zero),
        decreases series@.len() - j,
    {
        proof {
            assert(series@.take(j + 1).drop_last() =~= series@.take(j as int));
            assert(series@.take(j + 1).last() == series@[j as int]);
        }
        if series[j].segments.len() > 0 {
            let mut values: Vec<V> = Vec::new();
            let mut c: usize = 0;
            while c < columns.len()
                invariant
                    j < series@.len(),
                    c <= columns@.len(),
                    cols == strs_view(columns@),
                    values@ == cols.take(c as int).map_values(|x: Seq<char>| cell_value(series@[j as int].segments@, x, zero)),
                decreases columns@.len() - c,
            {
                let v = find_cell(&series[j].segments, columns[c].as_str(), zero);
                let ghost before = values@;
                values.push(v);
                proof {
                    assert(cols[c as int] == columns@[c as int]@);
                    assert(values@ =~= cols.take(c + 1).map_values(|x: Seq<char>| cell_value(series@[j as int].segments@, x, zero)));
                }
                c = c + 1;
            }
            assert(cols.take(c as int) =~= cols);
            let ghost before = rows@;
            rows.push((copy_str(series[j].label.as_str()), values));
            assert(rows@.map_values(|r: (String, Vec<V>)| (r.0@, r.1@)) =~= before.map_values(|r: (String, Vec<V>)| (r.0@, r.1@)).push(
                (series@[j as int].label@, cols.map_values(|x: Seq<char>| cell_value(series@[j as int].segments@, x, zero))),
            ));
        }
        j = j + 1;
    }
    assert(series@.take(series@.len() as int) =~= series@);
    (columns, rows)
}

} // verus!
