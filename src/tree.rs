//! The menu tree, held in an `ego_tree::Tree`, and the search over its commands.
use vstd::prelude::*;
use ego_tree::{NodeId, Tree};
use crate::command::Command;
use crate::text::{is_infix, lemma_name_le_total, lower_of, name_le, name_matches, str_le, to_lower};

verus! {

#[verifier::external_type_specification]
#[verifier::external_body]
#[verifier::reject_recursive_types(T)]
pub struct ExTree<T>(Tree<T>);

#[verifier::external_type_specification]
#[verifier::external_body]
pub struct ExNodeId(NodeId);

/// What a node of the menu holds: a group when it has children, a command otherwise.
pub struct MenuEntry {
    pub name: String,
    pub command: Command,
}

/// The abstract content of a node: its entry and the ids of its children, in order.
pub struct NodeModel {
    pub name: Seq<char>,
    pub command: Command,
    pub children: Seq<NodeId>,
}

/// The nodes of a tree, by id.
pub uninterp spec fn tree_nodes(t: Tree<MenuEntry>) -> Map<NodeId, NodeModel>;

/// The id of a tree's root.
pub uninterp spec fn tree_root(t: Tree<MenuEntry>) -> NodeId;

/// Relies on ego_tree's `Tree::root` and `NodeRef::id`: the root is a node of the tree.
#[verifier::external_body]
pub(crate) fn root_id(t: &Tree<MenuEntry>) -> (r: NodeId)
    ensures
        r == tree_root(*t),
        tree_nodes(*t).contains_key(r),
{
    t.root().id()
}

/// Relies on ego_tree's `Tree::get`, `NodeRef::children` and `NodeRef::id`: the children
/// of a node of the tree, in order; each is a node of the same tree.
#[verifier::external_body]
pub(crate) fn child_ids(t: &Tree<MenuEntry>, id: NodeId) -> (r: Vec<NodeId>)
    requires
        tree_nodes(*t).contains_key(id),
    ensures
        r@ == tree_nodes(*t)[id].children,
        forall|k: int| 0 <= k < r@.len() ==> tree_nodes(*t).contains_key(#[trigger] r@[k]),
{
    t.get(id).unwrap().children().map(|c| c.id()).collect()
}

/// Relies on ego_tree's `Tree::get` and `NodeRef::value`: the entry at a node of the tree.
#[verifier::external_body]
pub(crate) fn entry_of<'a>(t: &'a Tree<MenuEntry>, id: NodeId) -> (r: &'a MenuEntry)
    requires
        tree_nodes(*t).contains_key(id),
    ensures
        r.name@ == tree_nodes(*t)[id].name,
        r.command == tree_nodes(*t)[id].command,
{
    t.get(id).unwrap().value()
}

/// Relies on ego_tree's `Tree::nodes` and `NodeRef::id`: every node of the tree, once each.
#[verifier::external_body]
pub(crate) fn all_ids(t: &Tree<MenuEntry>) -> (r: Vec<NodeId>)
    ensures
        r@.no_duplicates(),
        forall|id: NodeId| tree_nodes(*t).contains_key(id) <==> r@.contains(id),
{
    t.nodes().map(|n| n.id()).collect()
}

/// Node `id` is a command: it has no children.
pub open spec fn is_leaf(t: Map<NodeId, NodeModel>, id: NodeId) -> bool {
    t[id].children.len() == 0
}

/// Node `id` is a command whose lowercased name contains the lowercased query `ql`.
pub open spec fn leaf_matches(t: Map<NodeId, NodeModel>, id: NodeId, ql: Seq<char>) -> bool {
    t.contains_key(id) && is_leaf(t, id) && is_infix(ql, lower_of(t[id].name))
}

/// The nodes `r` come in ascending order of name.
pub open spec fn sorted_by_name(t: Map<NodeId, NodeModel>, r: Seq<NodeId>) -> bool {
    forall|k: int| 0 <= k < r.len() - 1 ==> name_le(t[r[k]].name, #[trigger] t[r[k + 1]].name)
}

/// `r` lists, once each and sorted by name, exactly the commands that match `ql`.
pub open spec fn is_filter_result(t: Map<NodeId, NodeModel>, ql: Seq<char>, r: Seq<NodeId>) -> bool {
    &&& forall|k: int| 0 <= k < r.len() ==> leaf_matches(t, #[trigger] r[k], ql)
    &&& forall|id: NodeId| leaf_matches(t, id, ql) ==> r.contains(id)
    &&& r.no_duplicates()
    &&& sorted_by_name(t, r)
}

/// Inserts node `id` into `r`, which is sorted by name, where it keeps `r` sorted.
fn insert_by_name(t: &Tree<MenuEntry>, r: &mut Vec<NodeId>, id: NodeId)
    requires
        tree_nodes(*t).contains_key(id),
        sorted_by_name(tree_nodes(*t), old(r)@),
        forall|k: int| 0 <= k < old(r)@.len() ==> tree_nodes(*t).contains_key(#[trigger] old(r)@[k]),
    ensures
        sorted_by_name(tree_nodes(*t), final(r)@),
        exists|p: int| 0 <= p <= old(r)@.len() && final(r)@ == old(r)@.insert(p, id),
{
    let ghost m = tree_nodes(*t);
    let name = &entry_of(t, id).name;
    let mut p: usize = 0;
    loop
        invariant
            p <= r@.len(),
            r@ == old(r)@,
            m == tree_nodes(*t),
            m.contains_key(id),
            name@ == m[id].name,
            forall|k: int| 0 <= k < r@.len() ==> m.contains_key(#[trigger] r@[k]),
            forall|k: int| 0 <= k < p ==> name_le(m[#[trigger] r@[k]].name, m[id].name),
        ensures
            p <= r@.len(),
            p < r@.len() ==> name_le(m[id].name, m[r@[p as int]].name),
            forall|k: int| 0 <= k < p ==> name_le(m[#[trigger] r@[k]].name, m[id].name),
        decreases r@.len() - p,
    {
        if p >= r.len() {
            break;
        }
        if !str_le(&entry_of(t, r[p]).name, name) {
            proof {
                lemma_name_le_total(m[r@[p as int]].name, m[id].name);
            }
            break;
        }
        p = p + 1;
    }
    let ghost before = r@;
    r.insert(p, id);
    assert forall|k: int| 0 <= k < r@.len() - 1 implies name_le(
        m[r@[k]].name,
        #[trigger] m[r@[k + 1]].name,
    ) by {
        if k + 1 < p {
            assert(r@[k] == before[k] && r@[k + 1] == before[k + 1]);
            assert(name_le(m[before[k]].name, m[before[k + 1]].name));
        } else if k + 1 == p {
            assert(r@[k] == before[k] && r@[k + 1] == id);
        } else if k == p {
            assert(r@[k] == id && r@[k + 1] == before[k]);
        } else {
            let j = k - 1;
            assert(r@[k] == before[j] && r@[k + 1] == before[j + 1]);
            assert(name_le(m[before[j]].name, m[before[j + 1]].name));
        }
    }
}

/// The commands of `t` whose lowercased name contains `query_lower`, sorted by name.
pub fn matching_leaves(t: &Tree<MenuEntry>, query_lower: &str) -> (r: Vec<NodeId>)
    ensures
        is_filter_result(tree_nodes(*t), query_lower@, r@),
{
    let ghost m = tree_nodes(*t);
    let ids = all_ids(t);
    let mut r: Vec<NodeId> = Vec::new();
    let mut i: usize = 0;
    while i < ids.len()
        invariant
            m == tree_nodes(*t),
            ids@.no_duplicates(),
            forall|id: NodeId| m.contains_key(id) <==> ids@.contains(id),
            i <= ids@.len(),
            forall|k: int| 0 <= k < r@.len() ==> exists|j: int| 0 <= j < i && ids@[j] == #[trigger] r@[k],
            forall|k: int| 0 <= k < r@.len() ==> leaf_matches(m, #[trigger] r@[k], query_lower@),
            forall|j: int| 0 <= j < i && leaf_matches(m, #[trigger] ids@[j], query_lower@) ==> r@.contains(ids@[j]),
            r@.no_duplicates(),
            sorted_by_name(m, r@),
        decreases ids@.len() - i,
    {
        let id = ids[i];
        assert(ids@.contains(id));
        let kids = child_ids(t, id);
        if kids.len() == 0 {
            let name_lower = to_lower(&entry_of(t, id).name);
            if name_matches(&name_lower, query_lower) {
                let ghost before = r@;
                insert_by_name(t, &mut r, id);
                let ghost p = choose|p: int| 0 <= p <= before.len() && r@ == before.insert(p, id);
                assert forall|k: int| 0 <= k < r@.len() implies (exists|j: int| 0 <= j < i + 1 && ids@[j] == #[trigger] r@[k])
                    && leaf_matches(m, r@[k], query_lower@) by {
                    if k < p {
                        assert(r@[k] == before[k]);
                    } else if k > p {
                        assert(r@[k] == before[k - 1]);
                    } else {
                        assert(ids@[i as int] == r@[k]);
                    }
                }
                assert forall|j: int| 0 <= j < i + 1 && leaf_matches(m, #[trigger] ids@[j], query_lower@)
                    implies r@.contains(ids@[j]) by {
                    if j < i {
                        let q = choose|q: int| 0 <= q < before.len() && before[q] == ids@[j];
                        if q < p {
                            assert(r@[q] == before[q]);
                        } else {
                            assert(r@[q + 1] == before[q]);
                        }
                    } else {
                        assert(r@[p] == id);
                    }
                }
                assert forall|a: int, b: int| 0 <= a < b < r@.len() implies r@[a] != r@[b] by {
                    let fa = if a < p { a } else if a == p { -1 } else { a - 1 };
                    let fb = if b < p { b } else if b == p { -1 } else { b - 1 };
                    if fa >= 0 {
                        assert(r@[a] == before[fa]);
                    }
                    if fb >= 0 {
                        assert(r@[b] == before[fb]);
                    }
                    if fa < 0 || fb < 0 {
                        let other = if fa < 0 { fb } else { fa };
                        let jj = choose|jj: int| 0 <= jj < i && ids@[jj] == #[trigger] before[other];
                        assert(ids@[jj] != ids@[i as int]);
                    }
                }
            }
        }
        i = i + 1;
    }
    assert forall|id: NodeId| leaf_matches(m, id, query_lower@) implies r@.contains(id) by {
        assert(ids@.contains(id));
        let j = choose|j: int| 0 <= j < ids@.len() && ids@[j] == id;
        assert(leaf_matches(m, ids@[j], query_lower@));
    }
    r
}

} // verus!
