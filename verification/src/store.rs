//! The Graph Store: an abstract, swappable container of nodes and edges.
//!
//! Every backend implements [`GraphStore`] with the very same contracts, so
//! that for one sequence of insertions all backends are observably
//! indistinguishable: same size, same matches for every typed query.
//!
//! Insertion policy, identical across backends: a second insert of an
//! element with an identity already present is a no-op.  An edge whose
//! endpoints are not both present is rejected; a store therefore never
//! holds a dangling edge.

use vstd::prelude::*;

use crate::taxonomy::{Edge, EdgeKind, EdgeV, Node, NodeKind, NodeRef, NodeV, RefV};

verus! {

/// The views of a sequence of nodes.
pub open spec fn views_of_nodes(s: Seq<Node>) -> Seq<NodeV> {
    s.map_values(|n: Node| n@)
}

/// The views of a sequence of edges.
pub open spec fn views_of_edges(s: Seq<Edge>) -> Seq<EdgeV> {
    s.map_values(|e: Edge| e@)
}

/// Whether some node in `s` has identity `k`.
pub open spec fn has_node_key(s: Seq<NodeV>, k: RefV) -> bool {
    exists|i: int| 0 <= i < s.len() && (#[trigger] s[i]).key() == k
}

/// Whether some edge in `s` has the identity of `e`.
pub open spec fn has_edge_key(s: Seq<EdgeV>, e: EdgeV) -> bool {
    exists|i: int| 0 <= i < s.len() && (#[trigger] s[i]).key() == e.key()
}

/// The node sequence after an insert: unchanged when the identity is
/// already present, else the node appended.
pub open spec fn spec_insert_node(s: Seq<NodeV>, n: NodeV) -> Seq<NodeV> {
    if has_node_key(s, n.key()) {
        s
    } else {
        s.push(n)
    }
}

/// Whether an edge insert actually appends: both endpoints are present
/// and no edge with the same identity is.
pub open spec fn spec_edge_insertable(ns: Seq<NodeV>, es: Seq<EdgeV>, e: EdgeV) -> bool {
    has_node_key(ns, e.source) && has_node_key(ns, e.target) && !has_edge_key(es, e)
}

/// The edge sequence after an insert.
pub open spec fn spec_insert_edge(ns: Seq<NodeV>, es: Seq<EdgeV>, e: EdgeV) -> Seq<EdgeV> {
    if spec_edge_insertable(ns, es, e) {
        es.push(e)
    } else {
        es
    }
}

/// No two nodes share an identity.
pub open spec fn unique_node_keys(s: Seq<NodeV>) -> bool {
    forall|i: int, j: int| 0 <= i < j < s.len() ==> (#[trigger] s[i]).key() != (#[trigger] s[j]).key()
}

/// Every edge's endpoints are identities of nodes in `ns`.
pub open spec fn wf_edges(ns: Seq<NodeV>, es: Seq<EdgeV>) -> bool {
    forall|k: int|
        0 <= k < es.len() ==> has_node_key(ns, (#[trigger] es[k]).source) && has_node_key(
            ns,
            es[k].target,
        )
}

/// The nodes of `s` whose kind is `k`, in order.
pub open spec fn filter_nodes_kind(s: Seq<NodeV>, k: NodeKind) -> Seq<NodeV>
    decreases s.len(),
{
    if s.len() == 0 {
        Seq::empty()
    } else if s.last().kind == k {
        filter_nodes_kind(s.drop_last(), k).push(s.last())
    } else {
        filter_nodes_kind(s.drop_last(), k)
    }
}

/// The nodes of `s` with kind `k` and name `name`, in order.
pub open spec fn filter_nodes_kind_name(s: Seq<NodeV>, k: NodeKind, name: Seq<char>) -> Seq<NodeV>
    decreases s.len(),
{
    if s.len() == 0 {
        Seq::empty()
    } else if s.last().kind == k && s.last().name == name {
        filter_nodes_kind_name(s.drop_last(), k, name).push(s.last())
    } else {
        filter_nodes_kind_name(s.drop_last(), k, name)
    }
}

/// The edges of `s` whose kind is `k`, in order.
pub open spec fn filter_edges_kind(s: Seq<EdgeV>, k: EdgeKind) -> Seq<EdgeV>
    decreases s.len(),
{
    if s.len() == 0 {
        Seq::empty()
    } else if s.last().kind == k {
        filter_edges_kind(s.drop_last(), k).push(s.last())
    } else {
        filter_edges_kind(s.drop_last(), k)
    }
}

/// The storage contract every backend implements identically.
///
/// All observable behaviour is stated against two mathematical sequences,
/// the node views and the edge views, in insertion order.  Two backends
/// fed the same insertions therefore answer every query identically.
pub trait GraphStore: Sized {
    /// The views of the nodes held, in insertion order.
    spec fn node_views(&self) -> Seq<NodeV>;

    /// The views of the edges held, in insertion order.
    spec fn edge_views(&self) -> Seq<EdgeV>;

    /// The backend's internal invariant.
    spec fn inv(&self) -> bool;

    /// A valid store holds unique node identities and no dangling edge.
    proof fn lemma_inv_wf(&self)
        requires
            self.inv(),
        ensures
            unique_node_keys(self.node_views()),
            wf_edges(self.node_views(), self.edge_views()),
    ;

    /// A fresh, empty store.
    fn empty() -> (g: Self)
        ensures
            g.inv(),
            g.node_views() == Seq::<NodeV>::empty(),
            g.edge_views() == Seq::<EdgeV>::empty(),
    ;

    /// Inserts a node; a duplicate identity is a no-op.
    fn insert_node(&mut self, n: Node) -> (inserted: bool)
        requires
            old(self).inv(),
        ensures
            final(self).inv(),
            final(self).node_views() == spec_insert_node(old(self).node_views(), n@),
            final(self).edge_views() == old(self).edge_views(),
            inserted == !has_node_key(old(self).node_views(), n@.key()),
    ;

    /// Inserts an edge; a duplicate identity or a missing endpoint is a
    /// no-op, so the store never holds a dangling edge.
    fn insert_edge(&mut self, e: Edge) -> (inserted: bool)
        requires
            old(self).inv(),
        ensures
            final(self).inv(),
            final(self).node_views() == old(self).node_views(),
            final(self).edge_views() == spec_insert_edge(
                old(self).node_views(),
                old(self).edge_views(),
                e@,
            ),
            inserted == spec_edge_insertable(old(self).node_views(), old(self).edge_views(), e@),
    ;

    /// The pair (node count, edge count).
    fn graph_size(&self) -> (r: (usize, usize))
        requires
            self.inv(),
        ensures
            r.0 == self.node_views().len(),
            r.1 == self.edge_views().len(),
    ;

    /// All nodes of the given kind, in insertion order.
    fn find_nodes_by_type(&self, kind: NodeKind) -> (v: Vec<Node>)
        requires
            self.inv(),
        ensures
            views_of_nodes(v@) == filter_nodes_kind(self.node_views(), kind),
    ;

    /// All nodes of the given kind carrying the given name, in insertion order.
    fn find_nodes_by_name(&self, kind: NodeKind, name: &str) -> (v: Vec<Node>)
        requires
            self.inv(),
        ensures
            views_of_nodes(v@) == filter_nodes_kind_name(self.node_views(), kind, name@),
    ;

    /// How many edges of the given kind are held.
    fn count_edges_of_type(&self, kind: EdgeKind) -> (c: usize)
        requires
            self.inv(),
        ensures
            c == filter_edges_kind(self.edge_views(), kind).len(),
    ;

    /// A copy of every node, in insertion order.
    fn all_nodes(&self) -> (v: Vec<Node>)
        requires
            self.inv(),
        ensures
            views_of_nodes(v@) == self.node_views(),
    ;

    /// A copy of every edge, in insertion order.
    fn all_edges(&self) -> (v: Vec<Edge>)
        requires
            self.inv(),
        ensures
            views_of_edges(v@) == self.edge_views(),
    ;
}

/// Whether a node's identity equals the given reference.
pub fn node_has_ref(n: &Node, r: &NodeRef) -> (b: bool)
    ensures
        b == (n@.key() == r@),
{
    let kind_eq = n.kind == r.kind;
    let name_eq = n.data.name == r.name;
    let file_eq = n.data.file == r.file;
    kind_eq && name_eq && file_eq
}

/// Whether two node references are equal.
pub fn ref_eq(a: &NodeRef, b: &NodeRef) -> (r: bool)
    ensures
        r == (a@ == b@),
{
    a.kind == b.kind && a.name == b.name && a.file == b.file
}

/// Whether two nodes share an identity.
pub fn node_key_eq(a: &Node, b: &Node) -> (r: bool)
    ensures
        r == (a@.key() == b@.key()),
{
    a.kind == b.kind && a.data.name == b.data.name && a.data.file == b.data.file
}

/// Whether two edges share an identity (kind and both endpoints).
pub fn edge_key_eq(a: &Edge, b: &Edge) -> (r: bool)
    ensures
        r == (a@.key() == b@.key()),
{
    a.kind == b.kind && ref_eq(&a.source, &b.source) && ref_eq(&a.target, &b.target)
}

/// Whether `ns` holds a node with the identity of `n`.
pub fn slice_has_node_key(ns: &Vec<Node>, n: &Node) -> (b: bool)
    ensures
        b == has_node_key(views_of_nodes(ns@), n@.key()),
{
    let mut i: usize = 0;
    while i < ns.len()
        invariant
            i <= ns.len(),
            forall|j: int| 0 <= j < i ==> (#[trigger] views_of_nodes(ns@)[j]).key() != n@.key(),
        decreases ns.len() - i,
    {
        if node_key_eq(&ns[i], n) {
            proof {
                assert(views_of_nodes(ns@)[i as int].key() == n@.key());
            }
            return true;
        }
        i = i + 1;
    }
    false
}

/// Whether `ns` holds a node whose identity is `r`.
pub fn slice_has_ref(ns: &Vec<Node>, r: &NodeRef) -> (b: bool)
    ensures
        b == has_node_key(views_of_nodes(ns@), r@),
{
    let mut i: usize = 0;
    while i < ns.len()
        invariant
            i <= ns.len(),
            forall|j: int| 0 <= j < i ==> (#[trigger] views_of_nodes(ns@)[j]).key() != r@,
        decreases ns.len() - i,
    {
        if node_has_ref(&ns[i], r) {
            proof {
                assert(views_of_nodes(ns@)[i as int].key() == r@);
            }
            return true;
        }
        i = i + 1;
    }
    false
}

/// Whether `es` holds an edge with the identity of `e`.
pub fn slice_has_edge_key(es: &Vec<Edge>, e: &Edge) -> (b: bool)
    ensures
        b == has_edge_key(views_of_edges(es@), e@),
{
    let mut i: usize = 0;
    while i < es.len()
        invariant
            i <= es.len(),
            forall|j: int| 0 <= j < i ==> (#[trigger] views_of_edges(es@)[j]).key() != e@.key(),
        decreases es.len() - i,
    {
        if edge_key_eq(&es[i], e) {
            proof {
                assert(views_of_edges(es@)[i as int].key() == e@.key());
            }
            return true;
        }
        i = i + 1;
    }
    false
}

/// Appending a node preserves every identity already present.
pub proof fn lemma_has_node_key_push(s: Seq<NodeV>, n: NodeV, k: RefV)
    ensures
        has_node_key(s, k) ==> has_node_key(s.push(n), k),
        n.key() == k ==> has_node_key(s.push(n), k),
{
    if has_node_key(s, k) {
        let i = choose|i: int| 0 <= i < s.len() && (#[trigger] s[i]).key() == k;
        assert(s.push(n)[i].key() == k);
    }
    if n.key() == k {
        assert(s.push(n)[s.len() as int].key() == k);
    }
}

/// The array-backed store: nodes and edges in growable arrays, queried by
/// linear scans, returned in insertion order.
pub struct ArrayGraph {
    pub node_list: Vec<Node>,
    pub edge_list: Vec<Edge>,
}

impl GraphStore for ArrayGraph {
    open spec fn node_views(&self) -> Seq<NodeV> {
        views_of_nodes(self.node_list@)
    }

    open spec fn edge_views(&self) -> Seq<EdgeV> {
        views_of_edges(self.edge_list@)
    }

    open spec fn inv(&self) -> bool {
        unique_node_keys(self.node_views()) && wf_edges(self.node_views(), self.edge_views())
    }

    proof fn lemma_inv_wf(&self) {
    }

    fn empty() -> (g: Self)
    {
        let g = ArrayGraph { node_list: Vec::new(), edge_list: Vec::new() };
        proof {
            assert(g.node_views() =~= Seq::<NodeV>::empty());
            assert(g.edge_views() =~= Seq::<EdgeV>::empty());
        }
        g
    }

    fn insert_node(&mut self, n: Node) -> (inserted: bool)
    {
        let present = slice_has_node_key(&self.node_list, &n);
        if present {
            false
        } else {
            let ghost old_nodes = self.node_views();
            let ghost nv = n@;
            self.node_list.push(n);
            proof {
                assert(self.node_views() =~= old_nodes.push(nv));
                assert forall|k: int| 0 <= k < self.edge_views().len() implies has_node_key(
                    self.node_views(),
                    (#[trigger] self.edge_views()[k]).source,
                ) && has_node_key(self.node_views(), self.edge_views()[k].target) by {
                    lemma_has_node_key_push(old_nodes, nv, self.edge_views()[k].source);
                    lemma_has_node_key_push(old_nodes, nv, self.edge_views()[k].target);
                }
            }
            true
        }
    }

    fn insert_edge(&mut self, e: Edge) -> (inserted: bool)
    {
        let src_ok = slice_has_ref(&self.node_list, &e.source);
        let tgt_ok = slice_has_ref(&self.node_list, &e.target);
        if !src_ok || !tgt_ok {
            return false;
        }
        let dup = slice_has_edge_key(&self.edge_list, &e);
        if dup {
            return false;
        }
        let ghost old_edges = self.edge_views();
        let ghost ev = e@;
        self.edge_list.push(e);
        proof {
            assert(self.edge_views() =~= old_edges.push(ev));
        }
        true
    }

    fn graph_size(&self) -> (r: (usize, usize))
    {
        (self.node_list.len(), self.edge_list.len())
    }

    fn find_nodes_by_type(&self, kind: NodeKind) -> (v: Vec<Node>)
    {
        find_by_type_in(&self.node_list, kind)
    }

    fn find_nodes_by_name(&self, kind: NodeKind, name: &str) -> (v: Vec<Node>)
    {
        find_by_name_in(&self.node_list, kind, name)
    }

    fn count_edges_of_type(&self, kind: EdgeKind) -> (c: usize)
    {
        count_edges_in(&self.edge_list, kind)
    }

    fn all_nodes(&self) -> (v: Vec<Node>)
    {
        clone_nodes(&self.node_list)
    }

    fn all_edges(&self) -> (v: Vec<Edge>)
    {
        clone_edges(&self.edge_list)
    }
}

/// The nodes of `ns` of the given kind, freshly cloned, in order.
pub fn find_by_type_in(ns: &Vec<Node>, kind: NodeKind) -> (v: Vec<Node>)
    ensures
        views_of_nodes(v@) == filter_nodes_kind(views_of_nodes(ns@), kind),
{
    let ghost nv = views_of_nodes(ns@);
    let mut out: Vec<Node> = Vec::new();
    let mut i: usize = 0;
    proof {
        assert(nv.take(0int) =~= Seq::<NodeV>::empty());
        assert(views_of_nodes(out@) =~= filter_nodes_kind(nv.take(0int), kind));
    }
    while i < ns.len()
        invariant
            i <= ns.len(),
            nv == views_of_nodes(ns@),
            views_of_nodes(out@) == filter_nodes_kind(nv.take(i as int), kind),
        decreases ns.len() - i,
    {
        let ghost prev = views_of_nodes(out@);
        if ns[i].kind == kind {
            out.push(ns[i].clone());
            proof {
                assert(views_of_nodes(out@) =~= prev.push(nv[i as int]));
            }
        }
        proof {
            assert(nv.take(i + 1int).drop_last() =~= nv.take(i as int));
            assert(nv.take(i + 1int).last() == nv[i as int]);
        }
        i = i + 1;
    }
    proof {
        assert(nv.take(ns@.len() as int) =~= nv);
    }
    out
}

/// The nodes of `ns` with the given kind and name, freshly cloned, in order.
pub fn find_by_name_in(ns: &Vec<Node>, kind: NodeKind, name: &str) -> (v: Vec<Node>)
    ensures
        views_of_nodes(v@) == filter_nodes_kind_name(views_of_nodes(ns@), kind, name@),
{
    let ghost nv = views_of_nodes(ns@);
    let mut out: Vec<Node> = Vec::new();
    let mut i: usize = 0;
    proof {
        assert(nv.take(0int) =~= Seq::<NodeV>::empty());
        assert(views_of_nodes(out@) =~= filter_nodes_kind_name(nv.take(0int), kind, name@));
    }
    while i < ns.len()
        invariant
            i <= ns.len(),
            nv == views_of_nodes(ns@),
            views_of_nodes(out@) == filter_nodes_kind_name(nv.take(i as int), kind, name@),
        decreases ns.len() - i,
    {
        let ghost prev = views_of_nodes(out@);
        let kind_hit = ns[i].kind == kind;
        let name_hit = crate::taxonomy::str_eq_str(ns[i].data.name.as_str(), name);
        if kind_hit && name_hit {
            out.push(ns[i].clone());
            proof {
                assert(views_of_nodes(out@) =~= prev.push(nv[i as int]));
            }
        }
        proof {
            assert(nv.take(i + 1int).drop_last() =~= nv.take(i as int));
            assert(nv.take(i + 1int).last() == nv[i as int]);
        }
        i = i + 1;
    }
    proof {
        assert(nv.take(ns@.len() as int) =~= nv);
    }
    out
}

/// How many edges of `es` have the given kind.
pub fn count_edges_in(es: &Vec<Edge>, kind: EdgeKind) -> (c: usize)
    ensures
        c == filter_edges_kind(views_of_edges(es@), kind).len(),
{
    let ghost ev = views_of_edges(es@);
    let mut count: usize = 0;
    let mut i: usize = 0;
    proof {
        assert(ev.take(0int) =~= Seq::<EdgeV>::empty());
    }
    while i < es.len()
        invariant
            i <= es.len(),
            ev == views_of_edges(es@),
            count == filter_edges_kind(ev.take(i as int), kind).len(),
            count <= i,
        decreases es.len() - i,
    {
        proof {
            assert(ev.take(i + 1int).drop_last() =~= ev.take(i as int));
            assert(ev.take(i + 1int).last() == ev[i as int]);
        }
        if es[i].kind == kind {
            count = count + 1;
        }
        i = i + 1;
    }
    proof {
        assert(ev.take(es@.len() as int) =~= ev);
    }
    count
}

/// A fresh copy of every node, in order.
pub fn clone_nodes(ns: &Vec<Node>) -> (v: Vec<Node>)
    ensures
        views_of_nodes(v@) == views_of_nodes(ns@),
{
    let mut out: Vec<Node> = Vec::new();
    let mut i: usize = 0;
    while i < ns.len()
        invariant
            i <= ns.len(),
            out@.len() == i,
            forall|j: int| 0 <= j < i ==> (#[trigger] out@[j])@ == ns@[j]@,
        decreases ns.len() - i,
    {
        out.push(ns[i].clone());
        i = i + 1;
    }
    proof {
        assert(views_of_nodes(out@) =~= views_of_nodes(ns@));
    }
    out
}

/// A fresh copy of every edge, in order.
pub fn clone_edges(es: &Vec<Edge>) -> (v: Vec<Edge>)
    ensures
        views_of_edges(v@) == views_of_edges(es@),
{
    let mut out: Vec<Edge> = Vec::new();
    let mut i: usize = 0;
    while i < es.len()
        invariant
            i <= es.len(),
            out@.len() == i,
            forall|j: int| 0 <= j < i ==> (#[trigger] out@[j])@ == es@[j]@,
        decreases es.len() - i,
    {
        out.push(es[i].clone());
        i = i + 1;
    }
    proof {
        assert(views_of_edges(out@) =~= views_of_edges(es@));
    }
    out
}

} // verus!
