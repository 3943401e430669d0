//! The ordered-map-backed store: nodes and edges held in `BTreeMap`s keyed
//! by a dense insertion index, so key order and insertion order coincide
//! and every query answers exactly as the array backend does.

use vstd::prelude::*;

use std::collections::BTreeMap;

use crate::store::{
    count_edges_in, find_by_name_in, find_by_type_in, has_node_key, slice_has_ref,
    unique_node_keys, views_of_edges, views_of_nodes, wf_edges, GraphStore,
};
use crate::taxonomy::{Edge, EdgeKind, EdgeV, Node, NodeKind, NodeV};

verus! {

broadcast use vstd::laws_cmp::group_laws_cmp;

/// The node views of an index-keyed map, in key order.
pub open spec fn map_node_views(m: Map<u64, Node>) -> Seq<NodeV> {
    Seq::new(m.dom().len(), |i: int| m[i as u64]@)
}

/// The edge views of an index-keyed map, in key order.
pub open spec fn map_edge_views(m: Map<u64, Edge>) -> Seq<EdgeV> {
    Seq::new(m.dom().len(), |i: int| m[i as u64]@)
}

/// The keys are exactly the indices below the map's size.
pub open spec fn dom_is_range<T>(m: Map<u64, T>) -> bool {
    forall|k: u64| m.dom().contains(k) <==> (k as nat) < m.dom().len()
}

/// The ordered-map-backed store.
pub struct BTreeMapGraph {
    pub node_map: BTreeMap<u64, Node>,
    pub edge_map: BTreeMap<u64, Edge>,
}

impl GraphStore for BTreeMapGraph {
    open spec fn node_views(&self) -> Seq<NodeV> {
        map_node_views(self.node_map@)
    }

    open spec fn edge_views(&self) -> Seq<EdgeV> {
        map_edge_views(self.edge_map@)
    }

    open spec fn inv(&self) -> bool {
        &&& dom_is_range(self.node_map@)
        &&& dom_is_range(self.edge_map@)
        &&& unique_node_keys(self.node_views())
        &&& wf_edges(self.node_views(), self.edge_views())
    }

    proof fn lemma_inv_wf(&self) {
    }

    fn empty() -> (g: Self)
    {
        let g = BTreeMapGraph { node_map: BTreeMap::new(), edge_map: BTreeMap::new() };
        proof {
            vstd::set_lib::lemma_set_empty_equivalency_len(g.node_map@.dom());
            vstd::set_lib::lemma_set_empty_equivalency_len(g.edge_map@.dom());
            assert(g.node_map@.dom() =~= Set::<u64>::empty());
            assert(g.edge_map@.dom() =~= Set::<u64>::empty());
            assert(g.node_views() =~= Seq::<NodeV>::empty());
            assert(g.edge_views() =~= Seq::<EdgeV>::empty());
        }
        g
    }

    fn insert_node(&mut self, n: Node) -> (inserted: bool)
    {
        let snapshot = self.all_nodes();
        let present = crate::store::slice_has_node_key(&snapshot, &n);
        if present {
            false
        } else {
            let count = self.node_map.len();
            let ghost old_views = self.node_views();
            let ghost old_map = self.node_map@;
            let ghost nv = n@;
            self.node_map.insert(count as u64, n);
            proof {
                assert(!old_map.dom().contains(count as u64));
                assert(self.node_map@.dom() =~= old_map.dom().insert(count as u64));
                assert(old_map.dom().insert(count as u64).len() == old_map.dom().len() + 1) by {
                    vstd::set::axiom_set_insert_len(old_map.dom(), count as u64);
                }
                assert(self.node_views() =~= old_views.push(nv));
                assert(dom_is_range(self.node_map@));
                assert forall|k: int| 0 <= k < self.edge_views().len() implies has_node_key(
                    self.node_views(),
                    (#[trigger] self.edge_views()[k]).source,
                ) && has_node_key(self.node_views(), self.edge_views()[k].target) by {
                    crate::store::lemma_has_node_key_push(old_views, nv, self.edge_views()[k].source);
                    crate::store::lemma_has_node_key_push(old_views, nv, self.edge_views()[k].target);
                }
            }
            true
        }
    }

    fn insert_edge(&mut self, e: Edge) -> (inserted: bool)
    {
        let snapshot = self.all_nodes();
        let src_ok = slice_has_ref(&snapshot, &e.source);
        let tgt_ok = slice_has_ref(&snapshot, &e.target);
        if !src_ok || !tgt_ok {
            return false;
        }
        let existing = self.all_edges();
        let dup = crate::store::slice_has_edge_key(&existing, &e);
        if dup {
            return false;
        }
        let count = self.edge_map.len();
        let ghost old_views = self.edge_views();
        let ghost old_map = self.edge_map@;
        let ghost ev = e@;
        self.edge_map.insert(count as u64, e);
        proof {
            assert(!old_map.dom().contains(count as u64));
            assert(self.edge_map@.dom() =~= old_map.dom().insert(count as u64));
            assert(old_map.dom().insert(count as u64).len() == old_map.dom().len() + 1) by {
                vstd::set::axiom_set_insert_len(old_map.dom(), count as u64);
            }
            assert(self.edge_views() =~= old_views.push(ev));
            assert(dom_is_range(self.edge_map@));
        }
        true
    }

    fn graph_size(&self) -> (r: (usize, usize))
    {
        (self.node_map.len(), self.edge_map.len())
    }

    fn find_nodes_by_type(&self, kind: NodeKind) -> (v: Vec<Node>)
    {
        let all = self.all_nodes();
        find_by_type_in(&all, kind)
    }

    fn find_nodes_by_name(&self, kind: NodeKind, name: &str) -> (v: Vec<Node>)
    {
        let all = self.all_nodes();
        find_by_name_in(&all, kind, name)
    }

    fn count_edges_of_type(&self, kind: EdgeKind) -> (c: usize)
    {
        let all = self.all_edges();
        count_edges_in(&all, kind)
    }

    fn all_nodes(&self) -> (v: Vec<Node>)
    {
        let count = self.node_map.len();
        let mut out: Vec<Node> = Vec::new();
        let mut i: usize = 0;
        while i < count
            invariant
                self.inv(),
                i <= count,
                count == self.node_map@.dom().len(),
                out@.len() == i,
                forall|j: int| 0 <= j < i ==> (#[trigger] out@[j])@ == self.node_views()[j],
            decreases count - i,
        {
            proof {
                assert(self.node_map@.dom().contains(i as u64));
            }
            let found = self.node_map.get(&(i as u64));
            match found {
                Some(n) => {
                    out.push(n.clone());
                },
                None => {
                    proof {
                        assert(false);
                    }
                },
            }
            i = i + 1;
        }
        proof {
            assert(views_of_nodes(out@) =~= self.node_views());
        }
        out
    }

    fn all_edges(&self) -> (v: Vec<Edge>)
    {
        let count = self.edge_map.len();
        let mut out: Vec<Edge> = Vec::new();
        let mut i: usize = 0;
        while i < count
            invariant
                self.inv(),
                i <= count,
                count == self.edge_map@.dom().len(),
                out@.len() == i,
                forall|j: int| 0 <= j < i ==> (#[trigger] out@[j])@ == self.edge_views()[j],
            decreases count - i,
        {
            proof {
                assert(self.edge_map@.dom().contains(i as u64));
            }
            let found = self.edge_map.get(&(i as u64));
            match found {
                Some(e) => {
                    out.push(e.clone());
                },
                None => {
                    proof {
                        assert(false);
                    }
                },
            }
            i = i + 1;
        }
        proof {
            assert(views_of_edges(out@) =~= self.edge_views());
        }
        out
    }
}

} // verus!
