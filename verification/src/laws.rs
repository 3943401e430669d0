//! The engine's global guarantees, stated and proved once over the
//! pipeline's specification: backend parity, determinism, absence of
//! dangling edges, the single Language node, and graceful degradation
//! when the external symbol-resolution service is disabled.

use vstd::prelude::*;

use crate::builder::{collect_edges, collect_nodes, insert_edges_from, insert_nodes_from,
    lang_node, spec_build_edges, spec_build_nodes};
use crate::input::{ConfigV, InputV};
use crate::store::{filter_edges_kind, filter_nodes_kind, has_node_key, spec_insert_edge,
    spec_insert_node, wf_edges, GraphStore};
use crate::taxonomy::{EdgeKind, EdgeV, NodeKind, NodeV, RefV};

verus! {

/// Backend parity: two stores holding the same finished build, whatever
/// their backends, are observably identical.  Every query of the store
/// contract is a function of the node and edge views alone, so equal
/// views mean equal sizes and equal matches for every typed lookup.
pub proof fn lemma_backend_parity<G1: GraphStore, G2: GraphStore>(
    g1: &G1,
    g2: &G2,
    inp: InputV,
    cfg: ConfigV,
)
    requires
        g1.node_views() == spec_build_nodes(inp),
        g1.edge_views() == spec_build_edges(inp, cfg),
        g2.node_views() == spec_build_nodes(inp),
        g2.edge_views() == spec_build_edges(inp, cfg),
    ensures
        g1.node_views() == g2.node_views(),
        g1.edge_views() == g2.edge_views(),
        g1.node_views().len() == g2.node_views().len(),
        g1.edge_views().len() == g2.edge_views().len(),
        forall|k: NodeKind|
            filter_nodes_kind(g1.node_views(), k) == filter_nodes_kind(g2.node_views(), k),
        forall|k: EdgeKind|
            filter_edges_kind(g1.edge_views(), k) == filter_edges_kind(g2.edge_views(), k),
{
}

/// Determinism: two builds of the same unchanged input with the same
/// parameters hold identical nodes and edges, in the same order.
pub proof fn lemma_build_deterministic<G1: GraphStore, G2: GraphStore>(
    g1: &G1,
    g2: &G2,
    inp: InputV,
    cfg: ConfigV,
)
    requires
        g1.node_views() == spec_build_nodes(inp),
        g1.edge_views() == spec_build_edges(inp, cfg),
        g2.node_views() == spec_build_nodes(inp),
        g2.edge_views() == spec_build_edges(inp, cfg),
    ensures
        g1.node_views() == g2.node_views(),
        g1.edge_views() == g2.edge_views(),
{
}

/// Folding edge candidates into a well-formed edge sequence keeps it
/// well-formed: an edge is only ever appended with both endpoints held.
pub proof fn lemma_insert_edges_wf(ns: Seq<NodeV>, es: Seq<EdgeV>, cands: Seq<EdgeV>, i: int)
    requires
        wf_edges(ns, es),
    ensures
        wf_edges(ns, insert_edges_from(ns, es, cands, i)),
    decreases cands.len() - i,
{
    if 0 <= i < cands.len() {
        let es2 = spec_insert_edge(ns, es, cands[i]);
        assert(wf_edges(ns, es2)) by {
            if es2 != es {
                assert forall|k: int| 0 <= k < es2.len() implies has_node_key(
                    ns,
                    (#[trigger] es2[k]).source,
                ) && has_node_key(ns, es2[k].target) by {
                    if k < es.len() {
                        assert(es2[k] == es[k]);
                    } else {
                        assert(es2[k] == cands[i]);
                    }
                }
            }
        }
        lemma_insert_edges_wf(ns, es2, cands, i + 1);
    }
}

/// No dangling edges: every edge of a finished build has both endpoints
/// present as nodes of the same build.
pub proof fn lemma_no_dangling(inp: InputV, cfg: ConfigV)
    ensures
        wf_edges(spec_build_nodes(inp), spec_build_edges(inp, cfg)),
{
    let ns = spec_build_nodes(inp);
    assert(wf_edges(ns, Seq::<EdgeV>::empty()));
    lemma_insert_edges_wf(ns, Seq::<EdgeV>::empty(), collect_edges(inp, cfg), 0);
}

/// Appending a node of another kind leaves a kind's filter unchanged.
proof fn lemma_filter_push_miss(s: Seq<NodeV>, n: NodeV, k: NodeKind)
    requires
        n.kind != k,
    ensures
        filter_nodes_kind(s.push(n), k) == filter_nodes_kind(s, k),
{
    assert(s.push(n).drop_last() =~= s);
    assert(s.push(n).last() == n);
}

/// Folding in candidates none of which has kind `k` leaves the filter
/// for `k` unchanged.
proof fn lemma_insert_skip_kind(s: Seq<NodeV>, cands: Seq<NodeV>, i: int, k: NodeKind)
    requires
        forall|j: int| i <= j < cands.len() ==> (#[trigger] cands[j]).kind != k,
    ensures
        filter_nodes_kind(insert_nodes_from(s, cands, i), k) == filter_nodes_kind(s, k),
    decreases cands.len() - i,
{
    if 0 <= i < cands.len() {
        let s2 = spec_insert_node(s, cands[i]);
        if s2 != s {
            lemma_filter_push_miss(s, cands[i], k);
        }
        lemma_insert_skip_kind(s2, cands, i + 1, k);
    } else if i < 0 {
        lemma_insert_skip_kind(s, cands, 0, k);
    }
}

/// No candidate node after the head of the pipeline's enumeration is a
/// Language node.
proof fn lemma_tail_no_language(inp: InputV)
    ensures
        forall|j: int|
            1 <= j < collect_nodes(inp).len() ==> (#[trigger] collect_nodes(inp)[j]).kind
                != NodeKind::Language,
{
    let cn = collect_nodes(inp);
    lemma_files_nodes_no_language(inp.files, 0);
    lemma_files_request_no_language(inp.files, 0);
    lemma_files_page_no_language(inp.files, 0);
    assert forall|j: int| 1 <= j < cn.len() implies (#[trigger] cn[j]).kind != NodeKind::Language by {
        let a = seq![lang_node(inp)];
        let b = crate::builder::files_nodes_from(inp.files, 0);
        let c = crate::builder::files_request_nodes_from(inp.files, 0);
        let d = crate::builder::files_page_nodes_from(inp.files, 0);
        if j < a.len() + b.len() {
            assert(cn[j] == b[j - 1]);
        } else if j < a.len() + b.len() + c.len() {
            assert(cn[j] == c[j - a.len() - b.len()]);
        } else {
            assert(cn[j] == d[j - a.len() - b.len() - c.len()]);
        }
    }
}

/// No structural file node is a Language node.
proof fn lemma_files_nodes_no_language(files: Seq<crate::input::FileV>, i: int)
    ensures
        forall|j: int|
            0 <= j < crate::builder::files_nodes_from(files, i).len() ==> (
            #[trigger] crate::builder::files_nodes_from(files, i)[j]).kind != NodeKind::Language,
    decreases files.len() - i,
{
    if 0 <= i < files.len() {
        lemma_files_nodes_no_language(files, i + 1);
        let f = files[i];
        let fn0 = crate::builder::file_nodes(f);
        assert forall|j: int| 0 <= j < fn0.len() implies (#[trigger] fn0[j]).kind
            != NodeKind::Language by {
            let s1 = seq![crate::builder::file_node(f)];
            let s2 = crate::builder::ent_nodes_spec(f.functions, NodeKind::Function, f.path);
            let s3 = crate::builder::ent_nodes_spec(f.classes, NodeKind::Class, f.path);
            let s4 = crate::builder::import_nodes_spec(f.imports, f.path);
            let s5 = crate::builder::model_nodes_spec(f.models, f.path);
            let s6 = crate::builder::lib_nodes_spec(f.libs, f.path);
            if j < s1.len() {
            } else if j < s1.len() + s2.len() {
                assert(fn0[j] == s2[j - s1.len()]);
            } else if j < s1.len() + s2.len() + s3.len() {
                assert(fn0[j] == s3[j - s1.len() - s2.len()]);
            } else if j < s1.len() + s2.len() + s3.len() + s4.len() {
                assert(fn0[j] == s4[j - s1.len() - s2.len() - s3.len()]);
            } else if j < s1.len() + s2.len() + s3.len() + s4.len() + s5.len() {
                assert(fn0[j] == s5[j - s1.len() - s2.len() - s3.len() - s4.len()]);
            } else {
                assert(fn0[j] == s6[j - s1.len() - s2.len() - s3.len() - s4.len() - s5.len()]);
            }
        }
    }
}

/// No Request node is a Language node.
proof fn lemma_request_nodes_no_language(routes: Seq<crate::input::RouteV>, path: Seq<char>, i: int)
    ensures
        forall|j: int|
            0 <= j < crate::builder::request_nodes_from(routes, path, i).len() ==> (
            #[trigger] crate::builder::request_nodes_from(routes, path, i)[j]).kind
                != NodeKind::Language,
    decreases routes.len() - i,
{
    if 0 <= i < routes.len() {
        lemma_request_nodes_no_language(routes, path, i + 1);
    }
}

/// No file's Request nodes hold a Language node.
proof fn lemma_files_request_no_language(files: Seq<crate::input::FileV>, i: int)
    ensures
        forall|j: int|
            0 <= j < crate::builder::files_request_nodes_from(files, i).len() ==> (
            #[trigger] crate::builder::files_request_nodes_from(files, i)[j]).kind
                != NodeKind::Language,
    decreases files.len() - i,
{
    if 0 <= i < files.len() {
        lemma_files_request_no_language(files, i + 1);
        lemma_request_nodes_no_language(files[i].routes, files[i].path, 0);
    }
}

/// No file's Page nodes hold a Language node.
proof fn lemma_files_page_no_language(files: Seq<crate::input::FileV>, i: int)
    ensures
        forall|j: int|
            0 <= j < crate::builder::files_page_nodes_from(files, i).len() ==> (
            #[trigger] crate::builder::files_page_nodes_from(files, i)[j]).kind
                != NodeKind::Language,
    decreases files.len() - i,
{
    if 0 <= i < files.len() {
        lemma_files_page_no_language(files, i + 1);
    }
}

/// Single Language node: every finished build holds exactly one node of
/// kind Language, named for the declared language and rooted at the
/// repository path.
pub proof fn lemma_single_language(inp: InputV)
    ensures
        filter_nodes_kind(spec_build_nodes(inp), NodeKind::Language) == seq![lang_node(inp)],
        lang_node(inp).name == inp.language,
        lang_node(inp).file == inp.root,
{
    let cn = collect_nodes(inp);
    let head = lang_node(inp);
    assert(cn[0] == head);
    assert(!has_node_key(Seq::<NodeV>::empty(), head.key()));
    assert(spec_insert_node(Seq::<NodeV>::empty(), head) =~= seq![head]);
    assert(spec_build_nodes(inp) == insert_nodes_from(seq![head], cn, 1));
    lemma_tail_no_language(inp);
    lemma_insert_skip_kind(seq![head], cn, 1, NodeKind::Language);
    assert(seq![head].drop_last() =~= Seq::<NodeV>::empty());
    assert(seq![head].last() == head);
    assert(filter_nodes_kind(Seq::<NodeV>::empty(), NodeKind::Language)
        == Seq::<NodeV>::empty());
    assert(filter_nodes_kind(seq![head], NodeKind::Language) == filter_nodes_kind(
        seq![head].drop_last(),
        NodeKind::Language,
    ).push(head));
    assert(Seq::<NodeV>::empty().push(head) =~= seq![head]);
}

/// Graceful degradation, node half: two builds of one input that differ
/// only in their symbol-resolution parameters hold the very same nodes;
/// disabling the external service can only change edges.
pub proof fn lemma_resolver_nodes_unchanged<G1: GraphStore, G2: GraphStore>(
    g1: &G1,
    g2: &G2,
    inp: InputV,
    c1: ConfigV,
    c2: ConfigV,
)
    requires
        g1.node_views() == spec_build_nodes(inp),
        g1.edge_views() == spec_build_edges(inp, c1),
        g2.node_views() == spec_build_nodes(inp),
        g2.edge_views() == spec_build_edges(inp, c2),
    ensures
        g1.node_views() == g2.node_views(),
        g1.node_views().len() == g2.node_views().len(),
{
}


/// Whether some edge of `es` has identity `k`.
pub open spec fn has_ekey(es: Seq<EdgeV>, k: (EdgeKind, RefV, RefV)) -> bool {
    exists|i: int| 0 <= i < es.len() && (#[trigger] es[i]).key() == k
}

/// No two edges of `es` share an identity.
pub open spec fn unique_ekeys(es: Seq<EdgeV>) -> bool {
    forall|i: int, j: int|
        0 <= i < j < es.len() ==> (#[trigger] es[i]).key() != (#[trigger] es[j]).key()
}

/// Identity membership across a push.
proof fn lemma_has_push(es: Seq<EdgeV>, e: EdgeV, k: (EdgeKind, RefV, RefV))
    ensures
        has_ekey(es.push(e), k) <==> (has_ekey(es, k) || e.key() == k),
{
    if has_ekey(es, k) {
        let i = choose|i: int| 0 <= i < es.len() && (#[trigger] es[i]).key() == k;
        assert(es.push(e)[i].key() == k);
    }
    if e.key() == k {
        assert(es.push(e)[es.len() as int].key() == k);
    }
    if has_ekey(es.push(e), k) {
        let i = choose|i: int| 0 <= i < es.push(e).len() && (#[trigger] es.push(e)[i]).key() == k;
        if i < es.len() {
            assert(es[i].key() == k);
        }
    }
}

/// Identity membership across a concatenation.
proof fn lemma_has_concat(a: Seq<EdgeV>, b: Seq<EdgeV>, k: (EdgeKind, RefV, RefV))
    ensures
        has_ekey(a + b, k) <==> (has_ekey(a, k) || has_ekey(b, k)),
{
    if has_ekey(a, k) {
        let i = choose|i: int| 0 <= i < a.len() && (#[trigger] a[i]).key() == k;
        assert((a + b)[i].key() == k);
    }
    if has_ekey(b, k) {
        let i = choose|i: int| 0 <= i < b.len() && (#[trigger] b[i]).key() == k;
        assert((a + b)[a.len() + i].key() == k);
    }
    if has_ekey(a + b, k) {
        let i = choose|i: int| 0 <= i < (a + b).len() && (#[trigger] (a + b)[i]).key() == k;
        if i < a.len() {
            assert(a[i].key() == k);
        } else {
            assert(b[i - a.len()].key() == k);
        }
    }
}

/// The fold keeps edge identities unique: a candidate whose identity is
/// already present is dropped.
proof fn lemma_fold_unique(ns: Seq<NodeV>, es: Seq<EdgeV>, cands: Seq<EdgeV>, i: int)
    requires
        unique_ekeys(es),
    ensures
        unique_ekeys(insert_edges_from(ns, es, cands, i)),
    decreases cands.len() - i,
{
    if 0 <= i < cands.len() {
        let es2 = spec_insert_edge(ns, es, cands[i]);
        assert(unique_ekeys(es2)) by {
            if es2 != es {
                assert forall|x: int, y: int| 0 <= x < y < es2.len() implies (
                #[trigger] es2[x]).key() != (#[trigger] es2[y]).key() by {
                    if y < es.len() {
                        assert(es2[x] == es[x] && es2[y] == es[y]);
                    } else {
                        assert(es2[y] == cands[i]);
                        assert(es2[x] == es[x]);
                        assert(!crate::store::has_edge_key(es, cands[i]));
                        assert(es[x].key() != cands[i].key());
                    }
                }
            }
        }
        lemma_fold_unique(ns, es2, cands, i + 1);
    }
}

/// What identities the fold's result holds: those already present, and
/// those of candidates whose endpoints exist.
proof fn lemma_fold_membership(
    ns: Seq<NodeV>,
    es: Seq<EdgeV>,
    cands: Seq<EdgeV>,
    i: int,
    k: (EdgeKind, RefV, RefV),
)
    requires
        0 <= i,
    ensures
        has_ekey(insert_edges_from(ns, es, cands, i), k) <==> (has_ekey(es, k) || (exists|j: int|
            i <= j < cands.len() && (#[trigger] cands[j]).key() == k && has_node_key(ns, k.1)
                && has_node_key(ns, k.2))),
    decreases cands.len() - i,
{
    if i < cands.len() {
        let es2 = spec_insert_edge(ns, es, cands[i]);
        lemma_fold_membership(ns, es2, cands, i + 1, k);
        let head_ok = cands[i].key() == k && has_node_key(ns, k.1) && has_node_key(ns, k.2);
        if crate::store::spec_edge_insertable(ns, es, cands[i]) {
            lemma_has_push(es, cands[i], k);
            if cands[i].key() == k {
                assert(cands[i].source == k.1 && cands[i].target == k.2);
            }
            assert(has_ekey(es2, k) <==> (has_ekey(es, k) || head_ok));
        } else {
            assert(es2 == es);
            if head_ok {
                assert(cands[i].source == k.1 && cands[i].target == k.2);
                assert(crate::store::has_edge_key(es, cands[i]));
                let x = choose|x: int|
                    0 <= x < es.len() && (#[trigger] es[x]).key() == cands[i].key();
                assert(es[x].key() == k);
                assert(has_ekey(es, k));
            }
            assert(has_ekey(es2, k) <==> (has_ekey(es, k) || head_ok));
        }
        assert((exists|j: int|
            i <= j < cands.len() && (#[trigger] cands[j]).key() == k && has_node_key(ns, k.1)
                && has_node_key(ns, k.2)) <==> (head_ok || (exists|j: int|
            i + 1 <= j < cands.len() && (#[trigger] cands[j]).key() == k && has_node_key(ns, k.1)
                && has_node_key(ns, k.2)))) by {
            if exists|j: int|
                i <= j < cands.len() && (#[trigger] cands[j]).key() == k && has_node_key(ns, k.1)
                    && has_node_key(ns, k.2) {
                let j = choose|j: int|
                    i <= j < cands.len() && (#[trigger] cands[j]).key() == k && has_node_key(
                        ns,
                        k.1,
                    ) && has_node_key(ns, k.2);
                if j == i {
                    assert(head_ok);
                }
            }
            if head_ok {
                assert(i <= i < cands.len() && cands[i].key() == k && has_node_key(ns, k.1)
                    && has_node_key(ns, k.2));
            }
        }
    }
}

/// With the service disabled, whatever a reference resolves to it also
/// resolves to with any other parameters: steps (a)-(c) are consulted
/// first either way.
proof fn lemma_ref_edge_mono(
    inp: InputV,
    f: crate::input::FileV,
    r: crate::input::RefCandV,
    off: ConfigV,
    on: ConfigV,
)
    requires
        off.use_resolver == false,
    ensures
        crate::builder::ref_edge(inp, f, r, off) is Some ==> crate::builder::ref_edge(inp, f, r, on)
            == crate::builder::ref_edge(inp, f, r, off),
{
}

/// Every reference-edge identity of the service-off build is one of the
/// service-on build, file by file.
proof fn lemma_ref_edges_keys_mono(
    inp: InputV,
    f: crate::input::FileV,
    off: ConfigV,
    on: ConfigV,
    i: int,
    k: (EdgeKind, RefV, RefV),
)
    requires
        off.use_resolver == false,
    ensures
        has_ekey(crate::builder::ref_edges_from(inp, f, off, i), k) ==> has_ekey(
            crate::builder::ref_edges_from(inp, f, on, i),
            k,
        ),
    decreases f.refs.len() - i,
{
    if 0 <= i < f.refs.len() {
        lemma_ref_edges_keys_mono(inp, f, off, on, i + 1, k);
        lemma_ref_edge_mono(inp, f, f.refs[i], off, on);
        let h_off = crate::builder::opt_edges(crate::builder::ref_edge(inp, f, f.refs[i], off));
        let h_on = crate::builder::opt_edges(crate::builder::ref_edge(inp, f, f.refs[i], on));
        lemma_has_concat(h_off, crate::builder::ref_edges_from(inp, f, off, i + 1), k);
        lemma_has_concat(h_on, crate::builder::ref_edges_from(inp, f, on, i + 1), k);
        if has_ekey(h_off, k) {
            assert(h_on == h_off);
        }
    }
}

/// Every reference-edge identity of the service-off build is one of the
/// service-on build.
proof fn lemma_files_ref_keys_mono(
    inp: InputV,
    off: ConfigV,
    on: ConfigV,
    i: int,
    k: (EdgeKind, RefV, RefV),
)
    requires
        off.use_resolver == false,
    ensures
        has_ekey(crate::builder::files_ref_edges_from(inp, off, i), k) ==> has_ekey(
            crate::builder::files_ref_edges_from(inp, on, i),
            k,
        ),
    decreases inp.files.len() - i,
{
    if 0 <= i < inp.files.len() {
        lemma_files_ref_keys_mono(inp, off, on, i + 1, k);
        lemma_ref_edges_keys_mono(inp, inp.files[i], off, on, 0, k);
        lemma_has_concat(
            crate::builder::ref_edges_from(inp, inp.files[i], off, 0),
            crate::builder::files_ref_edges_from(inp, off, i + 1),
            k,
        );
        lemma_has_concat(
            crate::builder::ref_edges_from(inp, inp.files[i], on, 0),
            crate::builder::files_ref_edges_from(inp, on, i + 1),
            k,
        );
    }
}

/// Every candidate-edge identity of the service-off build is one of the
/// service-on build.
proof fn lemma_collect_keys_mono(inp: InputV, off: ConfigV, on: ConfigV, k: (EdgeKind, RefV, RefV))
    requires
        off.use_resolver == false,
    ensures
        has_ekey(collect_edges(inp, off), k) ==> has_ekey(collect_edges(inp, on), k),
{
    let a = crate::builder::files_contains_from(inp.files, 0);
    let b = crate::builder::files_import_edges_from(inp, 0);
    let r_off = crate::builder::files_ref_edges_from(inp, off, 0);
    let r_on = crate::builder::files_ref_edges_from(inp, on, 0);
    let c = crate::builder::files_route_edges_from(inp.files, 0);
    let d = crate::builder::files_page_edges_from(inp, 0);
    let u = crate::builder::files_uses_edges_from(inp, 0);
    lemma_files_ref_keys_mono(inp, off, on, 0, k);
    lemma_has_concat(a, b, k);
    lemma_has_concat(a + b, r_off, k);
    lemma_has_concat(a + b + r_off, c, k);
    lemma_has_concat(a + b + r_off + c, d, k);
    lemma_has_concat(a + b + r_off + c + d, u, k);
    lemma_has_concat(a + b, r_on, k);
    lemma_has_concat(a + b + r_on, c, k);
    lemma_has_concat(a + b + r_on + c, d, k);
    lemma_has_concat(a + b + r_on + c + d, u, k);
}

/// Which identities a kind's filter holds.
proof fn lemma_filter_haskey(es: Seq<EdgeV>, kind: EdgeKind, k: (EdgeKind, RefV, RefV))
    ensures
        has_ekey(filter_edges_kind(es, kind), k) <==> (has_ekey(es, k) && k.0 == kind),
    decreases es.len(),
{
    if es.len() > 0 {
        let dl = es.drop_last();
        lemma_filter_haskey(dl, kind, k);
        assert(es =~= dl.push(es.last()));
        lemma_has_push(dl, es.last(), k);
        if es.last().kind == kind {
            lemma_has_push(filter_edges_kind(dl, kind), es.last(), k);
        }
    }
}

/// A kind's filter of a unique-identity sequence has unique identities.
proof fn lemma_filter_unique(es: Seq<EdgeV>, kind: EdgeKind)
    requires
        unique_ekeys(es),
    ensures
        unique_ekeys(filter_edges_kind(es, kind)),
    decreases es.len(),
{
    if es.len() > 0 {
        let dl = es.drop_last();
        assert(unique_ekeys(dl)) by {
            assert(es =~= dl.push(es.last()));
            assert forall|x: int, y: int| 0 <= x < y < dl.len() implies (#[trigger] dl[x]).key()
                != (#[trigger] dl[y]).key() by {
                assert(dl[x] == es[x] && dl[y] == es[y]);
            }
        }
        lemma_filter_unique(dl, kind);
        if es.last().kind == kind {
            let fdl = filter_edges_kind(dl, kind);
            assert(!has_ekey(fdl, es.last().key())) by {
                lemma_filter_haskey(dl, kind, es.last().key());
                if has_ekey(dl, es.last().key()) {
                    let x = choose|x: int|
                        0 <= x < dl.len() && (#[trigger] dl[x]).key() == es.last().key();
                    assert(es =~= dl.push(es.last()));
                    assert(es[x].key() == es[es.len() - 1].key());
                    assert(false);
                }
            }
            assert forall|x: int, y: int| 0 <= x < y < fdl.push(es.last()).len() implies (
            #[trigger] fdl.push(es.last())[x]).key() != (#[trigger] fdl.push(es.last())[y]).key()
                by {
                if y < fdl.len() {
                    assert(fdl.push(es.last())[x] == fdl[x] && fdl.push(es.last())[y] == fdl[y]);
                } else {
                    assert(fdl.push(es.last())[y] == es.last());
                    assert(fdl.push(es.last())[x] == fdl[x]);
                    assert(has_ekey(fdl, fdl[x].key()));
                }
            }
        }
    }
}

/// Graceful degradation: disabling the external symbol-resolution
/// service leaves every node in place (the node pipeline never consults
/// it) and can only remove Calls edges, never add them.
pub proof fn lemma_resolver_degradation(inp: InputV, off: ConfigV, on: ConfigV)
    requires
        off.use_resolver == false,
    ensures
        filter_edges_kind(spec_build_edges(inp, off), EdgeKind::Calls).len() <= filter_edges_kind(
            spec_build_edges(inp, on),
            EdgeKind::Calls,
        ).len(),
{
    broadcast use vstd::seq_lib::seq_to_set_is_finite;

    let ns = spec_build_nodes(inp);
    let r1 = spec_build_edges(inp, off);
    let r2 = spec_build_edges(inp, on);
    lemma_fold_unique(ns, Seq::<EdgeV>::empty(), collect_edges(inp, off), 0);
    lemma_fold_unique(ns, Seq::<EdgeV>::empty(), collect_edges(inp, on), 0);
    lemma_filter_unique(r1, EdgeKind::Calls);
    lemma_filter_unique(r2, EdgeKind::Calls);
    let cf1 = filter_edges_kind(r1, EdgeKind::Calls);
    let cf2 = filter_edges_kind(r2, EdgeKind::Calls);
    let s1 = cf1.map_values(|e: EdgeV| e.key());
    let s2 = cf2.map_values(|e: EdgeV| e.key());
    assert(s1.no_duplicates()) by {
        assert forall|x: int, y: int| 0 <= x < s1.len() && 0 <= y < s1.len() && x != y implies s1[x]
            != s1[y] by {
            assert(s1[x] == cf1[x].key() && s1[y] == cf1[y].key());
        }
    }
    assert(s2.no_duplicates()) by {
        assert forall|x: int, y: int| 0 <= x < s2.len() && 0 <= y < s2.len() && x != y implies s2[x]
            != s2[y] by {
            assert(s2[x] == cf2[x].key() && s2[y] == cf2[y].key());
        }
    }
    assert(s1.to_set() <= s2.to_set()) by {
        assert forall|k: (EdgeKind, RefV, RefV)| s1.to_set().contains(k) implies s2.to_set()
            .contains(k) by {
            let x = choose|x: int| 0 <= x < s1.len() && s1[x] == k;
            assert(cf1[x].key() == k);
            assert(has_ekey(cf1, k));
            lemma_filter_haskey(r1, EdgeKind::Calls, k);
            lemma_fold_membership(ns, Seq::<EdgeV>::empty(), collect_edges(inp, off), 0, k);
            lemma_collect_keys_mono(inp, off, on, k);
            lemma_fold_membership(ns, Seq::<EdgeV>::empty(), collect_edges(inp, on), 0, k);
            lemma_filter_haskey(r2, EdgeKind::Calls, k);
            let y = choose|y: int| 0 <= y < cf2.len() && (#[trigger] cf2[y]).key() == k;
            assert(s2[y] == k);
            assert(s2.contains(k));
        }
    }
    s1.unique_seq_to_set();
    s2.unique_seq_to_set();
    vstd::set_lib::lemma_len_subset(s1.to_set(), s2.to_set());
}

} // verus!
