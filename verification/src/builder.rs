//! The build orchestrator: candidate collection, resolution, pattern
//! extraction, and loading into a Graph Store.
//!
//! The pipeline is one deterministic function of the parsed input and the
//! build parameters.  Candidate nodes are enumerated in a fixed order
//! (the Language node, then per file its File node, functions, classes,
//! imports, data models and declared libraries, then Request and Page
//! nodes), then folded into the store with duplicate identities dropped.
//! Candidate edges follow (containment, imports, resolved references,
//! route handlers, page renders); an edge whose endpoints are not both
//! present, or whose identity repeats, is dropped by the store.
//!
//! Dedup policy for requests: a Request node's identity is its route
//! path and declaring file, so repeated declarations of one logical
//! endpoint collapse into the first; a route record without a verb is a
//! malformed candidate and is skipped (log-and-skip, never abort).

use vstd::prelude::*;

use crate::input::{BuildConfig, BuildInput, ConfigV, EntityCand, EntityV, FileCand, FileV,
    ImportCand, ImportV, InputV, ModelV, PageV, RefCand, RefCandV, RefKind, RouteV};
use crate::resolve::{find_file_from, find_lib_from, resolve_abc, resolve_ref, resolve_steps_abc,
    spec_resolve};
use crate::store::{spec_insert_edge, spec_insert_node, views_of_edges, views_of_nodes, GraphStore};
use crate::strutil::{basename, basename_of};
use crate::taxonomy::{clone_meta, clone_string, meta_view, str_eq_str, Edge, EdgeKind, EdgeV,
    Node, NodeData, NodeKind, NodeRef, NodeV, RefV};

verus! {

/// The languages the engine accepts as declared primary language.
pub open spec fn lang_supported(l: Seq<char>) -> bool {
    ||| l == "react"@
    ||| l == "tsx"@
    ||| l == "kotlin"@
    ||| l == "swift"@
}

/// A fatal build error: no graph is returned.
#[derive(Clone, Copy, PartialEq, Eq, Structural, Debug)]
pub enum BuildError {
    /// The declared primary language is not supported: bad input.
    UnsupportedLanguage,
    /// The repository root path is empty: bad input.
    EmptyRepositoryRoot,
}

/// Whether the build accepts this input at all.
pub open spec fn build_ok(inp: InputV) -> bool {
    lang_supported(inp.language) && inp.root.len() > 0
}

/// The one Language node: named for the declared language, rooted at
/// the repository path.
pub open spec fn lang_node(inp: InputV) -> NodeV {
    NodeV { kind: NodeKind::Language, name: inp.language, file: inp.root, meta: Seq::empty() }
}

/// A file's File node: named by the path's basename.
pub open spec fn file_node(f: FileV) -> NodeV {
    NodeV { kind: NodeKind::File, name: basename_of(f.path), file: f.path, meta: Seq::empty() }
}

/// The nodes for one entity list.
pub open spec fn ent_nodes_spec(ents: Seq<EntityV>, kind: NodeKind, path: Seq<char>) -> Seq<NodeV> {
    ents.map_values(|e: EntityV| NodeV { kind, name: e.name, file: path, meta: Seq::empty() })
}

/// The Import nodes of one file.
pub open spec fn import_nodes_spec(imports: Seq<ImportV>, path: Seq<char>) -> Seq<NodeV> {
    imports.map_values(
        |im: ImportV| NodeV { kind: NodeKind::Import, name: im.name, file: path, meta: Seq::empty() },
    )
}

/// The DataModel nodes of one file; a model's fields become its metadata.
pub open spec fn model_nodes_spec(models: Seq<ModelV>, path: Seq<char>) -> Seq<NodeV> {
    models.map_values(
        |m: ModelV| NodeV { kind: NodeKind::DataModel, name: m.name, file: path, meta: m.fields },
    )
}

/// The Library nodes of one file's declared dependency coordinates.
pub open spec fn lib_nodes_spec(libs: Seq<Seq<char>>, path: Seq<char>) -> Seq<NodeV> {
    libs.map_values(
        |l: Seq<char>| NodeV { kind: NodeKind::Library, name: l, file: path, meta: Seq::empty() },
    )
}

/// The Page nodes of one file.
pub open spec fn page_nodes_spec(pages: Seq<PageV>, path: Seq<char>) -> Seq<NodeV> {
    pages.map_values(
        |p: PageV| NodeV { kind: NodeKind::Page, name: p.path, file: path, meta: Seq::empty() },
    )
}

/// The Request nodes of one file's routes from index `i` on; a route
/// with an empty verb is malformed and skipped.
pub open spec fn request_nodes_from(routes: Seq<RouteV>, path: Seq<char>, i: int) -> Seq<NodeV>
    decreases routes.len() - i,
{
    if i < 0 || i >= routes.len() {
        Seq::empty()
    } else {
        let rest = request_nodes_from(routes, path, i + 1);
        if routes[i].verb.len() > 0 {
            seq![
                NodeV {
                    kind: NodeKind::Request,
                    name: routes[i].path,
                    file: path,
                    meta: seq![("verb"@, routes[i].verb)],
                },
            ] + rest
        } else {
            rest
        }
    }
}

/// Every structural node of one file, in extraction order.
pub open spec fn file_nodes(f: FileV) -> Seq<NodeV> {
    seq![file_node(f)] + ent_nodes_spec(f.functions, NodeKind::Function, f.path)
        + ent_nodes_spec(f.classes, NodeKind::Class, f.path) + import_nodes_spec(f.imports, f.path)
        + model_nodes_spec(f.models, f.path) + lib_nodes_spec(f.libs, f.path)
}

/// The structural nodes of all files from index `i` on.
pub open spec fn files_nodes_from(files: Seq<FileV>, i: int) -> Seq<NodeV>
    decreases files.len() - i,
{
    if i < 0 || i >= files.len() {
        Seq::empty()
    } else {
        file_nodes(files[i]) + files_nodes_from(files, i + 1)
    }
}

/// The Request nodes of all files from index `i` on.
pub open spec fn files_request_nodes_from(files: Seq<FileV>, i: int) -> Seq<NodeV>
    decreases files.len() - i,
{
    if i < 0 || i >= files.len() {
        Seq::empty()
    } else {
        request_nodes_from(files[i].routes, files[i].path, 0) + files_request_nodes_from(
            files,
            i + 1,
        )
    }
}

/// The Page nodes of all files from index `i` on.
pub open spec fn files_page_nodes_from(files: Seq<FileV>, i: int) -> Seq<NodeV>
    decreases files.len() - i,
{
    if i < 0 || i >= files.len() {
        Seq::empty()
    } else {
        page_nodes_spec(files[i].pages, files[i].path) + files_page_nodes_from(files, i + 1)
    }
}

/// Every candidate node of a build, in pipeline order.
pub open spec fn collect_nodes(inp: InputV) -> Seq<NodeV> {
    seq![lang_node(inp)] + files_nodes_from(inp.files, 0) + files_request_nodes_from(inp.files, 0)
        + files_page_nodes_from(inp.files, 0)
}

/// Builds a metadata mapping of one pair.
pub fn meta1(k: &str, v: &String) -> (m: Vec<(String, String)>)
    ensures
        meta_view(m@) == seq![(k@, v@)],
{
    let mut m: Vec<(String, String)> = Vec::new();
    m.push((k.to_owned(), clone_string(v)));
    proof {
        assert(meta_view(m@) =~= seq![(k@, v@)]);
    }
    m
}

/// Builds a metadata mapping of two pairs.
pub fn meta2(k1: &str, v1: String, k2: &str, v2: String) -> (m: Vec<(String, String)>)
    ensures
        meta_view(m@) == seq![(k1@, v1@), (k2@, v2@)],
{
    let ghost v1v = v1@;
    let ghost v2v = v2@;
    let mut m: Vec<(String, String)> = Vec::new();
    m.push((k1.to_owned(), v1));
    m.push((k2.to_owned(), v2));
    proof {
        assert(meta_view(m@) =~= seq![(k1@, v1v), (k2@, v2v)]);
    }
    m
}

/// Collects the nodes for one entity list.
fn ent_nodes_exec(ents: &Vec<EntityCand>, kind: NodeKind, path: &String) -> (v: Vec<Node>)
    ensures
        views_of_nodes(v@) == ent_nodes_spec(ents@.map_values(|e: EntityCand| e@), kind, path@),
{
    let mut out: Vec<Node> = Vec::new();
    let mut i: usize = 0;
    while i < ents.len()
        invariant
            i <= ents.len(),
            out@.len() == i,
            forall|j: int|
                0 <= j < i ==> (#[trigger] out@[j])@ == (NodeV {
                    kind,
                    name: ents@[j].name@,
                    file: path@,
                    meta: Seq::empty(),
                }),
        decreases ents.len() - i,
    {
        out.push(Node::new(kind, clone_string(&ents[i].name), clone_string(path)));
        i = i + 1;
    }
    proof {
        assert(views_of_nodes(out@) =~= ent_nodes_spec(
            ents@.map_values(|e: EntityCand| e@),
            kind,
            path@,
        ));
    }
    out
}

/// Collects the Import nodes of one file.
fn import_nodes_exec(imports: &Vec<ImportCand>, path: &String) -> (v: Vec<Node>)
    ensures
        views_of_nodes(v@) == import_nodes_spec(imports@.map_values(|e: ImportCand| e@), path@),
{
    let mut out: Vec<Node> = Vec::new();
    let mut i: usize = 0;
    while i < imports.len()
        invariant
            i <= imports.len(),
            out@.len() == i,
            forall|j: int|
                0 <= j < i ==> (#[trigger] out@[j])@ == (NodeV {
                    kind: NodeKind::Import,
                    name: imports@[j].name@,
                    file: path@,
                    meta: Seq::empty(),
                }),
        decreases imports.len() - i,
    {
        out.push(Node::new(NodeKind::Import, clone_string(&imports[i].name), clone_string(path)));
        i = i + 1;
    }
    proof {
        assert(views_of_nodes(out@) =~= import_nodes_spec(
            imports@.map_values(|e: ImportCand| e@),
            path@,
        ));
    }
    out
}

/// Collects the DataModel nodes of one file.
fn model_nodes_exec(models: &Vec<crate::input::ModelCand>, path: &String) -> (v: Vec<Node>)
    ensures
        views_of_nodes(v@) == model_nodes_spec(
            models@.map_values(|e: crate::input::ModelCand| e@),
            path@,
        ),
{
    let mut out: Vec<Node> = Vec::new();
    let mut i: usize = 0;
    while i < models.len()
        invariant
            i <= models.len(),
            out@.len() == i,
            forall|j: int|
                0 <= j < i ==> (#[trigger] out@[j])@ == (NodeV {
                    kind: NodeKind::DataModel,
                    name: models@[j].name@,
                    file: path@,
                    meta: meta_view(models@[j].fields@),
                }),
        decreases models.len() - i,
    {
        let n = Node {
            kind: NodeKind::DataModel,
            data: NodeData {
                name: clone_string(&models[i].name),
                file: clone_string(path),
                meta: clone_meta(&models[i].fields),
            },
        };
        out.push(n);
        i = i + 1;
    }
    proof {
        assert(views_of_nodes(out@) =~= model_nodes_spec(
            models@.map_values(|e: crate::input::ModelCand| e@),
            path@,
        ));
    }
    out
}

/// Collects the Library nodes of one file.
fn lib_nodes_exec(libs: &Vec<String>, path: &String) -> (v: Vec<Node>)
    ensures
        views_of_nodes(v@) == lib_nodes_spec(libs@.map_values(|s: String| s@), path@),
{
    let mut out: Vec<Node> = Vec::new();
    let mut i: usize = 0;
    while i < libs.len()
        invariant
            i <= libs.len(),
            out@.len() == i,
            forall|j: int|
                0 <= j < i ==> (#[trigger] out@[j])@ == (NodeV {
                    kind: NodeKind::Library,
                    name: libs@[j]@,
                    file: path@,
                    meta: Seq::empty(),
                }),
        decreases libs.len() - i,
    {
        out.push(Node::new(NodeKind::Library, clone_string(&libs[i]), clone_string(path)));
        i = i + 1;
    }
    proof {
        assert(views_of_nodes(out@) =~= lib_nodes_spec(libs@.map_values(|s: String| s@), path@));
    }
    out
}

/// Collects the Page nodes of one file.
fn page_nodes_exec(pages: &Vec<crate::input::PageCand>, path: &String) -> (v: Vec<Node>)
    ensures
        views_of_nodes(v@) == page_nodes_spec(
            pages@.map_values(|e: crate::input::PageCand| e@),
            path@,
        ),
{
    let mut out: Vec<Node> = Vec::new();
    let mut i: usize = 0;
    while i < pages.len()
        invariant
            i <= pages.len(),
            out@.len() == i,
            forall|j: int|
                0 <= j < i ==> (#[trigger] out@[j])@ == (NodeV {
                    kind: NodeKind::Page,
                    name: pages@[j].path@,
                    file: path@,
                    meta: Seq::empty(),
                }),
        decreases pages.len() - i,
    {
        out.push(Node::new(NodeKind::Page, clone_string(&pages[i].path), clone_string(path)));
        i = i + 1;
    }
    proof {
        assert(views_of_nodes(out@) =~= page_nodes_spec(
            pages@.map_values(|e: crate::input::PageCand| e@),
            path@,
        ));
    }
    out
}

/// Collects the Request nodes of one file, skipping malformed routes.
fn request_nodes_exec(routes: &Vec<crate::input::RouteCand>, path: &String) -> (v: Vec<Node>)
    ensures
        views_of_nodes(v@) == request_nodes_from(
            routes@.map_values(|e: crate::input::RouteCand| e@),
            path@,
            0,
        ),
{
    let ghost rv = routes@.map_values(|e: crate::input::RouteCand| e@);
    let mut out: Vec<Node> = Vec::new();
    let mut i: usize = 0;
    while i < routes.len()
        invariant
            i <= routes.len(),
            rv == routes@.map_values(|e: crate::input::RouteCand| e@),
            rv.len() == routes@.len(),
            request_nodes_from(rv, path@, 0) == views_of_nodes(out@) + request_nodes_from(
                rv,
                path@,
                i as int,
            ),
        decreases routes.len() - i,
    {
        let ghost prev = views_of_nodes(out@);
        proof {
            assert(rv[i as int] == routes@[i as int]@);
        }
        let meta = meta1("verb", &routes[i].verb);
        proof {
            assert(crate::taxonomy::meta_get(meta_view(meta@), "verb"@) == Some(
                routes@[i as int].verb@,
            ));
        }
        let valid = crate::taxonomy::validate_record(NodeKind::Request, &meta).is_ok();
        if valid {
            let n = Node {
                kind: NodeKind::Request,
                data: NodeData {
                    name: clone_string(&routes[i].path),
                    file: clone_string(path),
                    meta,
                },
            };
            let ghost nv = n@;
            out.push(n);
            proof {
                assert(views_of_nodes(out@) =~= prev.push(nv));
                assert(prev.push(nv) =~= prev + seq![nv]);
                assert(request_nodes_from(rv, path@, i as int) == seq![nv]
                    + request_nodes_from(rv, path@, i + 1int));
                assert((prev + seq![nv]) + request_nodes_from(rv, path@, i + 1int) =~= prev + (
                seq![nv] + request_nodes_from(rv, path@, i + 1int)));
            }
        }
        i = i + 1;
    }
    out
}

/// Collects every structural node of one file.
fn file_nodes_exec(f: &FileCand) -> (v: Vec<Node>)
    ensures
        views_of_nodes(v@) == file_nodes(f@),
{
    let mut out: Vec<Node> = Vec::new();
    let name = basename(f.path.as_str());
    out.push(Node::new(NodeKind::File, name, clone_string(&f.path)));
    let ghost seg0 = views_of_nodes(out@);
    proof {
        assert(seg0 =~= seq![file_node(f@)]);
    }
    let mut funcs = ent_nodes_exec(&f.functions, NodeKind::Function, &f.path);
    out.append(&mut funcs);
    let mut classes = ent_nodes_exec(&f.classes, NodeKind::Class, &f.path);
    out.append(&mut classes);
    let mut imports = import_nodes_exec(&f.imports, &f.path);
    out.append(&mut imports);
    let mut models = model_nodes_exec(&f.models, &f.path);
    out.append(&mut models);
    let mut libs = lib_nodes_exec(&f.libs, &f.path);
    out.append(&mut libs);
    proof {
        assert(views_of_nodes(out@) =~= file_nodes(f@));
    }
    out
}

/// Collects every candidate node of the build, in pipeline order.
pub fn collect_nodes_exec(input: &BuildInput) -> (v: Vec<Node>)
    ensures
        views_of_nodes(v@) == collect_nodes(input@),
{
    let ghost fv = input@.files;
    let mut out: Vec<Node> = Vec::new();
    out.push(Node::new(NodeKind::Language, clone_string(&input.language), clone_string(&input.root)));
    proof {
        assert(views_of_nodes(out@) =~= seq![lang_node(input@)]);
    }
    let ghost seg0 = views_of_nodes(out@);
    let mut i: usize = 0;
    while i < input.files.len()
        invariant
            i <= input.files.len(),
            fv == input@.files,
            fv.len() == input.files@.len(),
            seg0 == seq![lang_node(input@)],
            views_of_nodes(out@) + files_nodes_from(fv, i as int) == seg0 + files_nodes_from(
                fv,
                0,
            ),
        decreases input.files.len() - i,
    {
        let ghost prev = views_of_nodes(out@);
        proof {
            assert(fv[i as int] == input.files@[i as int]@);
        }
        let mut fns = file_nodes_exec(&input.files[i]);
        let ghost fnv = views_of_nodes(fns@);
        out.append(&mut fns);
        proof {
            assert(views_of_nodes(out@) =~= prev + fnv);
            assert(files_nodes_from(fv, i as int) == file_nodes(fv[i as int]) + files_nodes_from(
                fv,
                i + 1int,
            ));
            assert((prev + fnv) + files_nodes_from(fv, i + 1int) =~= prev + (fnv
                + files_nodes_from(fv, i + 1int)));
        }
        i = i + 1;
    }
    let ghost seg1 = views_of_nodes(out@);
    proof {
        assert(seg1 == seg0 + files_nodes_from(fv, 0));
    }
    let mut i: usize = 0;
    while i < input.files.len()
        invariant
            i <= input.files.len(),
            fv == input@.files,
            fv.len() == input.files@.len(),
            views_of_nodes(out@) + files_request_nodes_from(fv, i as int) == seg1
                + files_request_nodes_from(fv, 0),
        decreases input.files.len() - i,
    {
        let ghost prev = views_of_nodes(out@);
        proof {
            assert(fv[i as int] == input.files@[i as int]@);
        }
        let f = &input.files[i];
        let mut reqs = request_nodes_exec(&f.routes, &f.path);
        let ghost rqv = views_of_nodes(reqs@);
        out.append(&mut reqs);
        proof {
            assert(views_of_nodes(out@) =~= prev + rqv);
            assert(files_request_nodes_from(fv, i as int) == request_nodes_from(
                fv[i as int].routes,
                fv[i as int].path,
                0,
            ) + files_request_nodes_from(fv, i + 1int));
            assert((prev + rqv) + files_request_nodes_from(fv, i + 1int) =~= prev + (rqv
                + files_request_nodes_from(fv, i + 1int)));
        }
        i = i + 1;
    }
    let ghost seg2 = views_of_nodes(out@);
    proof {
        assert(seg2 == seg1 + files_request_nodes_from(fv, 0));
    }
    let mut i: usize = 0;
    while i < input.files.len()
        invariant
            i <= input.files.len(),
            fv == input@.files,
            fv.len() == input.files@.len(),
            views_of_nodes(out@) + files_page_nodes_from(fv, i as int) == seg2
                + files_page_nodes_from(fv, 0),
        decreases input.files.len() - i,
    {
        let ghost prev = views_of_nodes(out@);
        proof {
            assert(fv[i as int] == input.files@[i as int]@);
        }
        let f = &input.files[i];
        let mut pages = page_nodes_exec(&f.pages, &f.path);
        let ghost pgv = views_of_nodes(pages@);
        out.append(&mut pages);
        proof {
            assert(views_of_nodes(out@) =~= prev + pgv);
            assert(files_page_nodes_from(fv, i as int) == page_nodes_spec(
                fv[i as int].pages,
                fv[i as int].path,
            ) + files_page_nodes_from(fv, i + 1int));
            assert((prev + pgv) + files_page_nodes_from(fv, i + 1int) =~= prev + (pgv
                + files_page_nodes_from(fv, i + 1int)));
        }
        i = i + 1;
    }
    proof {
        assert(views_of_nodes(out@) =~= collect_nodes(input@));
    }
    out
}


/// The identity of a file's File node.
pub open spec fn file_ref(f: FileV) -> RefV {
    RefV { kind: NodeKind::File, name: basename_of(f.path), file: f.path }
}

/// A containment edge from a file to an entity it declares.
pub open spec fn contains_edge(f: FileV, kind: NodeKind, name: Seq<char>) -> EdgeV {
    EdgeV {
        kind: EdgeKind::Contains,
        source: file_ref(f),
        target: RefV { kind, name, file: f.path },
        meta: Seq::empty(),
    }
}

/// Containment edges for one entity list.
pub open spec fn ent_contains_spec(ents: Seq<EntityV>, kind: NodeKind, f: FileV) -> Seq<EdgeV> {
    ents.map_values(|e: EntityV| contains_edge(f, kind, e.name))
}

/// Containment edges for a file's imports.
pub open spec fn import_contains_spec(imports: Seq<ImportV>, f: FileV) -> Seq<EdgeV> {
    imports.map_values(|im: ImportV| contains_edge(f, NodeKind::Import, im.name))
}

/// Containment edges for a file's data models.
pub open spec fn model_contains_spec(models: Seq<ModelV>, f: FileV) -> Seq<EdgeV> {
    models.map_values(|m: ModelV| contains_edge(f, NodeKind::DataModel, m.name))
}

/// Every containment edge of one file.
pub open spec fn file_contains_edges(f: FileV) -> Seq<EdgeV> {
    ent_contains_spec(f.functions, NodeKind::Function, f) + ent_contains_spec(
        f.classes,
        NodeKind::Class,
        f,
    ) + import_contains_spec(f.imports, f) + model_contains_spec(f.models, f)
}

/// The containment edges of all files from index `i` on.
pub open spec fn files_contains_from(files: Seq<FileV>, i: int) -> Seq<EdgeV>
    decreases files.len() - i,
{
    if i < 0 || i >= files.len() {
        Seq::empty()
    } else {
        file_contains_edges(files[i]) + files_contains_from(files, i + 1)
    }
}

/// Zero or one edges, from an optional edge.
pub open spec fn opt_edges(o: Option<EdgeV>) -> Seq<EdgeV> {
    match o {
        Some(e) => seq![e],
        None => Seq::empty(),
    }
}

/// What one import resolves to: an Imports edge to the imported file
/// when it is part of the build, else to a matching declared library,
/// else nothing.
pub open spec fn import_edge(inp: InputV, f: FileV, im: ImportV) -> Option<EdgeV> {
    match find_file_from(inp.files, im.source, 0) {
        Some(tf) => Some(
            EdgeV {
                kind: EdgeKind::Imports,
                source: file_ref(f),
                target: file_ref(inp.files[tf]),
                meta: Seq::empty(),
            },
        ),
        None => match find_lib_from(inp.files, im.source, 0) {
            Some(pos) => Some(
                EdgeV {
                    kind: EdgeKind::Imports,
                    source: file_ref(f),
                    target: RefV {
                        kind: NodeKind::Library,
                        name: inp.files[pos.0].libs[pos.1],
                        file: inp.files[pos.0].path,
                    },
                    meta: Seq::empty(),
                },
            ),
            None => None,
        },
    }
}

/// The import edges of one file from import index `i` on.
pub open spec fn import_edges_from(inp: InputV, f: FileV, i: int) -> Seq<EdgeV>
    decreases f.imports.len() - i,
{
    if i < 0 || i >= f.imports.len() {
        Seq::empty()
    } else {
        opt_edges(import_edge(inp, f, f.imports[i])) + import_edges_from(inp, f, i + 1)
    }
}

/// The import edges of all files from index `i` on.
pub open spec fn files_import_edges_from(inp: InputV, i: int) -> Seq<EdgeV>
    decreases inp.files.len() - i,
{
    if i < 0 || i >= inp.files.len() {
        Seq::empty()
    } else {
        import_edges_from(inp, inp.files[i], 0) + files_import_edges_from(inp, i + 1)
    }
}

/// What one candidate reference contributes: a Calls or Renders edge
/// from the enclosing function to the resolved target, carrying the
/// resolution confidence and the call text.
pub open spec fn ref_edge(inp: InputV, f: FileV, r: RefCandV, cfg: ConfigV) -> Option<EdgeV> {
    match spec_resolve(inp, f, r, cfg) {
        Some(t) => Some(
            EdgeV {
                kind: if r.kind == RefKind::Render {
                    EdgeKind::Renders
                } else {
                    EdgeKind::Calls
                },
                source: RefV { kind: NodeKind::Function, name: r.caller, file: f.path },
                target: t.0,
                meta: seq![("confidence"@, t.1), ("text"@, r.name)],
            },
        ),
        None => None,
    }
}

/// The reference edges of one file from reference index `i` on.
pub open spec fn ref_edges_from(inp: InputV, f: FileV, cfg: ConfigV, i: int) -> Seq<EdgeV>
    decreases f.refs.len() - i,
{
    if i < 0 || i >= f.refs.len() {
        Seq::empty()
    } else {
        opt_edges(ref_edge(inp, f, f.refs[i], cfg)) + ref_edges_from(inp, f, cfg, i + 1)
    }
}

/// The reference edges of all files from index `i` on.
pub open spec fn files_ref_edges_from(inp: InputV, cfg: ConfigV, i: int) -> Seq<EdgeV>
    decreases inp.files.len() - i,
{
    if i < 0 || i >= inp.files.len() {
        Seq::empty()
    } else {
        ref_edges_from(inp, inp.files[i], cfg, 0) + files_ref_edges_from(inp, cfg, i + 1)
    }
}

/// What one route contributes: an edge from its Request node to the
/// handler function declared beside it.
pub open spec fn route_edge(f: FileV, r: RouteV) -> Option<EdgeV> {
    if r.verb.len() > 0 {
        Some(
            EdgeV {
                kind: EdgeKind::Calls,
                source: RefV { kind: NodeKind::Request, name: r.path, file: f.path },
                target: RefV { kind: NodeKind::Function, name: r.handler, file: f.path },
                meta: seq![("confidence"@, "handler"@)],
            },
        )
    } else {
        None
    }
}

/// The route edges of one file from route index `i` on.
pub open spec fn route_edges_from(f: FileV, i: int) -> Seq<EdgeV>
    decreases f.routes.len() - i,
{
    if i < 0 || i >= f.routes.len() {
        Seq::empty()
    } else {
        opt_edges(route_edge(f, f.routes[i])) + route_edges_from(f, i + 1)
    }
}

/// The route edges of all files from index `i` on.
pub open spec fn files_route_edges_from(files: Seq<FileV>, i: int) -> Seq<EdgeV>
    decreases files.len() - i,
{
    if i < 0 || i >= files.len() {
        Seq::empty()
    } else {
        route_edges_from(files[i], 0) + files_route_edges_from(files, i + 1)
    }
}

/// What one page contributes: a Renders edge from the Page node to its
/// entry component, resolved through steps (a)-(c).
pub open spec fn page_edge(inp: InputV, f: FileV, p: PageV) -> Option<EdgeV> {
    match resolve_steps_abc(inp, f, p.component, 0) {
        Some(t) => Some(
            EdgeV {
                kind: EdgeKind::Renders,
                source: RefV { kind: NodeKind::Page, name: p.path, file: f.path },
                target: t.0,
                meta: seq![("confidence"@, t.1)],
            },
        ),
        None => None,
    }
}

/// The page edges of one file from page index `i` on.
pub open spec fn page_edges_from(inp: InputV, f: FileV, i: int) -> Seq<EdgeV>
    decreases f.pages.len() - i,
{
    if i < 0 || i >= f.pages.len() {
        Seq::empty()
    } else {
        opt_edges(page_edge(inp, f, f.pages[i])) + page_edges_from(inp, f, i + 1)
    }
}

/// The page edges of all files from index `i` on.
pub open spec fn files_page_edges_from(inp: InputV, i: int) -> Seq<EdgeV>
    decreases inp.files.len() - i,
{
    if i < 0 || i >= inp.files.len() {
        Seq::empty()
    } else {
        page_edges_from(inp, inp.files[i], 0) + files_page_edges_from(inp, i + 1)
    }
}

/// The first data model of the given name across all files, from file
/// index `i` on.
pub open spec fn find_model_from(files: Seq<FileV>, name: Seq<char>, i: int) -> Option<(int, int)>
    decreases files.len() - i,
{
    if i < 0 || i >= files.len() {
        None
    } else {
        match find_model_in_from(files[i].models, name, 0) {
            Some(j) => Some((i, j)),
            None => find_model_from(files, name, i + 1),
        }
    }
}

/// The first data model of the given name in one file, from index `i` on.
pub open spec fn find_model_in_from(models: Seq<ModelV>, name: Seq<char>, i: int) -> Option<int>
    decreases models.len() - i,
{
    if i < 0 || i >= models.len() {
        None
    } else if models[i].name == name {
        Some(i)
    } else {
        find_model_in_from(models, name, i + 1)
    }
}

/// The first well-formed route handled by the given function, from
/// index `i` on.
pub open spec fn find_route_from(routes: Seq<RouteV>, handler: Seq<char>, i: int) -> Option<int>
    decreases routes.len() - i,
{
    if i < 0 || i >= routes.len() {
        None
    } else if routes[i].verb.len() > 0 && routes[i].handler == handler {
        Some(i)
    } else {
        find_route_from(routes, handler, i + 1)
    }
}

/// The first page whose entry component is the given function, from
/// index `i` on.
pub open spec fn find_page_from(pages: Seq<PageV>, component: Seq<char>, i: int) -> Option<int>
    decreases pages.len() - i,
{
    if i < 0 || i >= pages.len() {
        None
    } else if pages[i].component == component {
        Some(i)
    } else {
        find_page_from(pages, component, i + 1)
    }
}

/// What one reference contributes to data-model linking: when its name
/// is a declared data model, a Uses edge from each Request and Page of
/// the referencing function to that model.
pub open spec fn uses_edges_for_ref(inp: InputV, f: FileV, r: RefCandV) -> Seq<EdgeV> {
    match find_model_from(inp.files, r.name, 0) {
        Some(pos) => {
            let m_ref = RefV {
                kind: NodeKind::DataModel,
                name: inp.files[pos.0].models[pos.1].name,
                file: inp.files[pos.0].path,
            };
            let req_part = match find_route_from(f.routes, r.caller, 0) {
                Some(ri) => seq![
                    EdgeV {
                        kind: EdgeKind::Uses,
                        source: RefV {
                            kind: NodeKind::Request,
                            name: f.routes[ri].path,
                            file: f.path,
                        },
                        target: m_ref,
                        meta: Seq::empty(),
                    },
                ],
                None => Seq::<EdgeV>::empty(),
            };
            let page_part = match find_page_from(f.pages, r.caller, 0) {
                Some(pi) => seq![
                    EdgeV {
                        kind: EdgeKind::Uses,
                        source: RefV { kind: NodeKind::Page, name: f.pages[pi].path, file: f.path },
                        target: m_ref,
                        meta: Seq::empty(),
                    },
                ],
                None => Seq::<EdgeV>::empty(),
            };
            req_part + page_part
        },
        None => Seq::<EdgeV>::empty(),
    }
}

/// The data-model link edges of one file from reference index `i` on.
pub open spec fn uses_edges_from(inp: InputV, f: FileV, i: int) -> Seq<EdgeV>
    decreases f.refs.len() - i,
{
    if i < 0 || i >= f.refs.len() {
        Seq::empty()
    } else {
        uses_edges_for_ref(inp, f, f.refs[i]) + uses_edges_from(inp, f, i + 1)
    }
}

/// The data-model link edges of all files from index `i` on.
pub open spec fn files_uses_edges_from(inp: InputV, i: int) -> Seq<EdgeV>
    decreases inp.files.len() - i,
{
    if i < 0 || i >= inp.files.len() {
        Seq::empty()
    } else {
        uses_edges_from(inp, inp.files[i], 0) + files_uses_edges_from(inp, i + 1)
    }
}

/// Every candidate edge of a build, in pipeline order: containment,
/// imports, resolved references, route handlers, page renders, and
/// data-model links.
pub open spec fn collect_edges(inp: InputV, cfg: ConfigV) -> Seq<EdgeV> {
    files_contains_from(inp.files, 0) + files_import_edges_from(inp, 0) + files_ref_edges_from(
        inp,
        cfg,
        0,
    ) + files_route_edges_from(inp.files, 0) + files_page_edges_from(inp, 0)
        + files_uses_edges_from(inp, 0)
}


/// Builds the reference to a file's File node.
fn file_ref_exec(f: &FileCand) -> (r: NodeRef)
    ensures
        r@ == file_ref(f@),
{
    NodeRef { kind: NodeKind::File, name: basename(f.path.as_str()), file: clone_string(&f.path) }
}

/// An empty metadata mapping.
fn empty_meta() -> (m: Vec<(String, String)>)
    ensures
        meta_view(m@) == Seq::<(Seq<char>, Seq<char>)>::empty(),
{
    let m: Vec<(String, String)> = Vec::new();
    proof {
        assert(meta_view(m@) =~= Seq::<(Seq<char>, Seq<char>)>::empty());
    }
    m
}

/// Collects the containment edges for one entity list.
fn ent_contains_exec(ents: &Vec<EntityCand>, kind: NodeKind, f: &FileCand) -> (v: Vec<Edge>)
    ensures
        views_of_edges(v@) == ent_contains_spec(ents@.map_values(|e: EntityCand| e@), kind, f@),
{
    let mut out: Vec<Edge> = Vec::new();
    let mut i: usize = 0;
    while i < ents.len()
        invariant
            i <= ents.len(),
            out@.len() == i,
            forall|j: int|
                0 <= j < i ==> (#[trigger] out@[j])@ == contains_edge(f@, kind, ents@[j].name@),
        decreases ents.len() - i,
    {
        let e = Edge {
            kind: EdgeKind::Contains,
            source: file_ref_exec(f),
            target: NodeRef {
                kind,
                name: clone_string(&ents[i].name),
                file: clone_string(&f.path),
            },
            meta: empty_meta(),
        };
        out.push(e);
        i = i + 1;
    }
    proof {
        assert(views_of_edges(out@) =~= ent_contains_spec(
            ents@.map_values(|e: EntityCand| e@),
            kind,
            f@,
        ));
    }
    out
}

/// Collects the containment edges for a file's imports.
fn import_contains_exec(f: &FileCand) -> (v: Vec<Edge>)
    ensures
        views_of_edges(v@) == import_contains_spec(f.imports@.map_values(|e: ImportCand| e@), f@),
{
    let mut out: Vec<Edge> = Vec::new();
    let mut i: usize = 0;
    while i < f.imports.len()
        invariant
            i <= f.imports.len(),
            out@.len() == i,
            forall|j: int|
                0 <= j < i ==> (#[trigger] out@[j])@ == contains_edge(
                    f@,
                    NodeKind::Import,
                    f.imports@[j].name@,
                ),
        decreases f.imports.len() - i,
    {
        let e = Edge {
            kind: EdgeKind::Contains,
            source: file_ref_exec(f),
            target: NodeRef {
                kind: NodeKind::Import,
                name: clone_string(&f.imports[i].name),
                file: clone_string(&f.path),
            },
            meta: empty_meta(),
        };
        out.push(e);
        i = i + 1;
    }
    proof {
        assert(views_of_edges(out@) =~= import_contains_spec(
            f.imports@.map_values(|e: ImportCand| e@),
            f@,
        ));
    }
    out
}

/// Collects the containment edges for a file's data models.
fn model_contains_exec(f: &FileCand) -> (v: Vec<Edge>)
    ensures
        views_of_edges(v@) == model_contains_spec(
            f.models@.map_values(|e: crate::input::ModelCand| e@),
            f@,
        ),
{
    let mut out: Vec<Edge> = Vec::new();
    let mut i: usize = 0;
    while i < f.models.len()
        invariant
            i <= f.models.len(),
            out@.len() == i,
            forall|j: int|
                0 <= j < i ==> (#[trigger] out@[j])@ == contains_edge(
                    f@,
                    NodeKind::DataModel,
                    f.models@[j].name@,
                ),
        decreases f.models.len() - i,
    {
        let e = Edge {
            kind: EdgeKind::Contains,
            source: file_ref_exec(f),
            target: NodeRef {
                kind: NodeKind::DataModel,
                name: clone_string(&f.models[i].name),
                file: clone_string(&f.path),
            },
            meta: empty_meta(),
        };
        out.push(e);
        i = i + 1;
    }
    proof {
        assert(views_of_edges(out@) =~= model_contains_spec(
            f.models@.map_values(|e: crate::input::ModelCand| e@),
            f@,
        ));
    }
    out
}

/// Collects every containment edge of one file.
fn file_contains_exec(f: &FileCand) -> (v: Vec<Edge>)
    ensures
        views_of_edges(v@) == file_contains_edges(f@),
{
    let mut out = ent_contains_exec(&f.functions, NodeKind::Function, f);
    let mut classes = ent_contains_exec(&f.classes, NodeKind::Class, f);
    out.append(&mut classes);
    let mut imports = import_contains_exec(f);
    out.append(&mut imports);
    let mut models = model_contains_exec(f);
    out.append(&mut models);
    proof {
        assert(views_of_edges(out@) =~= file_contains_edges(f@));
    }
    out
}

/// Collects the import edges of `input.files[fi]`.
fn import_edges_exec(input: &BuildInput, fi: usize) -> (v: Vec<Edge>)
    requires
        fi < input.files@.len(),
    ensures
        views_of_edges(v@) == import_edges_from(input@, input@.files[fi as int], 0),
{
    let f = &input.files[fi];
    let ghost fv = input@.files[fi as int];
    proof {
        assert(fv == f@);
    }
    let mut out: Vec<Edge> = Vec::new();
    let mut i: usize = 0;
    while i < f.imports.len()
        invariant
            i <= f.imports.len(),
            fi < input.files@.len(),
            fv == input@.files[fi as int],
            fv == input.files@[fi as int]@,
            f == &input.files@[fi as int],
            fv.imports.len() == f.imports@.len(),
            import_edges_from(input@, fv, 0) == views_of_edges(out@) + import_edges_from(
                input@,
                fv,
                i as int,
            ),
        decreases f.imports.len() - i,
    {
        let ghost prev = views_of_edges(out@);
        proof {
            assert(fv.imports[i as int] == f.imports@[i as int]@);
        }
        let source = &f.imports[i].source;
        let mut pushed: Ghost<Option<EdgeV>> = Ghost(None);
        if let Some(tf) = crate::resolve::find_file(&input.files, source.as_str()) {
            let target = &input.files[tf];
            proof {
                assert(input@.files[tf as int] == input.files@[tf as int]@);
            }
            let e = Edge {
                kind: EdgeKind::Imports,
                source: file_ref_exec(f),
                target: file_ref_exec(target),
                meta: empty_meta(),
            };
            let ghost ev = e@;
            out.push(e);
            proof {
                pushed@ = Some(ev);
            }
        } else {
            if let Some(pos) = crate::resolve::find_lib(&input.files, source.as_str()) {
                let owner = &input.files[pos.0];
                proof {
                    assert(input@.files[pos.0 as int] == input.files@[pos.0 as int]@);
                    assert(input@.files[pos.0 as int].libs[pos.1 as int]
                        == owner.libs@[pos.1 as int]@);
                }
                let e = Edge {
                    kind: EdgeKind::Imports,
                    source: file_ref_exec(f),
                    target: NodeRef {
                        kind: NodeKind::Library,
                        name: clone_string(&owner.libs[pos.1]),
                        file: clone_string(&owner.path),
                    },
                    meta: empty_meta(),
                };
                let ghost ev = e@;
                out.push(e);
                proof {
                    pushed@ = Some(ev);
                }
            }
        }
        proof {
            assert(opt_edges(import_edge(input@, fv, fv.imports[i as int])) =~= (
            match pushed@ {
                Some(ev) => seq![ev],
                None => Seq::<EdgeV>::empty(),
            }));
            assert(views_of_edges(out@) =~= prev + opt_edges(
                import_edge(input@, fv, fv.imports[i as int]),
            ));
            assert(import_edges_from(input@, fv, i as int) == opt_edges(
                import_edge(input@, fv, fv.imports[i as int]),
            ) + import_edges_from(input@, fv, i + 1int));
            assert((prev + opt_edges(import_edge(input@, fv, fv.imports[i as int])))
                + import_edges_from(input@, fv, i + 1int) =~= prev + (opt_edges(
                import_edge(input@, fv, fv.imports[i as int]),
            ) + import_edges_from(input@, fv, i + 1int)));
        }
        i = i + 1;
    }
    out
}

/// Collects the reference edges of `input.files[fi]`.
fn ref_edges_exec(input: &BuildInput, fi: usize, cfg: &BuildConfig) -> (v: Vec<Edge>)
    requires
        fi < input.files@.len(),
    ensures
        views_of_edges(v@) == ref_edges_from(input@, input@.files[fi as int], cfg@, 0),
{
    let f = &input.files[fi];
    let ghost fv = input@.files[fi as int];
    proof {
        assert(fv == f@);
    }
    let mut out: Vec<Edge> = Vec::new();
    let mut i: usize = 0;
    while i < f.refs.len()
        invariant
            i <= f.refs.len(),
            fi < input.files@.len(),
            fv == input@.files[fi as int],
            fv == input.files@[fi as int]@,
            f == &input.files@[fi as int],
            fv.refs.len() == f.refs@.len(),
            ref_edges_from(input@, fv, cfg@, 0) == views_of_edges(out@) + ref_edges_from(
                input@,
                fv,
                cfg@,
                i as int,
            ),
        decreases f.refs.len() - i,
    {
        let ghost prev = views_of_edges(out@);
        proof {
            assert(fv.refs[i as int] == f.refs@[i as int]@);
        }
        let r = &f.refs[i];
        let resolved = resolve_ref(input, fi, r, cfg);
        let mut pushed: Ghost<Option<EdgeV>> = Ghost(None);
        if let Some(p) = resolved {
            let kind = if r.kind == RefKind::Render {
                EdgeKind::Renders
            } else {
                EdgeKind::Calls
            };
            let e = Edge {
                kind,
                source: NodeRef {
                    kind: NodeKind::Function,
                    name: clone_string(&r.caller),
                    file: clone_string(&f.path),
                },
                target: p.0,
                meta: meta2("confidence", p.1, "text", clone_string(&r.name)),
            };
            let ghost ev = e@;
            out.push(e);
            proof {
                pushed@ = Some(ev);
            }
        }
        proof {
            assert(opt_edges(ref_edge(input@, fv, fv.refs[i as int], cfg@)) =~= (
            match pushed@ {
                Some(ev) => seq![ev],
                None => Seq::<EdgeV>::empty(),
            }));
            assert(views_of_edges(out@) =~= prev + opt_edges(
                ref_edge(input@, fv, fv.refs[i as int], cfg@),
            ));
            assert(ref_edges_from(input@, fv, cfg@, i as int) == opt_edges(
                ref_edge(input@, fv, fv.refs[i as int], cfg@),
            ) + ref_edges_from(input@, fv, cfg@, i + 1int));
            assert((prev + opt_edges(ref_edge(input@, fv, fv.refs[i as int], cfg@)))
                + ref_edges_from(input@, fv, cfg@, i + 1int) =~= prev + (opt_edges(
                ref_edge(input@, fv, fv.refs[i as int], cfg@),
            ) + ref_edges_from(input@, fv, cfg@, i + 1int)));
        }
        i = i + 1;
    }
    out
}

/// Collects the route-handler edges of one file.
fn route_edges_exec(f: &FileCand) -> (v: Vec<Edge>)
    ensures
        views_of_edges(v@) == route_edges_from(f@, 0),
{
    let ghost fv = f@;
    let mut out: Vec<Edge> = Vec::new();
    let mut i: usize = 0;
    while i < f.routes.len()
        invariant
            i <= f.routes.len(),
            fv == f@,
            fv.routes.len() == f.routes@.len(),
            route_edges_from(fv, 0) == views_of_edges(out@) + route_edges_from(fv, i as int),
        decreases f.routes.len() - i,
    {
        let ghost prev = views_of_edges(out@);
        proof {
            assert(fv.routes[i as int] == f.routes@[i as int]@);
        }
        let r = &f.routes[i];
        let mut pushed: Ghost<Option<EdgeV>> = Ghost(None);
        if r.verb.as_str().unicode_len() > 0 {
            let e = Edge {
                kind: EdgeKind::Calls,
                source: NodeRef {
                    kind: NodeKind::Request,
                    name: clone_string(&r.path),
                    file: clone_string(&f.path),
                },
                target: NodeRef {
                    kind: NodeKind::Function,
                    name: clone_string(&r.handler),
                    file: clone_string(&f.path),
                },
                meta: meta1("confidence", &"handler".to_owned()),
            };
            let ghost ev = e@;
            out.push(e);
            proof {
                pushed@ = Some(ev);
            }
        }
        proof {
            assert(opt_edges(route_edge(fv, fv.routes[i as int])) =~= (match pushed@ {
                Some(ev) => seq![ev],
                None => Seq::<EdgeV>::empty(),
            }));
            assert(views_of_edges(out@) =~= prev + opt_edges(route_edge(fv, fv.routes[i as int])));
            assert(route_edges_from(fv, i as int) == opt_edges(route_edge(fv, fv.routes[i as int]))
                + route_edges_from(fv, i + 1int));
            assert((prev + opt_edges(route_edge(fv, fv.routes[i as int]))) + route_edges_from(
                fv,
                i + 1int,
            ) =~= prev + (opt_edges(route_edge(fv, fv.routes[i as int])) + route_edges_from(
                fv,
                i + 1int,
            )));
        }
        i = i + 1;
    }
    out
}

/// Collects the page-render edges of `input.files[fi]`.
fn page_edges_exec(input: &BuildInput, fi: usize) -> (v: Vec<Edge>)
    requires
        fi < input.files@.len(),
    ensures
        views_of_edges(v@) == page_edges_from(input@, input@.files[fi as int], 0),
{
    let f = &input.files[fi];
    let ghost fv = input@.files[fi as int];
    proof {
        assert(fv == f@);
    }
    let mut out: Vec<Edge> = Vec::new();
    let mut i: usize = 0;
    while i < f.pages.len()
        invariant
            i <= f.pages.len(),
            fi < input.files@.len(),
            fv == input@.files[fi as int],
            fv == input.files@[fi as int]@,
            f == &input.files@[fi as int],
            fv.pages.len() == f.pages@.len(),
            page_edges_from(input@, fv, 0) == views_of_edges(out@) + page_edges_from(
                input@,
                fv,
                i as int,
            ),
        decreases f.pages.len() - i,
    {
        let ghost prev = views_of_edges(out@);
        proof {
            assert(fv.pages[i as int] == f.pages@[i as int]@);
        }
        let p = &f.pages[i];
        let resolved = resolve_abc(input, fi, p.component.as_str(), 0);
        let mut pushed: Ghost<Option<EdgeV>> = Ghost(None);
        if let Some(t) = resolved {
            let e = Edge {
                kind: EdgeKind::Renders,
                source: NodeRef {
                    kind: NodeKind::Page,
                    name: clone_string(&p.path),
                    file: clone_string(&f.path),
                },
                target: t.0,
                meta: meta1("confidence", &t.1),
            };
            let ghost ev = e@;
            out.push(e);
            proof {
                pushed@ = Some(ev);
            }
        }
        proof {
            assert(opt_edges(page_edge(input@, fv, fv.pages[i as int])) =~= (match pushed@ {
                Some(ev) => seq![ev],
                None => Seq::<EdgeV>::empty(),
            }));
            assert(views_of_edges(out@) =~= prev + opt_edges(
                page_edge(input@, fv, fv.pages[i as int]),
            ));
            assert(page_edges_from(input@, fv, i as int) == opt_edges(
                page_edge(input@, fv, fv.pages[i as int]),
            ) + page_edges_from(input@, fv, i + 1int));
            assert((prev + opt_edges(page_edge(input@, fv, fv.pages[i as int])))
                + page_edges_from(input@, fv, i + 1int) =~= prev + (opt_edges(
                page_edge(input@, fv, fv.pages[i as int]),
            ) + page_edges_from(input@, fv, i + 1int)));
        }
        i = i + 1;
    }
    out
}

/// Finds the first data model of the given name across all files.
fn find_model(files: &Vec<FileCand>, name: &str) -> (r: Option<(usize, usize)>)
    ensures
        match r {
            Some(p) => p.0 < files@.len() && p.1 < files@[p.0 as int].models@.len()
                && find_model_from(files@.map_values(|f: FileCand| f@), name@, 0) == Some(
                (p.0 as int, p.1 as int),
            ),
            None => find_model_from(files@.map_values(|f: FileCand| f@), name@, 0) is None,
        },
{
    let ghost fv = files@.map_values(|f: FileCand| f@);
    let mut i: usize = 0;
    while i < files.len()
        invariant
            i <= files.len(),
            fv == files@.map_values(|f: FileCand| f@),
            fv.len() == files@.len(),
            find_model_from(fv, name@, 0) == find_model_from(fv, name@, i as int),
        decreases files.len() - i,
    {
        let models = &files[i].models;
        let ghost mv = fv[i as int].models;
        let mut j: usize = 0;
        proof {
            assert(fv[i as int] == files@[i as int]@);
        }
        while j < models.len()
            invariant
                j <= models.len(),
                i < files.len(),
                fv == files@.map_values(|f: FileCand| f@),
                fv.len() == files@.len(),
                models@ == files@[i as int].models@,
                mv == fv[i as int].models,
                mv == models@.map_values(|m: crate::input::ModelCand| m@),
                mv.len() == models@.len(),
                find_model_from(fv, name@, 0) == find_model_from(fv, name@, i as int),
                find_model_in_from(mv, name@, 0) == find_model_in_from(mv, name@, j as int),
            decreases models.len() - j,
        {
            proof {
                assert(mv[j as int] == models@[j as int]@);
            }
            if crate::taxonomy::str_eq_str(models[j].name.as_str(), name) {
                proof {
                    assert(find_model_in_from(mv, name@, 0) == Some(j as int));
                    assert(find_model_from(fv, name@, i as int) == Some((i as int, j as int)));
                }
                return Some((i, j));
            }
            j = j + 1;
        }
        proof {
            assert(find_model_in_from(mv, name@, 0) is None);
        }
        i = i + 1;
    }
    None
}

/// Finds the first well-formed route handled by the given function.
fn find_route_by_handler(routes: &Vec<crate::input::RouteCand>, handler: &str) -> (r: Option<usize>)
    ensures
        match r {
            Some(i) => i < routes@.len() && find_route_from(
                routes@.map_values(|e: crate::input::RouteCand| e@),
                handler@,
                0,
            ) == Some(i as int),
            None => find_route_from(
                routes@.map_values(|e: crate::input::RouteCand| e@),
                handler@,
                0,
            ) is None,
        },
{
    let ghost rv = routes@.map_values(|e: crate::input::RouteCand| e@);
    let mut i: usize = 0;
    while i < routes.len()
        invariant
            i <= routes.len(),
            rv == routes@.map_values(|e: crate::input::RouteCand| e@),
            rv.len() == routes@.len(),
            find_route_from(rv, handler@, 0) == find_route_from(rv, handler@, i as int),
        decreases routes.len() - i,
    {
        proof {
            assert(rv[i as int] == routes@[i as int]@);
        }
        let verb_ok = routes[i].verb.as_str().unicode_len() > 0;
        let handler_ok = crate::taxonomy::str_eq_str(routes[i].handler.as_str(), handler);
        if verb_ok && handler_ok {
            return Some(i);
        }
        i = i + 1;
    }
    None
}

/// Finds the first page whose entry component is the given function.
fn find_page_by_component(pages: &Vec<crate::input::PageCand>, component: &str) -> (r: Option<
    usize,
>)
    ensures
        match r {
            Some(i) => i < pages@.len() && find_page_from(
                pages@.map_values(|e: crate::input::PageCand| e@),
                component@,
                0,
            ) == Some(i as int),
            None => find_page_from(
                pages@.map_values(|e: crate::input::PageCand| e@),
                component@,
                0,
            ) is None,
        },
{
    let ghost pv = pages@.map_values(|e: crate::input::PageCand| e@);
    let mut i: usize = 0;
    while i < pages.len()
        invariant
            i <= pages.len(),
            pv == pages@.map_values(|e: crate::input::PageCand| e@),
            pv.len() == pages@.len(),
            find_page_from(pv, component@, 0) == find_page_from(pv, component@, i as int),
        decreases pages.len() - i,
    {
        proof {
            assert(pv[i as int] == pages@[i as int]@);
        }
        if crate::taxonomy::str_eq_str(pages[i].component.as_str(), component) {
            return Some(i);
        }
        i = i + 1;
    }
    None
}

/// Collects what one reference contributes to data-model linking.
fn uses_for_ref_exec(input: &BuildInput, fi: usize, r: &RefCand) -> (v: Vec<Edge>)
    requires
        fi < input.files@.len(),
    ensures
        views_of_edges(v@) == uses_edges_for_ref(input@, input@.files[fi as int], r@),
{
    let f = &input.files[fi];
    let ghost fv = input@.files[fi as int];
    proof {
        assert(fv == f@);
    }
    let mut out: Vec<Edge> = Vec::new();
    let model_pos = find_model(&input.files, r.name.as_str());
    match model_pos {
        None => {
            proof {
                assert(views_of_edges(out@) =~= uses_edges_for_ref(input@, fv, r@));
            }
            out
        },
        Some(pos) => {
            let owner = &input.files[pos.0];
            proof {
                assert(input@.files[pos.0 as int] == input.files@[pos.0 as int]@);
                assert(input@.files[pos.0 as int].models[pos.1 as int]
                    == owner.models@[pos.1 as int]@);
            }
            let route_pos = find_route_by_handler(&f.routes, r.caller.as_str());
            if let Some(ri) = route_pos {
                proof {
                    assert(fv.routes[ri as int] == f.routes@[ri as int]@);
                }
                let e = Edge {
                    kind: EdgeKind::Uses,
                    source: NodeRef {
                        kind: NodeKind::Request,
                        name: clone_string(&f.routes[ri].path),
                        file: clone_string(&f.path),
                    },
                    target: NodeRef {
                        kind: NodeKind::DataModel,
                        name: clone_string(&owner.models[pos.1].name),
                        file: clone_string(&owner.path),
                    },
                    meta: empty_meta(),
                };
                out.push(e);
            }
            let page_pos = find_page_by_component(&f.pages, r.caller.as_str());
            if let Some(pi) = page_pos {
                proof {
                    assert(fv.pages[pi as int] == f.pages@[pi as int]@);
                }
                let e = Edge {
                    kind: EdgeKind::Uses,
                    source: NodeRef {
                        kind: NodeKind::Page,
                        name: clone_string(&f.pages[pi].path),
                        file: clone_string(&f.path),
                    },
                    target: NodeRef {
                        kind: NodeKind::DataModel,
                        name: clone_string(&owner.models[pos.1].name),
                        file: clone_string(&owner.path),
                    },
                    meta: empty_meta(),
                };
                out.push(e);
            }
            proof {
                assert(views_of_edges(out@) =~= uses_edges_for_ref(input@, fv, r@));
            }
            out
        },
    }
}

/// Collects the data-model link edges of `input.files[fi]`.
fn uses_edges_exec(input: &BuildInput, fi: usize) -> (v: Vec<Edge>)
    requires
        fi < input.files@.len(),
    ensures
        views_of_edges(v@) == uses_edges_from(input@, input@.files[fi as int], 0),
{
    let f = &input.files[fi];
    let ghost fv = input@.files[fi as int];
    proof {
        assert(fv == f@);
    }
    let mut out: Vec<Edge> = Vec::new();
    let mut i: usize = 0;
    while i < f.refs.len()
        invariant
            i <= f.refs.len(),
            fi < input.files@.len(),
            fv == input@.files[fi as int],
            fv == input.files@[fi as int]@,
            f == &input.files@[fi as int],
            fv.refs.len() == f.refs@.len(),
            uses_edges_from(input@, fv, 0) == views_of_edges(out@) + uses_edges_from(
                input@,
                fv,
                i as int,
            ),
        decreases f.refs.len() - i,
    {
        let ghost prev = views_of_edges(out@);
        proof {
            assert(fv.refs[i as int] == f.refs@[i as int]@);
        }
        let mut seg = uses_for_ref_exec(input, fi, &f.refs[i]);
        let ghost sv = views_of_edges(seg@);
        out.append(&mut seg);
        proof {
            assert(views_of_edges(out@) =~= prev + sv);
            assert(uses_edges_from(input@, fv, i as int) == uses_edges_for_ref(
                input@,
                fv,
                fv.refs[i as int],
            ) + uses_edges_from(input@, fv, i + 1int));
            assert((prev + sv) + uses_edges_from(input@, fv, i + 1int) =~= prev + (sv
                + uses_edges_from(input@, fv, i + 1int)));
        }
        i = i + 1;
    }
    out
}

/// Collects every candidate edge of the build, in pipeline order.
pub fn collect_edges_exec(input: &BuildInput, cfg: &BuildConfig) -> (v: Vec<Edge>)
    ensures
        views_of_edges(v@) == collect_edges(input@, cfg@),
{
    let ghost fv = input@.files;
    let mut out: Vec<Edge> = Vec::new();
    let mut i: usize = 0;
    proof {
        assert(views_of_edges(out@) =~= Seq::<EdgeV>::empty());
    }
    while i < input.files.len()
        invariant
            i <= input.files.len(),
            fv == input@.files,
            fv.len() == input.files@.len(),
            views_of_edges(out@) + files_contains_from(fv, i as int) == files_contains_from(fv, 0),
        decreases input.files.len() - i,
    {
        let ghost prev = views_of_edges(out@);
        proof {
            assert(fv[i as int] == input.files@[i as int]@);
        }
        let mut seg = file_contains_exec(&input.files[i]);
        let ghost sv = views_of_edges(seg@);
        out.append(&mut seg);
        proof {
            assert(views_of_edges(out@) =~= prev + sv);
            assert((prev + sv) + files_contains_from(fv, i + 1int) =~= prev + (sv
                + files_contains_from(fv, i + 1int)));
        }
        i = i + 1;
    }
    let ghost seg1 = views_of_edges(out@);
    let mut i: usize = 0;
    while i < input.files.len()
        invariant
            i <= input.files.len(),
            fv == input@.files,
            fv.len() == input.files@.len(),
            views_of_edges(out@) + files_import_edges_from(input@, i as int) == seg1
                + files_import_edges_from(input@, 0),
        decreases input.files.len() - i,
    {
        let ghost prev = views_of_edges(out@);
        let mut seg = import_edges_exec(input, i);
        let ghost sv = views_of_edges(seg@);
        out.append(&mut seg);
        proof {
            assert(views_of_edges(out@) =~= prev + sv);
            assert((prev + sv) + files_import_edges_from(input@, i + 1int) =~= prev + (sv
                + files_import_edges_from(input@, i + 1int)));
        }
        i = i + 1;
    }
    let ghost seg2 = views_of_edges(out@);
    let mut i: usize = 0;
    while i < input.files.len()
        invariant
            i <= input.files.len(),
            fv == input@.files,
            fv.len() == input.files@.len(),
            views_of_edges(out@) + files_ref_edges_from(input@, cfg@, i as int) == seg2
                + files_ref_edges_from(input@, cfg@, 0),
        decreases input.files.len() - i,
    {
        let ghost prev = views_of_edges(out@);
        let mut seg = ref_edges_exec(input, i, cfg);
        let ghost sv = views_of_edges(seg@);
        out.append(&mut seg);
        proof {
            assert(views_of_edges(out@) =~= prev + sv);
            assert((prev + sv) + files_ref_edges_from(input@, cfg@, i + 1int) =~= prev + (sv
                + files_ref_edges_from(input@, cfg@, i + 1int)));
        }
        i = i + 1;
    }
    let ghost seg3 = views_of_edges(out@);
    let mut i: usize = 0;
    while i < input.files.len()
        invariant
            i <= input.files.len(),
            fv == input@.files,
            fv.len() == input.files@.len(),
            views_of_edges(out@) + files_route_edges_from(fv, i as int) == seg3
                + files_route_edges_from(fv, 0),
        decreases input.files.len() - i,
    {
        let ghost prev = views_of_edges(out@);
        proof {
            assert(fv[i as int] == input.files@[i as int]@);
        }
        let mut seg = route_edges_exec(&input.files[i]);
        let ghost sv = views_of_edges(seg@);
        out.append(&mut seg);
        proof {
            assert(views_of_edges(out@) =~= prev + sv);
            assert((prev + sv) + files_route_edges_from(fv, i + 1int) =~= prev + (sv
                + files_route_edges_from(fv, i + 1int)));
        }
        i = i + 1;
    }
    let ghost seg4 = views_of_edges(out@);
    let mut i: usize = 0;
    while i < input.files.len()
        invariant
            i <= input.files.len(),
            fv == input@.files,
            fv.len() == input.files@.len(),
            views_of_edges(out@) + files_page_edges_from(input@, i as int) == seg4
                + files_page_edges_from(input@, 0),
        decreases input.files.len() - i,
    {
        let ghost prev = views_of_edges(out@);
        let mut seg = page_edges_exec(input, i);
        let ghost sv = views_of_edges(seg@);
        out.append(&mut seg);
        proof {
            assert(views_of_edges(out@) =~= prev + sv);
            assert((prev + sv) + files_page_edges_from(input@, i + 1int) =~= prev + (sv
                + files_page_edges_from(input@, i + 1int)));
        }
        i = i + 1;
    }
    let ghost seg5 = views_of_edges(out@);
    let mut i: usize = 0;
    while i < input.files.len()
        invariant
            i <= input.files.len(),
            fv == input@.files,
            fv.len() == input.files@.len(),
            views_of_edges(out@) + files_uses_edges_from(input@, i as int) == seg5
                + files_uses_edges_from(input@, 0),
        decreases input.files.len() - i,
    {
        let ghost prev = views_of_edges(out@);
        let mut seg = uses_edges_exec(input, i);
        let ghost sv = views_of_edges(seg@);
        out.append(&mut seg);
        proof {
            assert(views_of_edges(out@) =~= prev + sv);
            assert((prev + sv) + files_uses_edges_from(input@, i + 1int) =~= prev + (sv
                + files_uses_edges_from(input@, i + 1int)));
        }
        i = i + 1;
    }
    proof {
        assert(views_of_edges(out@) =~= collect_edges(input@, cfg@));
    }
    out
}

/// The node sequence after folding in the candidates from index `i` on,
/// duplicates dropped.
pub open spec fn insert_nodes_from(s: Seq<NodeV>, cands: Seq<NodeV>, i: int) -> Seq<NodeV>
    decreases cands.len() - i,
{
    if i < 0 || i >= cands.len() {
        s
    } else {
        insert_nodes_from(spec_insert_node(s, cands[i]), cands, i + 1)
    }
}

/// The edge sequence after folding in the candidates from index `i` on,
/// against the fixed node sequence `ns`.
pub open spec fn insert_edges_from(ns: Seq<NodeV>, es: Seq<EdgeV>, cands: Seq<EdgeV>, i: int) -> Seq<
    EdgeV,
>
    decreases cands.len() - i,
{
    if i < 0 || i >= cands.len() {
        es
    } else {
        insert_edges_from(ns, spec_insert_edge(ns, es, cands[i]), cands, i + 1)
    }
}

/// The nodes of a finished build.
pub open spec fn spec_build_nodes(inp: InputV) -> Seq<NodeV> {
    insert_nodes_from(Seq::empty(), collect_nodes(inp), 0)
}

/// The edges of a finished build.
pub open spec fn spec_build_edges(inp: InputV, cfg: ConfigV) -> Seq<EdgeV> {
    insert_edges_from(spec_build_nodes(inp), Seq::empty(), collect_edges(inp, cfg), 0)
}

/// Runs the whole pipeline into a fresh store of the chosen backend.
///
/// Succeeds exactly when the declared language is supported and the root
/// path is non-empty; the store then holds exactly the nodes and edges
/// of [`spec_build_nodes`] and [`spec_build_edges`].  On a fatal error
/// no partial graph is returned.
pub fn build_graph<G: GraphStore>(input: &BuildInput, cfg: &BuildConfig) -> (r: Result<
    G,
    BuildError,
>)
    ensures
        match r {
            Ok(g) => build_ok(input@) && g.inv() && g.node_views() == spec_build_nodes(input@)
                && g.edge_views() == spec_build_edges(input@, cfg@),
            Err(e) => !build_ok(input@) && (e == BuildError::UnsupportedLanguage
                <==> !lang_supported(input@.language)),
        },
{
    let l = input.language.as_str();
    let lang_ok = str_eq_str(l, "react") || str_eq_str(l, "tsx") || str_eq_str(l, "kotlin")
        || str_eq_str(l, "swift");
    if !lang_ok {
        return Err(BuildError::UnsupportedLanguage);
    }
    if input.root.as_str().unicode_len() == 0 {
        return Err(BuildError::EmptyRepositoryRoot);
    }
    let nodes = collect_nodes_exec(input);
    let edges = collect_edges_exec(input, cfg);
    let ghost cn = collect_nodes(input@);
    let ghost ce = collect_edges(input@, cfg@);
    let mut g = G::empty();
    let mut i: usize = 0;
    while i < nodes.len()
        invariant
            i <= nodes.len(),
            views_of_nodes(nodes@) == cn,
            nodes@.len() == cn.len(),
            g.inv(),
            g.edge_views() == Seq::<EdgeV>::empty(),
            insert_nodes_from(Seq::empty(), cn, 0) == insert_nodes_from(
                g.node_views(),
                cn,
                i as int,
            ),
        decreases nodes.len() - i,
    {
        proof {
            assert(cn[i as int] == nodes@[i as int]@);
        }
        let n = nodes[i].clone();
        g.insert_node(n);
        i = i + 1;
    }
    proof {
        assert(g.node_views() == spec_build_nodes(input@));
    }
    let ghost bn = g.node_views();
    let mut i: usize = 0;
    while i < edges.len()
        invariant
            i <= edges.len(),
            views_of_edges(edges@) == ce,
            edges@.len() == ce.len(),
            g.inv(),
            g.node_views() == bn,
            bn == spec_build_nodes(input@),
            insert_edges_from(bn, Seq::<EdgeV>::empty(), ce, 0) == insert_edges_from(
                bn,
                g.edge_views(),
                ce,
                i as int,
            ),
        decreases edges.len() - i,
    {
        proof {
            assert(ce[i as int] == edges@[i as int]@);
        }
        let e = edges[i].clone();
        g.insert_edge(e);
        i = i + 1;
    }
    proof {
        assert(g.edge_views() == spec_build_edges(input@, cfg@));
    }
    Ok(g)
}

} // verus!
