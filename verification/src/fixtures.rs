//! Whole-repository fixture checks: the node and edge population a build
//! over the bundled Kotlin and Swift test repositories must produce,
//! stated once and checked against any store backend.

use vstd::prelude::*;

use crate::frontend::has_kind_name;
use crate::store::{filter_edges_kind, filter_nodes_kind, filter_nodes_kind_name, views_of_nodes,
    GraphStore};
use crate::taxonomy::{str_eq_str, EdgeKind, EdgeV, Node, NodeKind, NodeV};

verus! {

/// A fixture check that failed: the graph does not match the expected
/// population.
#[derive(Clone, Copy, PartialEq, Eq, Structural, Debug)]
pub enum FixtureError {
    Mismatch,
}

/// Whether some node has exactly this kind, name and owning file.
pub open spec fn has_kind_name_file(
    ns: Seq<NodeV>,
    kind: NodeKind,
    name: Seq<char>,
    file: Seq<char>,
) -> bool {
    exists|i: int|
        0 <= i < ns.len() && (#[trigger] ns[i]).kind == kind && ns[i].name == name && ns[i].file
            == file
}

/// Whether a graph matches the bundled Kotlin repository: its exact
/// node and edge counts, its per-kind populations, its two Gradle build
/// files, and at least one resolved call.
pub open spec fn kotlin_ok(ns: Seq<NodeV>, es: Seq<EdgeV>) -> bool {
    &&& ns.len() == 145
    &&& es.len() == 148
    &&& filter_nodes_kind(ns, NodeKind::Language).len() == 1
    &&& filter_nodes_kind(ns, NodeKind::Language)[0].name == "kotlin"@
    &&& filter_nodes_kind(ns, NodeKind::Language)[0].file == "src/testing/kotlin/"@
    &&& filter_nodes_kind_name(ns, NodeKind::File, "build.gradle.kts"@).len() == 2
    &&& filter_nodes_kind(ns, NodeKind::Library).len() == 44
    &&& filter_nodes_kind(ns, NodeKind::Import).len() == 9
    &&& filter_nodes_kind(ns, NodeKind::Class).len() == 6
    &&& has_kind_name_file(
        ns,
        NodeKind::Class,
        "ExampleInstrumentedTest"@,
        "src/testing/kotlin/app/src/androidTest/java/com/kotlintestapp/ExampleInstrumentedTest.kt"@,
    )
    &&& filter_nodes_kind(ns, NodeKind::Function).len() == 45
    &&& filter_nodes_kind(ns, NodeKind::DataModel).len() == 1
    &&& filter_nodes_kind(ns, NodeKind::Request).len() == 6
    &&& filter_edges_kind(es, EdgeKind::Calls).len() > 0
}

/// Whether a graph matches the bundled Swift repository.
pub open spec fn swift_ok(ns: Seq<NodeV>, es: Seq<EdgeV>) -> bool {
    &&& ns.len() == 55
    &&& es.len() == 81
    &&& filter_nodes_kind(ns, NodeKind::Language).len() == 1
    &&& filter_nodes_kind(ns, NodeKind::Language)[0].name == "swift"@
    &&& filter_nodes_kind(ns, NodeKind::Language)[0].file == "src/testing/swift/"@
    &&& filter_nodes_kind(ns, NodeKind::File).len() == 8
    &&& filter_nodes_kind(ns, NodeKind::Import).len() == 7
    &&& filter_nodes_kind(ns, NodeKind::Class).len() == 7
    &&& has_kind_name(ns, NodeKind::Class, "API"@)
    &&& filter_nodes_kind(ns, NodeKind::Function).len() == 26
    &&& has_kind_name(ns, NodeKind::Function, "application"@)
    &&& filter_nodes_kind(ns, NodeKind::DataModel).len() == 1
    &&& filter_nodes_kind(ns, NodeKind::Request).len() == 2
    &&& has_kind_name(ns, NodeKind::Request, "/people"@)
}

/// Whether some node of this kind carries exactly this name.
fn scan_kind_name(nodes: &Vec<Node>, kind: NodeKind, name: &str) -> (b: bool)
    ensures
        b == has_kind_name(views_of_nodes(nodes@), kind, name@),
{
    let ghost ns = views_of_nodes(nodes@);
    let mut i: usize = 0;
    while i < nodes.len()
        invariant
            i <= nodes.len(),
            ns == views_of_nodes(nodes@),
            ns.len() == nodes@.len(),
            forall|ii: int|
                0 <= ii < i ==> !((#[trigger] ns[ii]).kind == kind && ns[ii].name == name@),
        decreases nodes.len() - i,
    {
        proof {
            assert(ns[i as int] == nodes@[i as int]@);
        }
        let kind_hit = nodes[i].kind == kind;
        let name_hit = str_eq_str(nodes[i].data.name.as_str(), name);
        if kind_hit && name_hit {
            proof {
                assert(ns[i as int].kind == kind && ns[i as int].name == name@);
            }
            return true;
        }
        i = i + 1;
    }
    false
}

/// Whether some node of this kind carries exactly this name and file.
fn scan_kind_name_file(nodes: &Vec<Node>, kind: NodeKind, name: &str, file: &str) -> (b: bool)
    ensures
        b == has_kind_name_file(views_of_nodes(nodes@), kind, name@, file@),
{
    let ghost ns = views_of_nodes(nodes@);
    let mut i: usize = 0;
    while i < nodes.len()
        invariant
            i <= nodes.len(),
            ns == views_of_nodes(nodes@),
            ns.len() == nodes@.len(),
            forall|ii: int|
                0 <= ii < i ==> !((#[trigger] ns[ii]).kind == kind && ns[ii].name == name@
                    && ns[ii].file == file@),
        decreases nodes.len() - i,
    {
        proof {
            assert(ns[i as int] == nodes@[i as int]@);
        }
        let kind_hit = nodes[i].kind == kind;
        let name_hit = str_eq_str(nodes[i].data.name.as_str(), name);
        let file_hit = str_eq_str(nodes[i].data.file.as_str(), file);
        if kind_hit && name_hit && file_hit {
            proof {
                assert(ns[i as int].kind == kind && ns[i as int].name == name@ && ns[i as int].file
                    == file@);
            }
            return true;
        }
        i = i + 1;
    }
    false
}

/// Checks a built graph against the bundled Kotlin repository's
/// expected population, on any backend.
pub fn test_kotlin_generic<G: GraphStore>(graph: &G) -> (r: Result<(), FixtureError>)
    requires
        graph.inv(),
    ensures
        r is Ok <==> kotlin_ok(graph.node_views(), graph.edge_views()),
{
    let (num_nodes, num_edges) = graph.graph_size();
    if num_nodes != 145 || num_edges != 148 {
        return Err(FixtureError::Mismatch);
    }
    let language_nodes = graph.find_nodes_by_type(NodeKind::Language);
    proof {
        assert(views_of_nodes(language_nodes@).len() == language_nodes@.len());
    }
    if language_nodes.len() != 1 {
        return Err(FixtureError::Mismatch);
    }
    proof {
        assert(views_of_nodes(language_nodes@)[0] == language_nodes@[0int]@);
    }
    if !str_eq_str(language_nodes[0].data.name.as_str(), "kotlin") {
        return Err(FixtureError::Mismatch);
    }
    if !str_eq_str(language_nodes[0].data.file.as_str(), "src/testing/kotlin/") {
        return Err(FixtureError::Mismatch);
    }
    let build_gradle_files = graph.find_nodes_by_name(NodeKind::File, "build.gradle.kts");
    proof {
        assert(views_of_nodes(build_gradle_files@).len() == build_gradle_files@.len());
    }
    if build_gradle_files.len() != 2 {
        return Err(FixtureError::Mismatch);
    }
    let libraries = graph.find_nodes_by_type(NodeKind::Library);
    proof {
        assert(views_of_nodes(libraries@).len() == libraries@.len());
    }
    if libraries.len() != 44 {
        return Err(FixtureError::Mismatch);
    }
    let imports = graph.find_nodes_by_type(NodeKind::Import);
    proof {
        assert(views_of_nodes(imports@).len() == imports@.len());
    }
    if imports.len() != 9 {
        return Err(FixtureError::Mismatch);
    }
    let classes = graph.find_nodes_by_type(NodeKind::Class);
    proof {
        assert(views_of_nodes(classes@).len() == classes@.len());
    }
    if classes.len() != 6 {
        return Err(FixtureError::Mismatch);
    }
    let all = graph.all_nodes();
    if !scan_kind_name_file(
        &all,
        NodeKind::Class,
        "ExampleInstrumentedTest",
        "src/testing/kotlin/app/src/androidTest/java/com/kotlintestapp/ExampleInstrumentedTest.kt",
    ) {
        return Err(FixtureError::Mismatch);
    }
    let functions = graph.find_nodes_by_type(NodeKind::Function);
    proof {
        assert(views_of_nodes(functions@).len() == functions@.len());
    }
    if functions.len() != 45 {
        return Err(FixtureError::Mismatch);
    }
    let data_models = graph.find_nodes_by_type(NodeKind::DataModel);
    proof {
        assert(views_of_nodes(data_models@).len() == data_models@.len());
    }
    if data_models.len() != 1 {
        return Err(FixtureError::Mismatch);
    }
    let requests = graph.find_nodes_by_type(NodeKind::Request);
    proof {
        assert(views_of_nodes(requests@).len() == requests@.len());
    }
    if requests.len() != 6 {
        return Err(FixtureError::Mismatch);
    }
    let calls_edges_count = graph.count_edges_of_type(EdgeKind::Calls);
    if calls_edges_count == 0 {
        return Err(FixtureError::Mismatch);
    }
    Ok(())
}

/// Checks a built graph against the bundled Swift repository's
/// expected population, on any backend.
pub fn test_swift_generic<G: GraphStore>(graph: &G) -> (r: Result<(), FixtureError>)
    requires
        graph.inv(),
    ensures
        r is Ok <==> swift_ok(graph.node_views(), graph.edge_views()),
{
    let (num_nodes, num_edges) = graph.graph_size();
    if num_nodes != 55 || num_edges != 81 {
        return Err(FixtureError::Mismatch);
    }
    let language_nodes = graph.find_nodes_by_type(NodeKind::Language);
    proof {
        assert(views_of_nodes(language_nodes@).len() == language_nodes@.len());
    }
    if language_nodes.len() != 1 {
        return Err(FixtureError::Mismatch);
    }
    proof {
        assert(views_of_nodes(language_nodes@)[0] == language_nodes@[0int]@);
    }
    if !str_eq_str(language_nodes[0].data.name.as_str(), "swift") {
        return Err(FixtureError::Mismatch);
    }
    if !str_eq_str(language_nodes[0].data.file.as_str(), "src/testing/swift/") {
        return Err(FixtureError::Mismatch);
    }
    let files = graph.find_nodes_by_type(NodeKind::File);
    proof {
        assert(views_of_nodes(files@).len() == files@.len());
    }
    if files.len() != 8 {
        return Err(FixtureError::Mismatch);
    }
    let imports = graph.find_nodes_by_type(NodeKind::Import);
    proof {
        assert(views_of_nodes(imports@).len() == imports@.len());
    }
    if imports.len() != 7 {
        return Err(FixtureError::Mismatch);
    }
    let classes = graph.find_nodes_by_type(NodeKind::Class);
    proof {
        assert(views_of_nodes(classes@).len() == classes@.len());
    }
    if classes.len() != 7 {
        return Err(FixtureError::Mismatch);
    }
    let all = graph.all_nodes();
    if !scan_kind_name(&all, NodeKind::Class, "API") {
        return Err(FixtureError::Mismatch);
    }
    let functions = graph.find_nodes_by_type(NodeKind::Function);
    proof {
        assert(views_of_nodes(functions@).len() == functions@.len());
    }
    if functions.len() != 26 {
        return Err(FixtureError::Mismatch);
    }
    if !scan_kind_name(&all, NodeKind::Function, "application") {
        return Err(FixtureError::Mismatch);
    }
    let data_models = graph.find_nodes_by_type(NodeKind::DataModel);
    proof {
        assert(views_of_nodes(data_models@).len() == data_models@.len());
    }
    if data_models.len() != 1 {
        return Err(FixtureError::Mismatch);
    }
    let requests = graph.find_nodes_by_type(NodeKind::Request);
    proof {
        assert(views_of_nodes(requests@).len() == requests@.len());
    }
    if requests.len() != 2 {
        return Err(FixtureError::Mismatch);
    }
    if !scan_kind_name(&all, NodeKind::Request, "/people") {
        return Err(FixtureError::Mismatch);
    }
    Ok(())
}

} // verus!
