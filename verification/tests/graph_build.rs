use codegraph::builder::{build_graph, BuildError};
use codegraph::fixtures::{test_kotlin_generic, test_swift_generic};
use codegraph::frontend::{FrontendArtefact, FrontendTester, Lang};
use codegraph::input::{
    BuildConfig, BuildInput, EntityCand, FileCand, ImportCand, ModelCand, PageCand, RefCand,
    RefKind, ResolverAnswer, RouteCand,
};
use codegraph::store::{ArrayGraph, GraphStore};
use codegraph::store_btree::BTreeMapGraph;
use codegraph::taxonomy::{Edge, EdgeKind, Node, NodeKind, NodeRef};

fn empty_file(path: &str) -> FileCand {
    FileCand {
        path: path.to_string(),
        functions: Vec::new(),
        classes: Vec::new(),
        imports: Vec::new(),
        libs: Vec::new(),
        models: Vec::new(),
        routes: Vec::new(),
        pages: Vec::new(),
        refs: Vec::new(),
    }
}

fn ent(name: &str, line: usize) -> EntityCand {
    EntityCand { name: name.to_string(), line }
}

fn no_resolver() -> BuildConfig {
    BuildConfig { use_resolver: false, answers: Vec::new() }
}

/// A small React-style repository: an entry component App rendering a
/// page at `/`, a form component NewPerson with a submit button, and
/// three HTTP requests.
fn react_repo() -> BuildInput {
    let mut app = empty_file("src/testing/react/src/App.tsx");
    app.functions.push(ent("App", 5));
    app.functions.push(ent("People", 20));
    app.imports.push(ImportCand {
        name: "NewPerson".to_string(),
        source: "src/testing/react/src/components/NewPerson.tsx".to_string(),
    });
    app.pages.push(PageCand { path: "/".to_string(), component: "App".to_string() });
    app.pages.push(PageCand { path: "/new-person".to_string(), component: "NewPerson".to_string() });
    app.pages.push(PageCand { path: "/people".to_string(), component: "People".to_string() });
    app.refs.push(RefCand {
        name: "NewPerson".to_string(),
        caller: "App".to_string(),
        line: 7,
        kind: RefKind::Render,
    });
    app.routes.push(RouteCand {
        verb: "GET".to_string(),
        path: "https://localhost:3000/people".to_string(),
        handler: "People".to_string(),
    });
    app.routes.push(RouteCand {
        verb: "POST".to_string(),
        path: "https://localhost:3000/person".to_string(),
        handler: "App".to_string(),
    });
    app.routes.push(RouteCand {
        verb: "DELETE".to_string(),
        path: "https://localhost:3000/person/1".to_string(),
        handler: "App".to_string(),
    });

    let mut form = empty_file("src/testing/react/src/components/NewPerson.tsx");
    form.functions.push(ent("NewPerson", 3));
    form.functions.push(ent("SubmitButton", 30));
    form.models.push(ModelCand {
        name: "Person".to_string(),
        fields: vec![("name".to_string(), "string".to_string())],
    });
    form.refs.push(RefCand {
        name: "SubmitButton".to_string(),
        caller: "NewPerson".to_string(),
        line: 10,
        kind: RefKind::Render,
    });

    let pkg = empty_file("src/testing/react/package.json");

    BuildInput {
        language: "react".to_string(),
        root: "src/testing/react/".to_string(),
        files: vec![app, form, pkg],
    }
}

#[test]
fn react_scenario_single_language_node() {
    let g: ArrayGraph = build_graph(&react_repo(), &no_resolver()).unwrap();
    let langs = g.find_nodes_by_type(NodeKind::Language);
    assert_eq!(langs.len(), 1);
    assert_eq!(langs[0].data.name, "react");
    assert_eq!(langs[0].data.file, "src/testing/react/");
}

#[test]
fn react_scenario_page_and_renders_edge() {
    let g: ArrayGraph = build_graph(&react_repo(), &no_resolver()).unwrap();
    let pages = g.find_nodes_by_type(NodeKind::Page);
    let root_pages: Vec<_> = pages.iter().filter(|p| p.data.name == "/").collect();
    assert_eq!(root_pages.len(), 1);
    assert_eq!(root_pages[0].data.file, "src/testing/react/src/App.tsx");
    let renders: Vec<_> = g
        .all_edges()
        .into_iter()
        .filter(|e| matches!(e.kind, EdgeKind::Renders))
        .collect();
    let from_root_page = renders.iter().any(|e| {
        e.source.kind == NodeKind::Page
            && e.source.name == "/"
            && e.target.kind == NodeKind::Function
            && e.target.name == "App"
    });
    assert!(from_root_page);
}

#[test]
fn react_scenario_three_requests() {
    let g: ArrayGraph = build_graph(&react_repo(), &no_resolver()).unwrap();
    let requests = g.find_nodes_by_type(NodeKind::Request);
    assert_eq!(requests.len(), 3);
    let lang = Lang::new("react".to_string());
    let tester = FrontendTester::from_parts(g, lang, Some("react".to_string()));
    let artefact = FrontendArtefact::default();
    tester.test_requests(&artefact.request).unwrap();
}

#[test]
fn react_scenario_full_frontend_checks() {
    let g: ArrayGraph = build_graph(&react_repo(), &no_resolver()).unwrap();
    let tester = FrontendTester::from_parts(g, Lang::new("react".to_string()), None);
    tester.test_frontend().unwrap();
}

#[test]
fn frontend_checks_fail_on_empty_repository() {
    let input = BuildInput {
        language: "react".to_string(),
        root: "r/".to_string(),
        files: Vec::new(),
    };
    let g: ArrayGraph = build_graph(&input, &no_resolver()).unwrap();
    let tester = FrontendTester::from_parts(g, Lang::new("react".to_string()), None);
    assert!(tester.test_language().is_ok());
    assert!(tester.test_package_file().is_err());
    assert!(tester.test_data_model("Person").is_err());
    assert!(tester.test_frontend().is_err());
}

/// A Kotlin repository with two Gradle build files; every Library node
/// must correspond to a declared dependency coordinate.
fn kotlin_repo() -> BuildInput {
    let mut root_gradle = empty_file("src/testing/kotlin/build.gradle.kts");
    root_gradle.libs.push("org.jetbrains.kotlin:kotlin-stdlib:1.9.0".to_string());
    let mut app_gradle = empty_file("src/testing/kotlin/app/build.gradle.kts");
    app_gradle.libs.push("com.squareup.okhttp3:okhttp:4.12.0".to_string());
    app_gradle.libs.push("androidx.core:core-ktx:1.12.0".to_string());
    let mut main = empty_file("src/testing/kotlin/app/src/main/java/com/kotlintestapp/Main.kt");
    main.classes.push(ent("Main", 1));
    BuildInput {
        language: "kotlin".to_string(),
        root: "src/testing/kotlin/".to_string(),
        files: vec![root_gradle, app_gradle, main],
    }
}

#[test]
fn kotlin_scenario_two_gradle_files_and_declared_libraries() {
    let declared = vec![
        "org.jetbrains.kotlin:kotlin-stdlib:1.9.0",
        "com.squareup.okhttp3:okhttp:4.12.0",
        "androidx.core:core-ktx:1.12.0",
    ];
    let g: ArrayGraph = build_graph(&kotlin_repo(), &no_resolver()).unwrap();
    let gradle_files = g.find_nodes_by_name(NodeKind::File, "build.gradle.kts");
    assert_eq!(gradle_files.len(), 2);
    for f in &gradle_files {
        assert_eq!(f.data.name, "build.gradle.kts");
    }
    let libraries = g.find_nodes_by_type(NodeKind::Library);
    assert_eq!(libraries.len(), 3);
    for lib in &libraries {
        assert!(declared.contains(&lib.data.name.as_str()));
    }
}

#[test]
fn backend_parity_on_react_repo() {
    let input = react_repo();
    let cfg = no_resolver();
    let a: ArrayGraph = build_graph(&input, &cfg).unwrap();
    let b: BTreeMapGraph = build_graph(&input, &cfg).unwrap();
    assert_eq!(a.graph_size(), b.graph_size());
    let kinds = [
        NodeKind::Language,
        NodeKind::File,
        NodeKind::Library,
        NodeKind::Import,
        NodeKind::Class,
        NodeKind::Function,
        NodeKind::DataModel,
        NodeKind::Request,
        NodeKind::Page,
    ];
    for k in kinds {
        let na = a.find_nodes_by_type(k);
        let nb = b.find_nodes_by_type(k);
        assert_eq!(na.len(), nb.len());
        for (x, y) in na.iter().zip(nb.iter()) {
            assert_eq!(x.data.name, y.data.name);
            assert_eq!(x.data.file, y.data.file);
        }
    }
    let edge_kinds = [
        EdgeKind::Calls,
        EdgeKind::Renders,
        EdgeKind::Imports,
        EdgeKind::Contains,
        EdgeKind::Uses,
    ];
    for k in edge_kinds {
        assert_eq!(a.count_edges_of_type(k), b.count_edges_of_type(k));
    }
}

#[test]
fn determinism_two_builds_same_graph() {
    let input = react_repo();
    let cfg = no_resolver();
    let a: ArrayGraph = build_graph(&input, &cfg).unwrap();
    let b: ArrayGraph = build_graph(&input, &cfg).unwrap();
    assert_eq!(a.graph_size(), b.graph_size());
    let na = a.all_nodes();
    let nb = b.all_nodes();
    for (x, y) in na.iter().zip(nb.iter()) {
        assert_eq!(x.data.name, y.data.name);
        assert_eq!(x.data.file, y.data.file);
    }
}

#[test]
fn no_dangling_edges_in_built_graph() {
    let g: ArrayGraph = build_graph(&react_repo(), &no_resolver()).unwrap();
    let nodes = g.all_nodes();
    for e in g.all_edges() {
        let src_ok = nodes.iter().any(|n| {
            n.kind == e.source.kind && n.data.name == e.source.name && n.data.file == e.source.file
        });
        let tgt_ok = nodes.iter().any(|n| {
            n.kind == e.target.kind && n.data.name == e.target.name && n.data.file == e.target.file
        });
        assert!(src_ok, "edge source must exist");
        assert!(tgt_ok, "edge target must exist");
    }
}

/// A repository with one reference only the external service can
/// resolve: the target is in an unimported file.
fn service_repo() -> BuildInput {
    let mut a = empty_file("repo/a.rs");
    a.functions.push(ent("caller", 1));
    a.refs.push(RefCand {
        name: "helper".to_string(),
        caller: "caller".to_string(),
        line: 4,
        kind: RefKind::Call,
    });
    let mut b = empty_file("repo/b.rs");
    b.functions.push(ent("helper", 9));
    BuildInput {
        language: "tsx".to_string(),
        root: "repo/".to_string(),
        files: vec![a, b],
    }
}

fn service_answers() -> Vec<ResolverAnswer> {
    vec![ResolverAnswer {
        file: "repo/a.rs".to_string(),
        line: 4,
        name: "helper".to_string(),
        target_file: "repo/b.rs".to_string(),
        target_line: 9,
    }]
}

#[test]
fn resolver_service_adds_calls_edge() {
    let input = service_repo();
    let on = BuildConfig { use_resolver: true, answers: service_answers() };
    let g: ArrayGraph = build_graph(&input, &on).unwrap();
    let edges = g.all_edges();
    let hit = edges.iter().any(|e| {
        matches!(e.kind, EdgeKind::Calls)
            && e.target.name == "helper"
            && e.target.file == "repo/b.rs"
            && e.meta.iter().any(|(k, v)| k == "confidence" && v == "service")
    });
    assert!(hit);
}

#[test]
fn disabling_resolver_keeps_nodes_drops_only_calls() {
    let input = service_repo();
    let off = BuildConfig { use_resolver: false, answers: service_answers() };
    let on = BuildConfig { use_resolver: true, answers: service_answers() };
    let g_off: ArrayGraph = build_graph(&input, &off).unwrap();
    let g_on: ArrayGraph = build_graph(&input, &on).unwrap();
    assert_eq!(g_off.graph_size().0, g_on.graph_size().0);
    assert!(g_off.count_edges_of_type(EdgeKind::Calls) <= g_on.count_edges_of_type(EdgeKind::Calls));
    assert_eq!(g_off.count_edges_of_type(EdgeKind::Calls) + 1, g_on.count_edges_of_type(EdgeKind::Calls));
}

#[test]
fn same_file_resolution_prefers_nearest_declaration() {
    let mut f = empty_file("repo/x.kt");
    f.classes.push(ent("Widget", 1));
    f.functions.push(ent("Widget", 10));
    f.functions.push(ent("main", 8));
    f.refs.push(RefCand {
        name: "Widget".to_string(),
        caller: "main".to_string(),
        line: 9,
        kind: RefKind::Call,
    });
    let input = BuildInput {
        language: "kotlin".to_string(),
        root: "repo/".to_string(),
        files: vec![f],
    };
    let g: ArrayGraph = build_graph(&input, &no_resolver()).unwrap();
    let calls: Vec<_> = g
        .all_edges()
        .into_iter()
        .filter(|e| matches!(e.kind, EdgeKind::Calls))
        .collect();
    assert_eq!(calls.len(), 1);
    // the function at line 10 is nearer to the reference at line 9 than
    // the class at line 1
    assert_eq!(calls[0].target.kind, NodeKind::Function);
    assert!(calls[0].meta.iter().any(|(k, v)| k == "confidence" && v == "same-file"));
}

#[test]
fn import_resolution_reaches_other_file() {
    let mut a = empty_file("repo/a.kt");
    a.functions.push(ent("main", 1));
    a.imports.push(ImportCand { name: "helper".to_string(), source: "repo/b.kt".to_string() });
    a.refs.push(RefCand {
        name: "helper".to_string(),
        caller: "main".to_string(),
        line: 3,
        kind: RefKind::Call,
    });
    let mut b = empty_file("repo/b.kt");
    b.functions.push(ent("helper", 2));
    let input = BuildInput {
        language: "kotlin".to_string(),
        root: "repo/".to_string(),
        files: vec![a, b],
    };
    let g: ArrayGraph = build_graph(&input, &no_resolver()).unwrap();
    let calls: Vec<_> = g
        .all_edges()
        .into_iter()
        .filter(|e| matches!(e.kind, EdgeKind::Calls))
        .collect();
    assert_eq!(calls.len(), 1);
    assert_eq!(calls[0].target.file, "repo/b.kt");
    assert!(calls[0].meta.iter().any(|(k, v)| k == "confidence" && v == "import"));
}

#[test]
fn library_fallback_resolves_to_declared_coordinate() {
    let mut gradle = empty_file("repo/build.gradle.kts");
    gradle.libs.push("com.squareup.okhttp3:okhttp:4.12.0".to_string());
    let mut a = empty_file("repo/a.kt");
    a.functions.push(ent("main", 1));
    a.imports.push(ImportCand { name: "okhttp".to_string(), source: "okhttp".to_string() });
    a.refs.push(RefCand {
        name: "okhttp".to_string(),
        caller: "main".to_string(),
        line: 2,
        kind: RefKind::Call,
    });
    let input = BuildInput {
        language: "kotlin".to_string(),
        root: "repo/".to_string(),
        files: vec![gradle, a],
    };
    let g: ArrayGraph = build_graph(&input, &no_resolver()).unwrap();
    let calls: Vec<_> = g
        .all_edges()
        .into_iter()
        .filter(|e| matches!(e.kind, EdgeKind::Calls))
        .collect();
    assert_eq!(calls.len(), 1);
    assert_eq!(calls[0].target.kind, NodeKind::Library);
    assert_eq!(calls[0].target.name, "com.squareup.okhttp3:okhttp:4.12.0");
    assert!(calls[0].meta.iter().any(|(k, v)| k == "confidence" && v == "library"));
}

#[test]
fn unresolved_reference_is_dropped_silently() {
    let mut a = empty_file("repo/a.kt");
    a.functions.push(ent("main", 1));
    a.refs.push(RefCand {
        name: "nowhere".to_string(),
        caller: "main".to_string(),
        line: 2,
        kind: RefKind::Call,
    });
    let input = BuildInput {
        language: "kotlin".to_string(),
        root: "repo/".to_string(),
        files: vec![a],
    };
    let g: ArrayGraph = build_graph(&input, &no_resolver()).unwrap();
    assert_eq!(g.count_edges_of_type(EdgeKind::Calls), 0);
}

#[test]
fn unsupported_language_is_fatal() {
    let input = BuildInput {
        language: "cobol".to_string(),
        root: "repo/".to_string(),
        files: Vec::new(),
    };
    let r: Result<ArrayGraph, BuildError> = build_graph(&input, &no_resolver());
    assert_eq!(r.err().unwrap(), BuildError::UnsupportedLanguage);
}

#[test]
fn empty_root_is_fatal() {
    let input = BuildInput {
        language: "kotlin".to_string(),
        root: String::new(),
        files: Vec::new(),
    };
    let r: Result<ArrayGraph, BuildError> = build_graph(&input, &no_resolver());
    assert_eq!(r.err().unwrap(), BuildError::EmptyRepositoryRoot);
}

#[test]
fn malformed_route_record_is_skipped() {
    let mut f = empty_file("repo/a.kt");
    f.routes.push(RouteCand {
        verb: String::new(),
        path: "/broken".to_string(),
        handler: "h".to_string(),
    });
    f.routes.push(RouteCand {
        verb: "get".to_string(),
        path: "/ok".to_string(),
        handler: "h".to_string(),
    });
    let input = BuildInput {
        language: "kotlin".to_string(),
        root: "repo/".to_string(),
        files: vec![f],
    };
    let g: ArrayGraph = build_graph(&input, &no_resolver()).unwrap();
    let requests = g.find_nodes_by_type(NodeKind::Request);
    assert_eq!(requests.len(), 1);
    assert_eq!(requests[0].data.name, "/ok");
}

#[test]
fn duplicate_identity_insert_is_noop() {
    let mut f = empty_file("repo/a.kt");
    f.functions.push(ent("twin", 1));
    f.functions.push(ent("twin", 5));
    let input = BuildInput {
        language: "kotlin".to_string(),
        root: "repo/".to_string(),
        files: vec![f],
    };
    let g: ArrayGraph = build_graph(&input, &no_resolver()).unwrap();
    let twins = g.find_nodes_by_name(NodeKind::Function, "twin");
    assert_eq!(twins.len(), 1);
}

#[test]
fn fixture_checks_reject_small_graph() {
    let g: ArrayGraph = build_graph(&react_repo(), &no_resolver()).unwrap();
    assert!(test_kotlin_generic(&g).is_err());
    assert!(test_swift_generic(&g).is_err());
}

#[test]
fn extract_request_endpoint_formulas() {
    type T = FrontendTester<ArrayGraph>;
    assert_eq!(T::extract_request_endpoint("https://api.example.com/people"), "/people");
    assert_eq!(T::extract_request_endpoint("https://api.example.com/people/1"), "/people/1");
    assert_eq!(T::extract_request_endpoint("https://api.example.com/"), "/");
    assert_eq!(T::extract_request_endpoint("https://api.example.com"), "/");
    assert_eq!(T::extract_request_endpoint("/people"), "/");
    assert_eq!(T::extract_request_endpoint(""), "/");
    assert_eq!(T::extract_request_endpoint("http://h/a/b/"), "/a/b");
}

#[test]
fn request_verbs_compare_case_insensitively() {
    let mut f = empty_file("repo/api.kt");
    f.routes.push(RouteCand {
        verb: "get".to_string(),
        path: "https://localhost:3000/people".to_string(),
        handler: "h".to_string(),
    });
    let input = BuildInput {
        language: "kotlin".to_string(),
        root: "repo/".to_string(),
        files: vec![f],
    };
    let g: ArrayGraph = build_graph(&input, &no_resolver()).unwrap();
    let tester = FrontendTester::from_parts(g, Lang::new("kotlin".to_string()), None);
    let expected = vec![("GET".to_string(), "/people".to_string())];
    tester.test_requests(&expected).unwrap();
}

#[test]
fn pkg_file_follows_language_convention() {
    assert_eq!(Lang::new("kotlin".to_string()).pkg_file(), "build.gradle.kts");
    assert_eq!(Lang::new("swift".to_string()).pkg_file(), "Package.swift");
    assert_eq!(Lang::new("react".to_string()).pkg_file(), "package.json");
}

#[test]
fn artefact_default_values() {
    let a = FrontendArtefact::default();
    assert_eq!(a.components, vec!["NewPerson", "People"]);
    assert_eq!(
        a.request,
        vec![
            ("GET".to_string(), "/people".to_string()),
            ("POST".to_string(), "/person".to_string())
        ]
    );
    assert_eq!(a.pages, vec!["/new-person", "/people"]);
    assert_eq!(a.data_model, "Person");
}

#[test]
fn validation_rejects_request_without_verb() {
    let meta: Vec<(String, String)> = Vec::new();
    assert!(codegraph::taxonomy::validate_record(NodeKind::Request, &meta).is_err());
    let ok = vec![("verb".to_string(), "GET".to_string())];
    assert!(codegraph::taxonomy::validate_record(NodeKind::Request, &ok).is_ok());
    assert!(codegraph::taxonomy::validate_record(NodeKind::Function, &meta).is_ok());
}

#[test]
fn data_model_linked_to_request_and_page() {
    let mut f = empty_file("repo/api.kt");
    f.functions.push(ent("handlePeople", 2));
    f.models.push(ModelCand {
        name: "Person".to_string(),
        fields: vec![("name".to_string(), "string".to_string())],
    });
    f.routes.push(RouteCand {
        verb: "GET".to_string(),
        path: "/people".to_string(),
        handler: "handlePeople".to_string(),
    });
    f.pages.push(PageCand {
        path: "/people-page".to_string(),
        component: "handlePeople".to_string(),
    });
    f.refs.push(RefCand {
        name: "Person".to_string(),
        caller: "handlePeople".to_string(),
        line: 4,
        kind: RefKind::Call,
    });
    let input = BuildInput {
        language: "kotlin".to_string(),
        root: "repo/".to_string(),
        files: vec![f],
    };
    let g: ArrayGraph = build_graph(&input, &no_resolver()).unwrap();
    let uses: Vec<_> = g
        .all_edges()
        .into_iter()
        .filter(|e| matches!(e.kind, EdgeKind::Uses))
        .collect();
    assert_eq!(uses.len(), 2);
    let from_request = uses
        .iter()
        .any(|e| e.source.kind == NodeKind::Request && e.source.name == "/people"
            && e.target.kind == NodeKind::DataModel && e.target.name == "Person");
    let from_page = uses
        .iter()
        .any(|e| e.source.kind == NodeKind::Page && e.source.name == "/people-page"
            && e.target.kind == NodeKind::DataModel && e.target.name == "Person");
    assert!(from_request);
    assert!(from_page);
}

#[test]
fn language_check_reports_mismatch() {
    let g: ArrayGraph = build_graph(&react_repo(), &no_resolver()).unwrap();
    let tester = FrontendTester::from_parts(g, Lang::new("tsx".to_string()), None);
    assert!(tester.test_language().is_err());
}

#[test]
fn component_and_request_checks_report_missing_items() {
    let g: ArrayGraph = build_graph(&kotlin_repo(), &no_resolver()).unwrap();
    let tester = FrontendTester::from_parts(g, Lang::new("kotlin".to_string()), None);
    let components = vec!["NewPerson".to_string()];
    assert!(tester.verify_nodes(&components, NodeKind::Function).is_err());
    let wanted = vec![("GET".to_string(), "/people".to_string())];
    assert!(tester.test_requests(&wanted).is_err());
}

#[test]
fn btree_backend_rejects_duplicates_and_dangling_edges() {
    let mut g = BTreeMapGraph::empty();
    let n = Node::new(NodeKind::Function, "f".to_string(), "a.rs".to_string());
    assert!(g.insert_node(n.clone()));
    assert!(!g.insert_node(n));
    assert_eq!(g.graph_size(), (1, 0));
    let dangling = Edge {
        kind: EdgeKind::Calls,
        source: NodeRef { kind: NodeKind::Function, name: "f".to_string(), file: "a.rs".to_string() },
        target: NodeRef { kind: NodeKind::Function, name: "g".to_string(), file: "a.rs".to_string() },
        meta: Vec::new(),
    };
    assert!(!g.insert_edge(dangling));
    assert_eq!(g.graph_size(), (1, 0));
}
