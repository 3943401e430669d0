//! The frontend test harness: given a built graph, checks that the
//! expected frontend artefacts (language, package file, data model,
//! components, pages, requests) are present.
//!
//! Each check returns `Ok` exactly when the graph holds what the check
//! names; a missing artefact is reported as an error value, never a
//! panic.

use vstd::prelude::*;

use crate::store::{views_of_nodes, GraphStore};
use crate::strutil::{contains_sub, str_contains, upper_eq, upper_seq};
use crate::taxonomy::{meta_get, meta_lookup, str_eq_str, Node, NodeKind, NodeV};

verus! {

/// A supported language, by its short identifier.
pub struct Lang {
    pub kind: String,
}

/// The conventional package file name of a language.
pub open spec fn pkg_file_of(l: Seq<char>) -> Seq<char> {
    if l == "kotlin"@ {
        "build.gradle.kts"@
    } else if l == "swift"@ {
        "Package.swift"@
    } else {
        "package.json"@
    }
}

impl Lang {
    /// Wraps a language identifier.
    pub fn new(kind: String) -> (l: Lang)
        ensures
            l.kind@ == kind@,
    {
        Lang { kind }
    }

    /// The conventional package file name of this language.
    pub fn pkg_file(&self) -> (r: String)
        ensures
            r@ == pkg_file_of(self.kind@),
    {
        if str_eq_str(self.kind.as_str(), "kotlin") {
            "build.gradle.kts".to_owned()
        } else if str_eq_str(self.kind.as_str(), "swift") {
            "Package.swift".to_owned()
        } else {
            "package.json".to_owned()
        }
    }
}

/// The frontend artefacts a conforming frontend repository must show.
pub struct FrontendArtefact {
    pub components: Vec<String>,
    pub request: Vec<(String, String)>,
    pub pages: Vec<String>,
    pub data_model: String,
}

impl FrontendArtefact {
    /// The stock artefact set: a person-management frontend with two
    /// components, two requests, two pages and one data model.
    pub fn default() -> (a: FrontendArtefact)
        ensures
            a.components@.map_values(|s: String| s@) == seq!["NewPerson"@, "People"@],
            a.request@.map_values(|p: (String, String)| (p.0@, p.1@)) == seq![
                ("GET"@, "/people"@),
                ("POST"@, "/person"@),
            ],
            a.pages@.map_values(|s: String| s@) == seq!["/new-person"@, "/people"@],
            a.data_model@ == "Person"@,
    {
        let mut components: Vec<String> = Vec::new();
        components.push("NewPerson".to_owned());
        components.push("People".to_owned());
        let mut request: Vec<(String, String)> = Vec::new();
        request.push(("GET".to_owned(), "/people".to_owned()));
        request.push(("POST".to_owned(), "/person".to_owned()));
        let mut pages: Vec<String> = Vec::new();
        pages.push("/new-person".to_owned());
        pages.push("/people".to_owned());
        let a = FrontendArtefact { components, request, pages, data_model: "Person".to_owned() };
        proof {
            assert(a.components@.map_values(|s: String| s@) =~= seq!["NewPerson"@, "People"@]);
            assert(a.request@.map_values(|p: (String, String)| (p.0@, p.1@)) =~= seq![
                ("GET"@, "/people"@),
                ("POST"@, "/person"@),
            ]);
            assert(a.pages@.map_values(|s: String| s@) =~= seq!["/new-person"@, "/people"@]);
        }
        a
    }
}

/// A frontend check that failed: the named artefact is missing.
#[derive(Clone, Copy, PartialEq, Eq, Structural, Debug)]
pub enum FrontendError {
    LanguageNodeMissing,
    PackageFileMissing,
    DataModelMissing,
    ItemMissing,
    RequestMissing,
}

/// Whether some node of the given kind carries exactly this name.
pub open spec fn has_kind_name(ns: Seq<NodeV>, kind: NodeKind, name: Seq<char>) -> bool {
    exists|i: int| 0 <= i < ns.len() && (#[trigger] ns[i]).kind == kind && ns[i].name == name
}

/// Whether some node of the given kind has a name occurring in `hay`.
pub open spec fn has_kind_name_within(ns: Seq<NodeV>, kind: NodeKind, hay: Seq<char>) -> bool {
    exists|i: int| 0 <= i < ns.len() && (#[trigger] ns[i]).kind == kind && contains_sub(hay, ns[i].name)
}

/// Whether some node of the given kind has a name containing `sub`.
pub open spec fn has_kind_name_containing(ns: Seq<NodeV>, kind: NodeKind, sub: Seq<char>) -> bool {
    exists|i: int| 0 <= i < ns.len() && (#[trigger] ns[i]).kind == kind && contains_sub(ns[i].name, sub)
}

/// The verb a node's metadata declares, empty when it declares none.
pub open spec fn verb_of(n: NodeV) -> Seq<char> {
    match meta_get(n.meta, "verb"@) {
        Some(v) => v,
        None => Seq::empty(),
    }
}

/// The number of separators in a character sequence.
pub open spec fn sep_count(s: Seq<char>) -> nat
    decreases s.len(),
{
    if s.len() == 0 {
        0
    } else {
        (if s[0] == '/' {
            1nat
        } else {
            0nat
        }) + sep_count(s.drop_first())
    }
}

/// The suffix after the `n`-th separator.
pub open spec fn after_seps(s: Seq<char>, n: nat) -> Seq<char>
    decreases s.len(),
{
    if n == 0 {
        s
    } else if s.len() == 0 {
        s
    } else if s[0] == '/' {
        after_seps(s.drop_first(), (n - 1) as nat)
    } else {
        after_seps(s.drop_first(), n)
    }
}

/// The route path of a request URL: everything after its third
/// separator, without a trailing separator, prefixed by a separator;
/// a bare separator when the URL has fewer than three separators or
/// nothing follows them.
pub open spec fn endpoint_of(url: Seq<char>) -> Seq<char> {
    if sep_count(url) < 3 {
        seq!['/']
    } else {
        let tail = after_seps(url, 3);
        let trimmed = if tail.len() > 0 && tail.last() == '/' {
            tail.drop_last()
        } else {
            tail
        };
        if trimmed.len() == 0 {
            seq!['/']
        } else {
            seq!['/'] + trimmed
        }
    }
}

/// Whether a request with this verb (upper-cased) and endpoint is held.
pub open spec fn has_request(ns: Seq<NodeV>, verb: Seq<char>, endpoint: Seq<char>) -> bool {
    exists|i: int|
        0 <= i < ns.len() && (#[trigger] ns[i]).kind == NodeKind::Request && upper_seq(
            verb_of(ns[i]),
        ) == verb && endpoint_of(ns[i].name) == endpoint
}

/// Whether a graph shows every artefact of the stock frontend set for
/// the given language.
pub open spec fn frontend_ok(ns: Seq<NodeV>, lang: Seq<char>) -> bool {
    &&& has_kind_name(ns, NodeKind::Language, lang)
    &&& has_kind_name_containing(ns, NodeKind::File, pkg_file_of(lang))
    &&& has_kind_name_containing(ns, NodeKind::DataModel, "Person"@)
    &&& has_kind_name_within(ns, NodeKind::Function, "NewPerson"@)
    &&& has_kind_name_within(ns, NodeKind::Function, "People"@)
    &&& has_kind_name_within(ns, NodeKind::Page, "/new-person"@)
    &&& has_kind_name_within(ns, NodeKind::Page, "/people"@)
    &&& has_request(ns, "GET"@, "/people"@)
    &&& has_request(ns, "POST"@, "/person"@)
}

/// Checks a built graph against the expected frontend artefacts.
pub struct FrontendTester<G: GraphStore> {
    pub graph: G,
    pub lang: Lang,
    pub repo: Option<String>,
}

impl<G: GraphStore> FrontendTester<G> {
    /// A tester over an already-built graph.
    pub fn from_parts(graph: G, lang: Lang, repo: Option<String>) -> (t: Self)
        requires
            graph.inv(),
        ensures
            t.graph == graph,
            t.lang.kind@ == lang.kind@,
            t.graph.inv(),
    {
        FrontendTester { graph, lang, repo }
    }

    /// Runs every frontend check with the stock artefact set.
    pub fn test_frontend(&self) -> (r: Result<(), FrontendError>)
        requires
            self.graph.inv(),
        ensures
            r is Ok <==> frontend_ok(self.graph.node_views(), self.lang.kind@),
    {
        let artefact = FrontendArtefact::default();
        proof {
            let cm = artefact.components@.map_values(|s: String| s@);
            assert(cm.len() == artefact.components@.len());
            assert(cm[0] == artefact.components@[0]@);
            assert(cm[1] == artefact.components@[1]@);
            assert(artefact.components@[0]@ == "NewPerson"@);
            assert(artefact.components@[1]@ == "People"@);
            let pm = artefact.pages@.map_values(|s: String| s@);
            assert(pm.len() == artefact.pages@.len());
            assert(pm[0] == artefact.pages@[0]@);
            assert(pm[1] == artefact.pages@[1]@);
            assert(artefact.pages@[0]@ == "/new-person"@);
            assert(artefact.pages@[1]@ == "/people"@);
            let rm = artefact.request@.map_values(|p: (String, String)| (p.0@, p.1@));
            assert(rm.len() == artefact.request@.len());
            assert(rm[0] == (artefact.request@[0].0@, artefact.request@[0].1@));
            assert(rm[1] == (artefact.request@[1].0@, artefact.request@[1].1@));
            assert(artefact.request@[0].0@ == "GET"@ && artefact.request@[0].1@ == "/people"@);
            assert(artefact.request@[1].0@ == "POST"@ && artefact.request@[1].1@ == "/person"@);
        }
        self.test_language()?;
        self.test_package_file()?;
        self.test_data_model(artefact.data_model.as_str())?;
        self.test_components(&artefact.components)?;
        self.test_pages(&artefact.pages)?;
        self.test_requests(&artefact.request)?;
        Ok(())
    }

    /// Checks that a Language node named for the declared language exists.
    pub fn test_language(&self) -> (r: Result<(), FrontendError>)
        requires
            self.graph.inv(),
        ensures
            r is Ok <==> has_kind_name(self.graph.node_views(), NodeKind::Language, self.lang.kind@),
    {
        let nodes = self.graph.all_nodes();
        let ghost ns = self.graph.node_views();
        let mut i: usize = 0;
        while i < nodes.len()
            invariant
                i <= nodes.len(),
                ns == views_of_nodes(nodes@),
                ns == self.graph.node_views(),
                ns.len() == nodes@.len(),
                forall|j: int|
                    0 <= j < i ==> !((#[trigger] ns[j]).kind == NodeKind::Language && ns[j].name
                        == self.lang.kind@),
            decreases nodes.len() - i,
        {
            proof {
                assert(ns[i as int] == nodes@[i as int]@);
            }
            let kind_hit = nodes[i].kind == NodeKind::Language;
            let name_hit = str_eq_str(nodes[i].data.name.as_str(), self.lang.kind.as_str());
            if kind_hit && name_hit {
                proof {
                    assert(ns[i as int].kind == NodeKind::Language && ns[i as int].name
                        == self.lang.kind@);
                }
                return Ok(());
            }
            i = i + 1;
        }
        Err(FrontendError::LanguageNodeMissing)
    }

    /// Checks that some File node's name holds the language's package
    /// file name.
    pub fn test_package_file(&self) -> (r: Result<(), FrontendError>)
        requires
            self.graph.inv(),
        ensures
            r is Ok <==> has_kind_name_containing(
                self.graph.node_views(),
                NodeKind::File,
                pkg_file_of(self.lang.kind@),
            ),
    {
        let pkg = self.lang.pkg_file();
        let nodes = self.graph.all_nodes();
        let ghost ns = self.graph.node_views();
        let mut i: usize = 0;
        while i < nodes.len()
            invariant
                i <= nodes.len(),
                ns == views_of_nodes(nodes@),
                ns == self.graph.node_views(),
                ns.len() == nodes@.len(),
                pkg@ == pkg_file_of(self.lang.kind@),
                forall|j: int|
                    0 <= j < i ==> !((#[trigger] ns[j]).kind == NodeKind::File && contains_sub(
                        ns[j].name,
                        pkg@,
                    )),
            decreases nodes.len() - i,
        {
            proof {
                assert(ns[i as int] == nodes@[i as int]@);
            }
            let kind_hit = nodes[i].kind == NodeKind::File;
            let name_hit = str_contains(nodes[i].data.name.as_str(), pkg.as_str());
            if kind_hit && name_hit {
                proof {
                    assert(ns[i as int].kind == NodeKind::File && contains_sub(
                        ns[i as int].name,
                        pkg@,
                    ));
                }
                return Ok(());
            }
            i = i + 1;
        }
        Err(FrontendError::PackageFileMissing)
    }

    /// Checks that some DataModel node's name holds `data_model`.
    pub fn test_data_model(&self, data_model: &str) -> (r: Result<(), FrontendError>)
        requires
            self.graph.inv(),
        ensures
            r is Ok <==> has_kind_name_containing(
                self.graph.node_views(),
                NodeKind::DataModel,
                data_model@,
            ),
    {
        let nodes = self.graph.all_nodes();
        let ghost ns = self.graph.node_views();
        let mut i: usize = 0;
        while i < nodes.len()
            invariant
                i <= nodes.len(),
                ns == views_of_nodes(nodes@),
                ns == self.graph.node_views(),
                ns.len() == nodes@.len(),
                forall|j: int|
                    0 <= j < i ==> !((#[trigger] ns[j]).kind == NodeKind::DataModel && contains_sub(
                        ns[j].name,
                        data_model@,
                    )),
            decreases nodes.len() - i,
        {
            proof {
                assert(ns[i as int] == nodes@[i as int]@);
            }
            let kind_hit = nodes[i].kind == NodeKind::DataModel;
            let name_hit = str_contains(nodes[i].data.name.as_str(), data_model);
            if kind_hit && name_hit {
                proof {
                    assert(ns[i as int].kind == NodeKind::DataModel && contains_sub(
                        ns[i as int].name,
                        data_model@,
                    ));
                }
                return Ok(());
            }
            i = i + 1;
        }
        Err(FrontendError::DataModelMissing)
    }

    /// Checks that every expected component matches some Function node.
    pub fn test_components(&self, expected_components: &Vec<String>) -> (r: Result<
        (),
        FrontendError,
    >)
        requires
            self.graph.inv(),
        ensures
            r is Ok <==> forall|j: int|
                0 <= j < expected_components@.len() ==> has_kind_name_within(
                    self.graph.node_views(),
                    NodeKind::Function,
                    (#[trigger] expected_components@[j])@,
                ),
    {
        self.verify_nodes(expected_components, NodeKind::Function)
    }

    /// Checks that every expected page matches some Page node.
    pub fn test_pages(&self, expected_pages: &Vec<String>) -> (r: Result<(), FrontendError>)
        requires
            self.graph.inv(),
        ensures
            r is Ok <==> forall|j: int|
                0 <= j < expected_pages@.len() ==> has_kind_name_within(
                    self.graph.node_views(),
                    NodeKind::Page,
                    (#[trigger] expected_pages@[j])@,
                ),
    {
        self.verify_nodes(expected_pages, NodeKind::Page)
    }

    /// Checks that every expected item's text holds the name of some
    /// node of the given kind.
    pub fn verify_nodes(&self, expected_items: &Vec<String>, kind: NodeKind) -> (r: Result<
        (),
        FrontendError,
    >)
        requires
            self.graph.inv(),
        ensures
            r is Ok <==> forall|j: int|
                0 <= j < expected_items@.len() ==> has_kind_name_within(
                    self.graph.node_views(),
                    kind,
                    (#[trigger] expected_items@[j])@,
                ),
    {
        let nodes = self.graph.all_nodes();
        let ghost ns = self.graph.node_views();
        let mut j: usize = 0;
        while j < expected_items.len()
            invariant
                j <= expected_items.len(),
                ns == views_of_nodes(nodes@),
                ns == self.graph.node_views(),
                forall|jj: int|
                    0 <= jj < j ==> has_kind_name_within(
                        ns,
                        kind,
                        (#[trigger] expected_items@[jj])@,
                    ),
            decreases expected_items.len() - j,
        {
            let hit = scan_kind_within(&nodes, kind, expected_items[j].as_str());
            if !hit {
                proof {
                    assert(!has_kind_name_within(ns, kind, expected_items@[j as int]@));
                }
                return Err(FrontendError::ItemMissing);
            }
            j = j + 1;
        }
        Ok(())
    }

    /// Checks that every expected (verb, endpoint) pair matches some
    /// Request node, comparing verbs upper-cased and endpoints through
    /// [`endpoint_of`].
    pub fn test_requests(&self, expected_requests: &Vec<(String, String)>) -> (r: Result<
        (),
        FrontendError,
    >)
        requires
            self.graph.inv(),
        ensures
            r is Ok <==> forall|j: int|
                0 <= j < expected_requests@.len() ==> has_request(
                    self.graph.node_views(),
                    (#[trigger] expected_requests@[j]).0@,
                    expected_requests@[j].1@,
                ),
    {
        let nodes = self.graph.all_nodes();
        let ghost ns = self.graph.node_views();
        let mut j: usize = 0;
        while j < expected_requests.len()
            invariant
                j <= expected_requests.len(),
                ns == views_of_nodes(nodes@),
                ns == self.graph.node_views(),
                forall|jj: int|
                    0 <= jj < j ==> has_request(
                        ns,
                        (#[trigger] expected_requests@[jj]).0@,
                        expected_requests@[jj].1@,
                    ),
            decreases expected_requests.len() - j,
        {
            let hit = scan_request(
                &nodes,
                expected_requests[j].0.as_str(),
                expected_requests[j].1.as_str(),
            );
            if !hit {
                proof {
                    assert(!has_request(
                        ns,
                        expected_requests@[j as int].0@,
                        expected_requests@[j as int].1@,
                    ));
                }
                return Err(FrontendError::RequestMissing);
            }
            j = j + 1;
        }
        Ok(())
    }

    /// Extracts the route path of a request URL, as [`endpoint_of`] says.
    pub fn extract_request_endpoint(url: &str) -> (r: String)
        ensures
            r@ == endpoint_of(url@),
    {
        let len = url.unicode_len();
        let mut i: usize = 0;
        let mut seen: usize = 0;
        proof {
            assert(url@.skip(0int) =~= url@);
        }
        while i < len && seen < 3
            invariant
                i <= len,
                seen <= 3,
                len == url@.len(),
                sep_count(url@) == seen + sep_count(url@.skip(i as int)),
                after_seps(url@, 3) == after_seps(url@.skip(i as int), (3 - seen) as nat),
                seen == 3 ==> after_seps(url@, 3) == url@.skip(i as int),
            decreases len - i,
        {
            let c = url.get_char(i);
            proof {
                assert(url@.skip(i as int)[0] == url@[i as int]);
                assert(url@.skip(i as int).drop_first() =~= url@.skip(i + 1int));
                assert(url@.skip(i as int).len() > 0);
            }
            if c == '/' {
                seen = seen + 1;
            }
            proof {
                assert(after_seps(url@.skip(i + 1int), 0nat) == url@.skip(i + 1int));
            }
            i = i + 1;
        }
        if seen < 3 {
            proof {
                assert(url@.skip(len as int) =~= Seq::<char>::empty());
                assert(sep_count(Seq::<char>::empty()) == 0);
                assert(sep_count(url@) < 3);
                reveal_strlit("/");
                assert("/"@ =~= seq!['/']);
            }
            return "/".to_owned();
        }
        let ghost tail = after_seps(url@, 3);
        proof {
            assert(tail == url@.skip(i as int));
        }
        let mut q = len;
        if q > i && url.get_char(q - 1) == '/' {
            q = q - 1;
        }
        proof {
            if url@.skip(i as int).len() > 0 && url@.skip(i as int).last() == '/' {
                assert(q == len - 1);
                assert(url@.subrange(i as int, q as int) =~= tail.drop_last());
            } else {
                assert(q == len);
                assert(url@.subrange(i as int, q as int) =~= tail);
            }
        }
        if i == q {
            proof {
                reveal_strlit("/");
                assert("/"@ =~= seq!['/']);
            }
            return "/".to_owned();
        }
        let tail_str = url.substring_char(i, q);
        let mut res = "/".to_owned();
        res.append(tail_str);
        proof {
            reveal_strlit("/");
            assert("/"@ =~= seq!['/']);
            assert(res@ == seq!['/'] + url@.subrange(i as int, q as int));
        }
        res
    }
}


/// Whether some node of the given kind has a name occurring in `item`.
fn scan_kind_within(nodes: &Vec<Node>, kind: NodeKind, item: &str) -> (b: bool)
    ensures
        b == has_kind_name_within(views_of_nodes(nodes@), kind, item@),
{
    let ghost ns = views_of_nodes(nodes@);
    let mut i: usize = 0;
    while i < nodes.len()
        invariant
            i <= nodes.len(),
            ns == views_of_nodes(nodes@),
            ns.len() == nodes@.len(),
            forall|ii: int|
                0 <= ii < i ==> !((#[trigger] ns[ii]).kind == kind && contains_sub(
                    item@,
                    ns[ii].name,
                )),
        decreases nodes.len() - i,
    {
        proof {
            assert(ns[i as int] == nodes@[i as int]@);
        }
        let kind_hit = nodes[i].kind == kind;
        let name_hit = str_contains(item, nodes[i].data.name.as_str());
        if kind_hit && name_hit {
            proof {
                assert(ns[i as int].kind == kind && contains_sub(item@, ns[i as int].name));
            }
            return true;
        }
        i = i + 1;
    }
    false
}

/// Whether some Request node matches this verb and endpoint.
fn scan_request(nodes: &Vec<Node>, want_verb: &str, want_ep: &str) -> (b: bool)
    ensures
        b == has_request(views_of_nodes(nodes@), want_verb@, want_ep@),
{
    let ghost ns = views_of_nodes(nodes@);
    let mut i: usize = 0;
    while i < nodes.len()
        invariant
            i <= nodes.len(),
            ns == views_of_nodes(nodes@),
            ns.len() == nodes@.len(),
            forall|ii: int|
                0 <= ii < i ==> !((#[trigger] ns[ii]).kind == NodeKind::Request && upper_seq(
                    verb_of(ns[ii]),
                ) == want_verb@ && endpoint_of(ns[ii].name) == want_ep@),
        decreases nodes.len() - i,
    {
        proof {
            assert(ns[i as int] == nodes@[i as int]@);
        }
        if nodes[i].kind == NodeKind::Request {
            let verb = match meta_lookup(&nodes[i].data.meta, "verb") {
                Some(v) => v,
                None => String::new(),
            };
            proof {
                assert(verb@ == verb_of(ns[i as int]));
            }
            let verb_hit = upper_eq(verb.as_str(), want_verb);
            let ep = FrontendTester::<crate::store::ArrayGraph>::extract_request_endpoint(
                nodes[i].data.name.as_str(),
            );
            let ep_hit = str_eq_str(ep.as_str(), want_ep);
            if verb_hit && ep_hit {
                proof {
                    assert(ns[i as int].kind == NodeKind::Request && upper_seq(verb_of(ns[i as int]))
                        == want_verb@ && endpoint_of(ns[i as int].name) == want_ep@);
                }
                return true;
            }
        }
        i = i + 1;
    }
    false
}

} // verus!
