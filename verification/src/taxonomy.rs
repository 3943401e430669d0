//! The entity taxonomy: the closed set of node and edge kinds, the concrete
//! node and edge records, their mathematical views, and validation of raw
//! candidate records against each kind's metadata schema.

use vstd::prelude::*;

verus! {

/// The kind of a graph node.
#[derive(Clone, Copy, PartialEq, Eq, Structural, Debug)]
pub enum NodeKind {
    Language,
    File,
    Library,
    Import,
    Class,
    Function,
    DataModel,
    Request,
    Page,
}

/// The kind of a directed graph edge.
#[derive(Clone, Copy, PartialEq, Eq, Structural, Debug)]
pub enum EdgeKind {
    Calls,
    Renders,
    Imports,
    Contains,
    Uses,
}

/// The payload common to every node: a display name, the owning file path,
/// and a kind-specific metadata mapping (string key to string value).
pub struct NodeData {
    pub name: String,
    pub file: String,
    pub meta: Vec<(String, String)>,
}

/// One graph node: a kind plus its payload.  A node's identity within a
/// graph is the triple (kind, name, file); names alone need not be unique.
pub struct Node {
    pub kind: NodeKind,
    pub data: NodeData,
}

/// A reference to a node by its identity triple.
pub struct NodeRef {
    pub kind: NodeKind,
    pub name: String,
    pub file: String,
}

/// One directed, typed edge between two node identities, with edge-level
/// metadata (for a Calls edge: resolution confidence and call text).
pub struct Edge {
    pub kind: EdgeKind,
    pub source: NodeRef,
    pub target: NodeRef,
    pub meta: Vec<(String, String)>,
}

/// The mathematical view of a node identity.
pub struct RefV {
    pub kind: NodeKind,
    pub name: Seq<char>,
    pub file: Seq<char>,
}

/// The mathematical view of a node.
pub struct NodeV {
    pub kind: NodeKind,
    pub name: Seq<char>,
    pub file: Seq<char>,
    pub meta: Seq<(Seq<char>, Seq<char>)>,
}

/// The mathematical view of an edge.
pub struct EdgeV {
    pub kind: EdgeKind,
    pub source: RefV,
    pub target: RefV,
    pub meta: Seq<(Seq<char>, Seq<char>)>,
}

/// The view of a metadata mapping: each pair as character sequences.
pub open spec fn meta_view(m: Seq<(String, String)>) -> Seq<(Seq<char>, Seq<char>)> {
    m.map_values(|p: (String, String)| (p.0@, p.1@))
}

impl View for NodeRef {
    type V = RefV;

    open spec fn view(&self) -> RefV {
        RefV { kind: self.kind, name: self.name@, file: self.file@ }
    }
}

impl View for Node {
    type V = NodeV;

    open spec fn view(&self) -> NodeV {
        NodeV {
            kind: self.kind,
            name: self.data.name@,
            file: self.data.file@,
            meta: meta_view(self.data.meta@),
        }
    }
}

impl View for Edge {
    type V = EdgeV;

    open spec fn view(&self) -> EdgeV {
        EdgeV { kind: self.kind, source: self.source@, target: self.target@, meta: meta_view(self.meta@) }
    }
}

impl NodeV {
    /// The identity triple of a node.
    pub open spec fn key(self) -> RefV {
        RefV { kind: self.kind, name: self.name, file: self.file }
    }
}

impl EdgeV {
    /// The identity of an edge: its kind and both endpoint identities.
    /// Edge metadata is not part of the identity.
    pub open spec fn key(self) -> (EdgeKind, RefV, RefV) {
        (self.kind, self.source, self.target)
    }
}

/// The first value bound to `key` in a metadata mapping, if any.
pub open spec fn meta_get(m: Seq<(Seq<char>, Seq<char>)>, key: Seq<char>) -> Option<Seq<char>>
    decreases m.len(),
{
    if m.len() == 0 {
        None
    } else if m[0].0 == key {
        Some(m[0].1)
    } else {
        meta_get(m.drop_first(), key)
    }
}

impl Node {
    /// Builds a node without metadata.
    pub fn new(kind: NodeKind, name: String, file: String) -> (n: Node)
        ensures
            n@ == (NodeV { kind, name: name@, file: file@, meta: Seq::<(Seq<char>, Seq<char>)>::empty() }),
    {
        let n = Node { kind, data: NodeData { name, file, meta: Vec::new() } };
        proof {
            assert(meta_view(n.data.meta@) =~= Seq::<(Seq<char>, Seq<char>)>::empty());
        }
        n
    }

}

/// Clones a string; the copy has the same characters.
pub fn clone_string(s: &String) -> (r: String)
    ensures
        r@ == s@,
{
    s.clone()
}

/// Clones a metadata mapping; the copy has the same view.
pub fn clone_meta(m: &Vec<(String, String)>) -> (r: Vec<(String, String)>)
    ensures
        meta_view(r@) == meta_view(m@),
{
    let mut out: Vec<(String, String)> = Vec::new();
    let mut i: usize = 0;
    while i < m.len()
        invariant
            i <= m.len(),
            out@.len() == i,
            forall|j: int|
                0 <= j < i ==> out@[j].0@ == m@[j].0@ && out@[j].1@ == m@[j].1@,
        decreases m.len() - i,
    {
        let k = clone_string(&m[i].0);
        let v = clone_string(&m[i].1);
        out.push((k, v));
        i = i + 1;
    }
    proof {
        assert(meta_view(out@) =~= meta_view(m@));
    }
    out
}

impl Clone for NodeRef {
    /// The copy views equal to the original.
    fn clone(&self) -> (r: Self)
        ensures
            r@ == self@,
    {
        NodeRef { kind: self.kind, name: clone_string(&self.name), file: clone_string(&self.file) }
    }
}

impl Clone for Node {
    /// The copy views equal to the original.
    fn clone(&self) -> (r: Self)
        ensures
            r@ == self@,
    {
        Node {
            kind: self.kind,
            data: NodeData {
                name: clone_string(&self.data.name),
                file: clone_string(&self.data.file),
                meta: clone_meta(&self.data.meta),
            },
        }
    }
}

impl Clone for Edge {
    /// The copy views equal to the original.
    fn clone(&self) -> (r: Self)
        ensures
            r@ == self@,
    {
        Edge {
            kind: self.kind,
            source: self.source.clone(),
            target: self.target.clone(),
            meta: clone_meta(&self.meta),
        }
    }
}

/// A malformed candidate record: the kind's metadata schema is not met.
pub enum ValidationError {
    /// A Request record without a non-empty `verb` metadata value.
    MissingVerb,
}

/// Whether a metadata mapping meets the schema of the given node kind.
/// Only Request nodes carry a required key: a non-empty `verb`.
pub open spec fn spec_meta_valid(kind: NodeKind, m: Seq<(Seq<char>, Seq<char>)>) -> bool {
    match kind {
        NodeKind::Request => match meta_get(m, "verb"@) {
            Some(v) => v.len() > 0,
            None => false,
        },
        _ => true,
    }
}

/// Looks up the first value bound to `key` in a metadata mapping.
pub fn meta_lookup(m: &Vec<(String, String)>, key: &str) -> (r: Option<String>)
    ensures
        match r {
            Some(v) => meta_get(meta_view(m@), key@) == Some(v@),
            None => meta_get(meta_view(m@), key@) is None,
        },
{
    let mut i: usize = 0;
    proof {
        assert(m@.skip(0int) =~= m@);
    }
    while i < m.len()
        invariant
            i <= m.len(),
            meta_get(meta_view(m@), key@) == meta_get(meta_view(m@.skip(i as int)), key@),
        decreases m.len() - i,
    {
        let ks: &str = m[i].0.as_str();
        if str_eq_str(ks, key) {
            proof {
                assert(meta_view(m@.skip(i as int))[0] == (m@[i as int].0@, m@[i as int].1@));
            }
            return Some(clone_string(&m[i].1));
        }
        proof {
            assert(meta_view(m@.skip(i as int)).drop_first() =~= meta_view(m@.skip(i + 1 as int)));
            assert(meta_view(m@.skip(i as int))[0] == (m@[i as int].0@, m@[i as int].1@));
        }
        i = i + 1;
    }
    proof {
        assert(meta_view(m@.skip(i as int)) =~= Seq::<(Seq<char>, Seq<char>)>::empty());
    }
    None
}

/// Compares two string slices character for character.
pub fn str_eq_str(a: &str, b: &str) -> (r: bool)
    ensures
        r == (a@ == b@),
{
    let al = a.unicode_len();
    let bl = b.unicode_len();
    if al != bl {
        return false;
    }
    let mut i: usize = 0;
    while i < al
        invariant
            i <= al,
            al == a@.len(),
            bl == b@.len(),
            al == bl,
            forall|j: int| 0 <= j < i ==> a@[j] == b@[j],
        decreases al - i,
    {
        if a.get_char(i) != b.get_char(i) {
            return false;
        }
        i = i + 1;
    }
    proof {
        assert(a@ =~= b@);
    }
    true
}

/// Validates a raw candidate's metadata against the kind's schema:
/// a Request record must carry a non-empty `verb`; every other kind has
/// no required key.  The caller decides whether to log-and-skip or abort.
pub fn validate_record(kind: NodeKind, meta: &Vec<(String, String)>) -> (r: Result<(), ValidationError>)
    ensures
        r is Ok <==> spec_meta_valid(kind, meta_view(meta@)),
{
    match kind {
        NodeKind::Request => {
            match meta_lookup(meta, "verb") {
                Some(v) => {
                    if v.as_str().unicode_len() > 0 {
                        Ok(())
                    } else {
                        Err(ValidationError::MissingVerb)
                    }
                },
                None => Err(ValidationError::MissingVerb),
            }
        },
        _ => Ok(()),
    }
}

} // verus!
