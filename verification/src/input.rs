//! The language-plugin boundary: the candidate records a per-language
//! parser extracts from one file, and the whole build input.
//!
//! Candidates are plugin-local and unresolved: a candidate reference names
//! a textual identifier plus the syntactic context resolution needs.  The
//! external symbol-resolution service is injected as a plain answer table
//! (a no-op stub when empty or disabled), so the engine itself stays
//! deterministic: a slow, absent or malformed service response is simply
//! an absent table row, which resolution treats as "not found".

use vstd::prelude::*;

verus! {

/// A candidate class or function declaration: its name and the line of
/// the declaration.
pub struct EntityCand {
    pub name: String,
    pub line: usize,
}

/// The view of an entity candidate.
pub struct EntityV {
    pub name: Seq<char>,
    pub line: usize,
}

impl View for EntityCand {
    type V = EntityV;

    open spec fn view(&self) -> EntityV {
        EntityV { name: self.name@, line: self.line }
    }
}

/// A candidate import: the imported name and the module specifier or
/// package coordinate it comes from.
pub struct ImportCand {
    pub name: String,
    pub source: String,
}

/// The view of an import candidate.
pub struct ImportV {
    pub name: Seq<char>,
    pub source: Seq<char>,
}

impl View for ImportCand {
    type V = ImportV;

    open spec fn view(&self) -> ImportV {
        ImportV { name: self.name@, source: self.source@ }
    }
}

/// Whether a candidate reference looks like a call or like UI composition.
#[derive(Clone, Copy, PartialEq, Eq, Structural, Debug)]
pub enum RefKind {
    Call,
    Render,
}

/// A candidate unresolved reference: an identifier, the enclosing
/// function, the line of the reference, and what it looks like.
pub struct RefCand {
    pub name: String,
    pub caller: String,
    pub line: usize,
    pub kind: RefKind,
}

/// The view of a reference candidate.
pub struct RefCandV {
    pub name: Seq<char>,
    pub caller: Seq<char>,
    pub line: usize,
    pub kind: RefKind,
}

impl View for RefCand {
    type V = RefCandV;

    open spec fn view(&self) -> RefCandV {
        RefCandV { name: self.name@, caller: self.caller@, line: self.line, kind: self.kind }
    }
}

/// A candidate route declaration: HTTP-style verb, path template, and the
/// name of the handler function.
pub struct RouteCand {
    pub verb: String,
    pub path: String,
    pub handler: String,
}

/// The view of a route candidate.
pub struct RouteV {
    pub verb: Seq<char>,
    pub path: Seq<char>,
    pub handler: Seq<char>,
}

impl View for RouteCand {
    type V = RouteV;

    open spec fn view(&self) -> RouteV {
        RouteV { verb: self.verb@, path: self.path@, handler: self.handler@ }
    }
}

/// A candidate schema/model declaration: its name and its fields
/// (field name to declared type), independent of any ORM framework.
pub struct ModelCand {
    pub name: String,
    pub fields: Vec<(String, String)>,
}

/// The view of a model candidate.
pub struct ModelV {
    pub name: Seq<char>,
    pub fields: Seq<(Seq<char>, Seq<char>)>,
}

impl View for ModelCand {
    type V = ModelV;

    open spec fn view(&self) -> ModelV {
        ModelV { name: self.name@, fields: crate::taxonomy::meta_view(self.fields@) }
    }
}

/// A candidate UI page: its route path and the component that is its entry.
pub struct PageCand {
    pub path: String,
    pub component: String,
}

/// The view of a page candidate.
pub struct PageV {
    pub path: Seq<char>,
    pub component: Seq<char>,
}

impl View for PageCand {
    type V = PageV;

    open spec fn view(&self) -> PageV {
        PageV { path: self.path@, component: self.component@ }
    }
}

/// Everything one language plugin extracted from one file.
pub struct FileCand {
    pub path: String,
    pub functions: Vec<EntityCand>,
    pub classes: Vec<EntityCand>,
    pub imports: Vec<ImportCand>,
    pub libs: Vec<String>,
    pub models: Vec<ModelCand>,
    pub routes: Vec<RouteCand>,
    pub pages: Vec<PageCand>,
    pub refs: Vec<RefCand>,
}

/// The view of one file's candidates.
pub struct FileV {
    pub path: Seq<char>,
    pub functions: Seq<EntityV>,
    pub classes: Seq<EntityV>,
    pub imports: Seq<ImportV>,
    pub libs: Seq<Seq<char>>,
    pub models: Seq<ModelV>,
    pub routes: Seq<RouteV>,
    pub pages: Seq<PageV>,
    pub refs: Seq<RefCandV>,
}

impl View for FileCand {
    type V = FileV;

    open spec fn view(&self) -> FileV {
        FileV {
            path: self.path@,
            functions: self.functions@.map_values(|e: EntityCand| e@),
            classes: self.classes@.map_values(|e: EntityCand| e@),
            imports: self.imports@.map_values(|e: ImportCand| e@),
            libs: self.libs@.map_values(|s: String| s@),
            models: self.models@.map_values(|e: ModelCand| e@),
            routes: self.routes@.map_values(|e: RouteCand| e@),
            pages: self.pages@.map_values(|e: PageCand| e@),
            refs: self.refs@.map_values(|e: RefCand| e@),
        }
    }
}

/// The whole build input: the declared primary language, the repository
/// root path, and every file's candidates, in discovery order.
pub struct BuildInput {
    pub language: String,
    pub root: String,
    pub files: Vec<FileCand>,
}

/// The view of a build input.
pub struct InputV {
    pub language: Seq<char>,
    pub root: Seq<char>,
    pub files: Seq<FileV>,
}

impl View for BuildInput {
    type V = InputV;

    open spec fn view(&self) -> InputV {
        InputV {
            language: self.language@,
            root: self.root@,
            files: self.files@.map_values(|f: FileCand| f@),
        }
    }
}

/// One row of the external symbol-resolution service's answer table:
/// for the identifier at (file, line), the definition lives at
/// (target_file, target_line).
pub struct ResolverAnswer {
    pub file: String,
    pub line: usize,
    pub name: String,
    pub target_file: String,
    pub target_line: usize,
}

/// The view of a service answer.
pub struct AnswerV {
    pub file: Seq<char>,
    pub line: usize,
    pub name: Seq<char>,
    pub target_file: Seq<char>,
    pub target_line: usize,
}

impl View for ResolverAnswer {
    type V = AnswerV;

    open spec fn view(&self) -> AnswerV {
        AnswerV {
            file: self.file@,
            line: self.line,
            name: self.name@,
            target_file: self.target_file@,
            target_line: self.target_line,
        }
    }
}

/// Build parameters: whether the external symbol-resolution service is
/// enabled, and its answer table for this build.
pub struct BuildConfig {
    pub use_resolver: bool,
    pub answers: Vec<ResolverAnswer>,
}

/// The view of the build parameters.
pub struct ConfigV {
    pub use_resolver: bool,
    pub answers: Seq<AnswerV>,
}

impl View for BuildConfig {
    type V = ConfigV;

    open spec fn view(&self) -> ConfigV {
        ConfigV {
            use_resolver: self.use_resolver,
            answers: self.answers@.map_values(|a: ResolverAnswer| a@),
        }
    }
}

} // verus!
