//! The resolution engine: turns candidate references into typed edges.
//!
//! For each reference it attempts, in order: (a) the same-file symbol
//! table, preferring the lexically nearest declaration and functions over
//! classes on ties; (b) the file's import table, resolved against the
//! target file's symbols; (c) a library fallback matching the imported
//! specifier (or the bare name) against declared package coordinates; and
//! (d) when enabled, the external symbol-resolution service's answer for
//! the reference's position.  A reference none of these resolves is
//! silently dropped: the graph is best-effort, never a guess.

use vstd::prelude::*;

use crate::input::{BuildConfig, BuildInput, ConfigV, EntityCand, EntityV, FileCand, FileV,
    ImportCand, InputV, RefCand, RefCandV, RefKind, ResolverAnswer};
use crate::strutil::{contains_sub, str_contains};
use crate::taxonomy::{clone_string, str_eq_str, NodeKind, NodeRef, RefV};

verus! {

/// The distance from an entity's declaration line to a reference line.
pub open spec fn ent_dist(e: EntityV, at: usize) -> int {
    if e.line >= at {
        e.line - at
    } else {
        at - e.line
    }
}

/// Folds the entities from index `i` on into the best same-name match:
/// a candidate replaces the current best only when strictly nearer to
/// the reference line, so earlier declarations win ties.
pub open spec fn best_in_from(
    ents: Seq<EntityV>,
    kind: NodeKind,
    name: Seq<char>,
    at: usize,
    i: int,
    cur: Option<(NodeKind, EntityV)>,
) -> Option<(NodeKind, EntityV)>
    decreases ents.len() - i,
{
    if i < 0 || i >= ents.len() {
        cur
    } else {
        let next = if ents[i].name == name && (match cur {
            Option::None => true,
            Option::Some(p) => ent_dist(ents[i], at) < ent_dist(p.1, at),
        }) {
            Some((kind, ents[i]))
        } else {
            cur
        };
        best_in_from(ents, kind, name, at, i + 1, next)
    }
}

/// The best same-file match for a name at a line: functions first, then
/// classes, nearest declaration preferred.
pub open spec fn best_local(f: FileV, name: Seq<char>, at: usize) -> Option<(NodeKind, EntityV)> {
    best_in_from(
        f.classes,
        NodeKind::Class,
        name,
        at,
        0,
        best_in_from(f.functions, NodeKind::Function, name, at, 0, None),
    )
}

/// The first file index with the given path, from index `i` on.
pub open spec fn find_file_from(files: Seq<FileV>, path: Seq<char>, i: int) -> Option<int>
    decreases files.len() - i,
{
    if i < 0 || i >= files.len() {
        None
    } else if files[i].path == path {
        Some(i)
    } else {
        find_file_from(files, path, i + 1)
    }
}

/// The first import of the given name, from index `i` on.
pub open spec fn find_import_from(imports: Seq<crate::input::ImportV>, name: Seq<char>, i: int) -> Option<int>
    decreases imports.len() - i,
{
    if i < 0 || i >= imports.len() {
        None
    } else if imports[i].name == name {
        Some(i)
    } else {
        find_import_from(imports, name, i + 1)
    }
}

/// The first entity of the given name, from index `i` on.
pub open spec fn find_ent_from(ents: Seq<EntityV>, name: Seq<char>, i: int) -> Option<int>
    decreases ents.len() - i,
{
    if i < 0 || i >= ents.len() {
        None
    } else if ents[i].name == name {
        Some(i)
    } else {
        find_ent_from(ents, name, i + 1)
    }
}

/// The first entity declared at the given line, from index `i` on.
pub open spec fn find_ent_at_line_from(ents: Seq<EntityV>, line: usize, i: int) -> Option<int>
    decreases ents.len() - i,
{
    if i < 0 || i >= ents.len() {
        None
    } else if ents[i].line == line {
        Some(i)
    } else {
        find_ent_at_line_from(ents, line, i + 1)
    }
}

/// The first entity of a file with the given name: functions before classes.
pub open spec fn first_entity(f: FileV, name: Seq<char>) -> Option<(NodeKind, EntityV)> {
    match find_ent_from(f.functions, name, 0) {
        Some(i) => Some((NodeKind::Function, f.functions[i])),
        None => match find_ent_from(f.classes, name, 0) {
            Some(i) => Some((NodeKind::Class, f.classes[i])),
            None => None,
        },
    }
}

/// The first entity of a file declared at the given line: functions
/// before classes.
pub open spec fn entity_at(f: FileV, line: usize) -> Option<(NodeKind, EntityV)> {
    match find_ent_at_line_from(f.functions, line, 0) {
        Some(i) => Some((NodeKind::Function, f.functions[i])),
        None => match find_ent_at_line_from(f.classes, line, 0) {
            Some(i) => Some((NodeKind::Class, f.classes[i])),
            None => None,
        },
    }
}

/// The first declared library coordinate containing `q`, from index `i` on.
pub open spec fn find_lib_in_from(libs: Seq<Seq<char>>, q: Seq<char>, i: int) -> Option<int>
    decreases libs.len() - i,
{
    if i < 0 || i >= libs.len() {
        None
    } else if contains_sub(libs[i], q) {
        Some(i)
    } else {
        find_lib_in_from(libs, q, i + 1)
    }
}

/// The first (file, library) position whose coordinate contains `q`,
/// from file index `i` on.
pub open spec fn find_lib_from(files: Seq<FileV>, q: Seq<char>, i: int) -> Option<(int, int)>
    decreases files.len() - i,
{
    if i < 0 || i >= files.len() {
        None
    } else {
        match find_lib_in_from(files[i].libs, q, 0) {
            Some(j) => Some((i, j)),
            None => find_lib_from(files, q, i + 1),
        }
    }
}

/// The first service answer for the identifier at (file, line), from
/// index `i` on.
pub open spec fn find_answer_from(
    answers: Seq<crate::input::AnswerV>,
    file: Seq<char>,
    line: usize,
    name: Seq<char>,
    i: int,
) -> Option<int>
    decreases answers.len() - i,
{
    if i < 0 || i >= answers.len() {
        None
    } else if answers[i].file == file && answers[i].line == line && answers[i].name == name {
        Some(i)
    } else {
        find_answer_from(answers, file, line, name, i + 1)
    }
}

/// What an import step resolves a name to: the first matching entity of
/// the imported file, when that file is part of the build.
pub open spec fn import_target(inp: InputV, f: FileV, name: Seq<char>) -> Option<RefV> {
    match find_import_from(f.imports, name, 0) {
        Some(ii) => match find_file_from(inp.files, f.imports[ii].source, 0) {
            Some(tf) => match first_entity(inp.files[tf], name) {
                Some(p) => Some(RefV { kind: p.0, name: p.1.name, file: inp.files[tf].path }),
                None => None,
            },
            None => None,
        },
        None => None,
    }
}

/// The query the library fallback matches against coordinates: the
/// imported specifier when the name is imported, the bare name otherwise.
pub open spec fn lib_query(f: FileV, name: Seq<char>) -> Seq<char> {
    match find_import_from(f.imports, name, 0) {
        Some(ii) => f.imports[ii].source,
        None => name,
    }
}

/// Steps (a) same file, (b) imports, (c) library fallback, with the
/// confidence each step carries.
pub open spec fn resolve_steps_abc(inp: InputV, f: FileV, name: Seq<char>, line: usize) -> Option<(RefV, Seq<char>)> {
    match best_local(f, name, line) {
        Some(p) => Some((RefV { kind: p.0, name: p.1.name, file: f.path }, "same-file"@)),
        None => match import_target(inp, f, name) {
            Some(t) => Some((t, "import"@)),
            None => match find_lib_from(inp.files, lib_query(f, name), 0) {
                Some(pos) => Some(
                    (
                        RefV {
                            kind: NodeKind::Library,
                            name: inp.files[pos.0].libs[pos.1],
                            file: inp.files[pos.0].path,
                        },
                        "library"@,
                    ),
                ),
                None => None,
            },
        },
    }
}

/// Step (d): the external service's answer, resolved to the entity that
/// owns the answered file and line.
pub open spec fn resolve_service(inp: InputV, f: FileV, r: RefCandV, cfg: ConfigV) -> Option<
    (RefV, Seq<char>),
> {
    match find_answer_from(cfg.answers, f.path, r.line, r.name, 0) {
        Some(ai) => match find_file_from(inp.files, cfg.answers[ai].target_file, 0) {
            Some(tf) => match entity_at(inp.files[tf], cfg.answers[ai].target_line) {
                Some(p) => Some(
                    (RefV { kind: p.0, name: p.1.name, file: inp.files[tf].path }, "service"@),
                ),
                None => None,
            },
            None => None,
        },
        None => None,
    }
}

/// What a candidate reference resolves to, and with which confidence.
/// The service is consulted only for references steps (a)-(c) leave
/// unresolved, and only when it is enabled.
pub open spec fn spec_resolve(inp: InputV, f: FileV, r: RefCandV, cfg: ConfigV) -> Option<
    (RefV, Seq<char>),
> {
    match resolve_steps_abc(inp, f, r.name, r.line) {
        Some(t) => Some(t),
        None => if cfg.use_resolver {
            resolve_service(inp, f, r, cfg)
        } else {
            None
        },
    }
}

/// Finds the first file whose path equals `path`.
pub fn find_file(files: &Vec<FileCand>, path: &str) -> (r: Option<usize>)
    ensures
        match r {
            Some(i) => i < files@.len() && find_file_from(
                files@.map_values(|f: FileCand| f@),
                path@,
                0,
            ) == Some(i as int),
            None => find_file_from(files@.map_values(|f: FileCand| f@), path@, 0) is None,
        },
{
    let ghost fv = files@.map_values(|f: FileCand| f@);
    let mut i: usize = 0;
    while i < files.len()
        invariant
            i <= files.len(),
            fv == files@.map_values(|f: FileCand| f@),
            fv.len() == files@.len(),
            find_file_from(fv, path@, 0) == find_file_from(fv, path@, i as int),
        decreases files.len() - i,
    {
        if str_eq_str(files[i].path.as_str(), path) {
            return Some(i);
        }
        i = i + 1;
    }
    None
}

/// Scans one entity list for the best same-name match, folding into `cur`.
fn scan_best(
    ents: &Vec<EntityCand>,
    kind: NodeKind,
    name: &str,
    at: usize,
    cur: Option<(NodeKind, usize)>,
) -> (r: Option<(NodeKind, usize)>)
    ensures
        lift_best(r, name@) == best_in_from(
            ents@.map_values(|e: EntityCand| e@),
            kind,
            name@,
            at,
            0,
            lift_best(cur, name@),
        ),
{
    let ghost ev = ents@.map_values(|e: EntityCand| e@);
    let mut best = cur;
    let mut i: usize = 0;
    while i < ents.len()
        invariant
            i <= ents.len(),
            ev == ents@.map_values(|e: EntityCand| e@),
            ev.len() == ents@.len(),
            best_in_from(ev, kind, name@, at, 0, lift_best(cur, name@)) == best_in_from(
                ev,
                kind,
                name@,
                at,
                i as int,
                lift_best(best, name@),
            ),
        decreases ents.len() - i,
    {
        let name_hit = str_eq_str(ents[i].name.as_str(), name);
        let line = ents[i].line;
        let replace = name_hit && (match best {
            Option::None => true,
            Option::Some(p) => dist_exec(line, at) < dist_exec(p.1, at),
        });
        if replace {
            best = Some((kind, line));
            proof {
                assert(ev[i as int] == ents@[i as int]@);
                assert(ev[i as int].name == name@);
            }
        } else {
            proof {
                assert(ev[i as int] == ents@[i as int]@);
            }
        }
        i = i + 1;
    }
    best
}

/// The view of an executable best-match accumulator: the kind and line,
/// with the matched name filled in.
pub open spec fn lift_best(r: Option<(NodeKind, usize)>, name: Seq<char>) -> Option<
    (NodeKind, EntityV),
> {
    match r {
        Option::Some(p) => Some((p.0, EntityV { name, line: p.1 })),
        Option::None => None,
    }
}

/// The absolute distance between two lines.
fn dist_exec(line: usize, at: usize) -> (d: usize)
    ensures
        d == ent_dist(EntityV { name: Seq::empty(), line }, at),
{
    if line >= at {
        line - at
    } else {
        at - line
    }
}

/// Finds the first import of the given name.
fn find_import(imports: &Vec<ImportCand>, name: &str) -> (r: Option<usize>)
    ensures
        match r {
            Some(i) => i < imports@.len() && find_import_from(
                imports@.map_values(|e: ImportCand| e@),
                name@,
                0,
            ) == Some(i as int),
            None => find_import_from(imports@.map_values(|e: ImportCand| e@), name@, 0) is None,
        },
{
    let ghost iv = imports@.map_values(|e: ImportCand| e@);
    let mut i: usize = 0;
    while i < imports.len()
        invariant
            i <= imports.len(),
            iv == imports@.map_values(|e: ImportCand| e@),
            iv.len() == imports@.len(),
            find_import_from(iv, name@, 0) == find_import_from(iv, name@, i as int),
        decreases imports.len() - i,
    {
        if str_eq_str(imports[i].name.as_str(), name) {
            return Some(i);
        }
        i = i + 1;
    }
    None
}

/// Finds the first entity of the given name in one list.
fn find_ent(ents: &Vec<EntityCand>, name: &str) -> (r: Option<usize>)
    ensures
        match r {
            Some(i) => i < ents@.len() && find_ent_from(
                ents@.map_values(|e: EntityCand| e@),
                name@,
                0,
            ) == Some(i as int),
            None => find_ent_from(ents@.map_values(|e: EntityCand| e@), name@, 0) is None,
        },
{
    let ghost ev = ents@.map_values(|e: EntityCand| e@);
    let mut i: usize = 0;
    while i < ents.len()
        invariant
            i <= ents.len(),
            ev == ents@.map_values(|e: EntityCand| e@),
            ev.len() == ents@.len(),
            find_ent_from(ev, name@, 0) == find_ent_from(ev, name@, i as int),
        decreases ents.len() - i,
    {
        if str_eq_str(ents[i].name.as_str(), name) {
            return Some(i);
        }
        i = i + 1;
    }
    None
}

/// Finds the first entity declared at the given line in one list.
fn find_ent_at_line(ents: &Vec<EntityCand>, line: usize) -> (r: Option<usize>)
    ensures
        match r {
            Some(i) => i < ents@.len() && find_ent_at_line_from(
                ents@.map_values(|e: EntityCand| e@),
                line,
                0,
            ) == Some(i as int),
            None => find_ent_at_line_from(ents@.map_values(|e: EntityCand| e@), line, 0) is None,
        },
{
    let ghost ev = ents@.map_values(|e: EntityCand| e@);
    let mut i: usize = 0;
    while i < ents.len()
        invariant
            i <= ents.len(),
            ev == ents@.map_values(|e: EntityCand| e@),
            ev.len() == ents@.len(),
            find_ent_at_line_from(ev, line, 0) == find_ent_at_line_from(ev, line, i as int),
        decreases ents.len() - i,
    {
        if ents[i].line == line {
            return Some(i);
        }
        i = i + 1;
    }
    None
}

/// Finds the first (file, library) position whose coordinate contains `q`.
pub(crate) fn find_lib(files: &Vec<FileCand>, q: &str) -> (r: Option<(usize, usize)>)
    ensures
        match r {
            Some(p) => p.0 < files@.len() && p.1 < files@[p.0 as int].libs@.len()
                && find_lib_from(files@.map_values(|f: FileCand| f@), q@, 0) == Some(
                (p.0 as int, p.1 as int),
            ),
            None => find_lib_from(files@.map_values(|f: FileCand| f@), q@, 0) is None,
        },
{
    let ghost fv = files@.map_values(|f: FileCand| f@);
    let mut i: usize = 0;
    while i < files.len()
        invariant
            i <= files.len(),
            fv == files@.map_values(|f: FileCand| f@),
            fv.len() == files@.len(),
            find_lib_from(fv, q@, 0) == find_lib_from(fv, q@, i as int),
        decreases files.len() - i,
    {
        let libs = &files[i].libs;
        let ghost lv = fv[i as int].libs;
        let mut j: usize = 0;
        proof {
            assert(fv[i as int] == files@[i as int]@);
            assert(lv == libs@.map_values(|s: String| s@));
        }
        while j < libs.len()
            invariant
                j <= libs.len(),
                i < files.len(),
                fv == files@.map_values(|f: FileCand| f@),
                fv.len() == files@.len(),
                libs@ == files@[i as int].libs@,
                lv == fv[i as int].libs,
                lv == libs@.map_values(|s: String| s@),
                lv.len() == libs@.len(),
                find_lib_from(fv, q@, 0) == find_lib_from(fv, q@, i as int),
                find_lib_in_from(lv, q@, 0) == find_lib_in_from(lv, q@, j as int),
            decreases libs.len() - j,
        {
            if str_contains(libs[j].as_str(), q) {
                proof {
                    assert(lv[j as int] == libs@[j as int]@);
                    assert(find_lib_in_from(lv, q@, 0) == Some(j as int));
                    assert(find_lib_from(fv, q@, i as int) == Some((i as int, j as int)));
                }
                return Some((i, j));
            }
            proof {
                assert(lv[j as int] == libs@[j as int]@);
            }
            j = j + 1;
        }
        proof {
            assert(find_lib_in_from(lv, q@, 0) is None);
        }
        i = i + 1;
    }
    None
}

/// Finds the first service answer for the identifier at (file, line).
fn find_answer(answers: &Vec<ResolverAnswer>, file: &str, line: usize, name: &str) -> (r: Option<
    usize,
>)
    ensures
        match r {
            Some(i) => i < answers@.len() && find_answer_from(
                answers@.map_values(|a: ResolverAnswer| a@),
                file@,
                line,
                name@,
                0,
            ) == Some(i as int),
            None => find_answer_from(
                answers@.map_values(|a: ResolverAnswer| a@),
                file@,
                line,
                name@,
                0,
            ) is None,
        },
{
    let ghost av = answers@.map_values(|a: ResolverAnswer| a@);
    let mut i: usize = 0;
    while i < answers.len()
        invariant
            i <= answers.len(),
            av == answers@.map_values(|a: ResolverAnswer| a@),
            av.len() == answers@.len(),
            find_answer_from(av, file@, line, name@, 0) == find_answer_from(
                av,
                file@,
                line,
                name@,
                i as int,
            ),
        decreases answers.len() - i,
    {
        let f_hit = str_eq_str(answers[i].file.as_str(), file);
        let l_hit = answers[i].line == line;
        let n_hit = str_eq_str(answers[i].name.as_str(), name);
        if f_hit && l_hit && n_hit {
            return Some(i);
        }
        i = i + 1;
    }
    None
}

/// Resolves an identifier at a line of `input.files[fi]` through steps
/// (a) same-file symbols, (b) imports, (c) library fallback, exactly as
/// [`resolve_steps_abc`] says.
pub fn resolve_abc(input: &BuildInput, fi: usize, name: &str, line: usize) -> (res: Option<
    (NodeRef, String),
>)
    requires
        fi < input.files@.len(),
    ensures
        match res {
            Some(p) => resolve_steps_abc(input@, input@.files[fi as int], name@, line) == Some(
                (p.0@, p.1@),
            ),
            None => resolve_steps_abc(input@, input@.files[fi as int], name@, line) is None,
        },
{
    let f = &input.files[fi];
    let ghost fv = input@.files[fi as int];
    proof {
        assert(fv == f@);
    }
    // step (a): same-file symbols, nearest declaration
    let from_functions = scan_best(&f.functions, NodeKind::Function, name, line, None);
    let local = scan_best(&f.classes, NodeKind::Class, name, line, from_functions);
    if let Some(p) = local {
        return Some(
            (
                NodeRef { kind: p.0, name: name.to_owned(), file: clone_string(&f.path) },
                "same-file".to_owned(),
            ),
        );
    }
    // step (b): the import table, then the target file's symbols
    let imp = find_import(&f.imports, name);
    if let Some(ii) = imp {
        let source = &f.imports[ii].source;
        proof {
            assert(fv.imports[ii as int] == f.imports@[ii as int]@);
        }
        if let Some(tf) = find_file(&input.files, source.as_str()) {
            let target = &input.files[tf];
            proof {
                assert(input@.files[tf as int] == input.files@[tf as int]@);
            }
            if let Some(ei) = find_ent(&target.functions, name) {
                proof {
                    assert(input@.files[tf as int].functions[ei as int]
                        == target.functions@[ei as int]@);
                }
                return Some(
                    (
                        NodeRef {
                            kind: NodeKind::Function,
                            name: clone_string(&target.functions[ei].name),
                            file: clone_string(&target.path),
                        },
                        "import".to_owned(),
                    ),
                );
            }
            if let Some(ei) = find_ent(&target.classes, name) {
                proof {
                    assert(input@.files[tf as int].classes[ei as int]
                        == target.classes@[ei as int]@);
                }
                return Some(
                    (
                        NodeRef {
                            kind: NodeKind::Class,
                            name: clone_string(&target.classes[ei].name),
                            file: clone_string(&target.path),
                        },
                        "import".to_owned(),
                    ),
                );
            }
        }
    }
    // step (c): the library fallback
    let lib_pos = match imp {
        Some(ii) => find_lib(&input.files, f.imports[ii].source.as_str()),
        None => find_lib(&input.files, name),
    };
    if let Some(pos) = lib_pos {
        let owner = &input.files[pos.0];
        proof {
            assert(input@.files[pos.0 as int] == input.files@[pos.0 as int]@);
            assert(input@.files[pos.0 as int].libs[pos.1 as int] == owner.libs@[pos.1 as int]@);
        }
        return Some(
            (
                NodeRef {
                    kind: NodeKind::Library,
                    name: clone_string(&owner.libs[pos.1]),
                    file: clone_string(&owner.path),
                },
                "library".to_owned(),
            ),
        );
    }
    None
}

/// Resolves one candidate reference of `input.files[fi]` to a target
/// node identity and a confidence label, exactly as [`spec_resolve`]
/// says, or to nothing.
pub fn resolve_ref(input: &BuildInput, fi: usize, r: &RefCand, cfg: &BuildConfig) -> (res: Option<
    (NodeRef, String),
>)
    requires
        fi < input.files@.len(),
    ensures
        match res {
            Some(p) => spec_resolve(input@, input@.files[fi as int], r@, cfg@) == Some(
                (p.0@, p.1@),
            ),
            None => spec_resolve(input@, input@.files[fi as int], r@, cfg@) is None,
        },
{
    let abc = resolve_abc(input, fi, r.name.as_str(), r.line);
    if let Some(p) = abc {
        return Some(p);
    }
    // step (d): the external service, only when enabled
    if !cfg.use_resolver {
        return None;
    }
    let f = &input.files[fi];
    let ghost fv = input@.files[fi as int];
    proof {
        assert(fv == f@);
    }
    if let Some(ai) = find_answer(&cfg.answers, f.path.as_str(), r.line, r.name.as_str()) {
        let ans = &cfg.answers[ai];
        proof {
            assert(cfg@.answers[ai as int] == cfg.answers@[ai as int]@);
        }
        if let Some(tf) = find_file(&input.files, ans.target_file.as_str()) {
            let target = &input.files[tf];
            proof {
                assert(input@.files[tf as int] == input.files@[tf as int]@);
            }
            if let Some(ei) = find_ent_at_line(&target.functions, ans.target_line) {
                proof {
                    assert(input@.files[tf as int].functions[ei as int]
                        == target.functions@[ei as int]@);
                }
                return Some(
                    (
                        NodeRef {
                            kind: NodeKind::Function,
                            name: clone_string(&target.functions[ei].name),
                            file: clone_string(&target.path),
                        },
                        "service".to_owned(),
                    ),
                );
            }
            if let Some(ei) = find_ent_at_line(&target.classes, ans.target_line) {
                proof {
                    assert(input@.files[tf as int].classes[ei as int]
                        == target.classes@[ei as int]@);
                }
                return Some(
                    (
                        NodeRef {
                            kind: NodeKind::Class,
                            name: clone_string(&target.classes[ei].name),
                            file: clone_string(&target.path),
                        },
                        "service".to_owned(),
                    ),
                );
            }
        }
    }
    None
}

} // verus!
