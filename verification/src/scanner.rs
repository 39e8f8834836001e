//! The static scanner's interop-flag check: recognizes, from the
//! ancestor chain alone, the four source idioms that mark a CommonJS
//! module as ES-module-compatible.
//!
//! The outcome is three-valued: `Some(true)` when the idiom sets the
//! flag; `Some(false)` when the idiom's outer shape matched but a
//! sub-shape did not — a non-boolean right-hand side, a malformed
//! descriptor, a wrong callee or defined-property string; and `None`
//! when the chain is not one of the idioms at all — an assignment to
//! some other property means the source is simply about something
//! else. Every lookup is bounds-checked and fails softly to `None`.

use vstd::prelude::*;

use crate::ast::{ArgValue, AstKind, CallArg, MemberCallee, ObjectProp, PropValue};
use crate::diagnostics::{BuildDiagnostic, EventKind};
use crate::module::{
    AstStmt, ExportsKind, ImportItem, ImportKind, ModuleDefFormat, ModuleInput, NamedExport,
    NamedImport, RawImportRecord, StmtInfo, StmtKind, StmtPart,
};
use crate::symbols::{SymbolEntry, SymbolRef};
use crate::util::string_eq_lit;

verus! {

/// Which idiom family the caller is probing: an assignment through
/// `module.exports`, or through a bare `exports` object.
#[derive(Clone, Copy, PartialEq, Eq, Structural, Debug)]
pub enum EsModuleFlagCheckType {
    ModuleExportsAssignment,
    ExportsAssignment,
}

/// True for `{ value: true }`: an object literal of exactly one
/// property, keyed by the static identifier `value`, holding the
/// boolean literal `true`.
pub open spec fn spec_flag_object(v: ArgValue) -> bool {
    &&& v matches ArgValue::Obj(props)
    &&& props@.len() == 1
    &&& props@[0] matches ObjectProp::Property { static_key, value }
    &&& static_key matches Some(k) && k@ == "value"@
    &&& value matches PropValue::Bool(b) && b
}

/// True when the argument is the string literal `"__esModule"`.
pub open spec fn spec_es_module_string(v: ArgValue) -> bool {
    v matches ArgValue::Str(s) && s@ == "__esModule"@
}

/// The nested `Object.defineProperty(module.exports, "__esModule",
/// { value: true })` shape: the visited member expression stands as the
/// first argument of a `defineProperty` call two levels up.
pub open spec fn spec_nested_define(path: Seq<AstKind>, cursor: int, arg_addr: usize) -> Option<
    bool,
> {
    if cursor < 2 {
        None
    } else {
        match path[cursor - 2] {
            AstKind::CallExpression { callee_member, arguments } => match callee_member {
                Some(mc) => match mc.static_property {
                    Some(sp) => {
                        let key_eq_object = mc.object_ident matches Some(o) && o@ == "Object"@;
                        let property_eq = sp@ == "defineProperty"@;
                        if !(key_eq_object && property_eq) {
                            Some(false)
                        } else if arguments@.len() < 1 {
                            None
                        } else if arguments@[0].addr != arg_addr {
                            Some(false)
                        } else if arguments@.len() < 2 {
                            None
                        } else if !spec_es_module_string(arguments@[1].value) {
                            Some(false)
                        } else if arguments@.len() < 3 {
                            None
                        } else if !spec_flag_object(arguments@[2].value) {
                            Some(false)
                        } else {
                            Some(true)
                        }
                    },
                    None => None,
                },
                None => None,
            },
            _ => None,
        }
    }
}

/// The `module.exports.__esModule = <bool>` family: the visited node's
/// parent is the `module.exports` member expression, reached either
/// through a further member expression (plain assignment) or as a call
/// argument (the nested `defineProperty` shape).
pub open spec fn spec_module_exports_assignment(
    path: Seq<AstKind>,
    cursor: int,
    parent_prop: Option<String>,
) -> Option<bool> {
    match parent_prop {
        None => None,
        Some(p) => if p@ != "exports"@ {
            None
        } else if cursor < 1 {
            None
        } else {
            match path[cursor - 1] {
                AstKind::MemberExpression { static_property } => match static_property {
                    None => None,
                    Some(pp) => if pp@ != "__esModule"@ {
                        None
                    } else if cursor < 4 {
                        None
                    } else if !(path[cursor - 2] is SimpleAssignmentTarget) {
                        None
                    } else if !(path[cursor - 3] is AssignmentTarget) {
                        None
                    } else {
                        match path[cursor - 4] {
                            AstKind::AssignmentExpression { right_bool } => match right_bool {
                                Some(b) => Some(b),
                                None => Some(false),
                            },
                            _ => None,
                        }
                    },
                },
                AstKind::Argument { addr } => spec_nested_define(path, cursor, addr),
                _ => None,
            }
        },
    }
}

/// The `exports.__esModule = <bool>` shape: one member level, then the
/// assignment-target chain, then the assignment expression.
pub open spec fn spec_exports_assignment(
    path: Seq<AstKind>,
    cursor: int,
    parent_prop: Option<String>,
) -> Option<bool> {
    match parent_prop {
        None => None,
        Some(p) => if p@ != "__esModule"@ {
            None
        } else if cursor < 3 {
            None
        } else if !(path[cursor - 1] is SimpleAssignmentTarget) {
            None
        } else if !(path[cursor - 2] is AssignmentTarget) {
            None
        } else {
            match path[cursor - 3] {
                AstKind::AssignmentExpression { right_bool } => match right_bool {
                    Some(b) => Some(b),
                    None => Some(false),
                },
                _ => None,
            }
        },
    }
}

/// The bare `Object.defineProperty(exports, "__esModule", {...})`
/// shape: the visited identifier stands as the first argument of the
/// call one level up; the callee is checked last, as the idiom reads.
pub open spec fn spec_bare_define(path: Seq<AstKind>, cursor: int, arg_addr: usize) -> Option<
    bool,
> {
    if cursor < 1 {
        None
    } else {
        match path[cursor - 1] {
            AstKind::CallExpression { callee_member, arguments } => if arguments@.len() < 1 {
                None
            } else if arguments@[0].addr != arg_addr {
                Some(false)
            } else if arguments@.len() < 2 {
                None
            } else if !spec_es_module_string(arguments@[1].value) {
                Some(false)
            } else if arguments@.len() < 3 {
                None
            } else if !spec_flag_object(arguments@[2].value) {
                Some(false)
            } else {
                match callee_member {
                    None => None,
                    Some(mc) => match mc.static_property {
                        None => None,
                        Some(sp) => Some(
                            (mc.object_ident matches Some(o) && o@ == "Object"@) && sp@
                                == "defineProperty"@,
                        ),
                    },
                }
            },
            _ => None,
        }
    }
}

/// What the interop-flag check returns for a given ancestor chain: the
/// whole three-valued outcome, idiom by idiom.
pub open spec fn spec_check_es_module_flag(path: Seq<AstKind>, ty: EsModuleFlagCheckType) -> Option<
    bool,
> {
    if path.len() == 0 {
        None
    } else {
        let cursor = path.len() - 1;
        match path[cursor as int] {
            AstKind::MemberExpression { static_property } => match ty {
                EsModuleFlagCheckType::ModuleExportsAssignment => spec_module_exports_assignment(
                    path,
                    cursor as int,
                    static_property,
                ),
                EsModuleFlagCheckType::ExportsAssignment => spec_exports_assignment(
                    path,
                    cursor as int,
                    static_property,
                ),
            },
            AstKind::Argument { addr } => spec_bare_define(path, cursor as int, addr),
            _ => None,
        }
    }
}

/// One candidate interop-flag site the visitor collected: the ancestor
/// chain at the site and which idiom family it sits in.
#[derive(Clone, PartialEq, Eq, Debug)]
pub struct InteropSite {
    pub chain: Vec<AstKind>,
    pub ty: EsModuleFlagCheckType,
}

/// Decides `{ value: true }` for a call argument.
fn flag_object(v: &ArgValue) -> (r: bool)
        ensures
            r == spec_flag_object(*v),
    {
        match v {
            ArgValue::Obj(props) => {
                if props.len() != 1 {
                    return false;
                }
                match &props[0] {
                    ObjectProp::Property { static_key, value } => {
                        let key_ok = match static_key {
                            Some(k) => string_eq_lit(k, "value"),
                            None => false,
                        };
                        let value_ok = match value {
                            PropValue::Bool(b) => *b,
                            _ => false,
                        };
                        key_ok && value_ok
                    },
                    ObjectProp::Spread => false,
                }
            },
            _ => false,
        }
    }

/// Decides whether the argument is the string literal `"__esModule"`.
fn es_module_string(v: &ArgValue) -> (r: bool)
        ensures
            r == spec_es_module_string(*v),
    {
        match v {
            ArgValue::Str(s) => string_eq_lit(s, "__esModule"),
            _ => false,
        }
    }

/// Runs the interop-flag check against one ancestor chain.
pub fn check_flag_on_path(visit_path: &Vec<AstKind>, ty: &EsModuleFlagCheckType) -> (r: Option<
    bool,
>)
    ensures
        r == spec_check_es_module_flag(visit_path@, *ty),
{
    let len = visit_path.len();
        if len == 0 {
            return None;
        }
        let cursor = len - 1;
        match &visit_path[cursor] {
            AstKind::MemberExpression { static_property } => match ty {
                EsModuleFlagCheckType::ModuleExportsAssignment => {
                    let prop = match static_property {
                        Some(p) => p,
                        None => {
                            return None;
                        },
                    };
                    if !string_eq_lit(prop, "exports") {
                        return None;
                    }
                    if cursor < 1 {
                        return None;
                    }
                    match &visit_path[cursor - 1] {
                        AstKind::MemberExpression { static_property } => {
                            let pp = match static_property {
                                Some(p) => p,
                                None => {
                                    return None;
                                },
                            };
                            if !string_eq_lit(pp, "__esModule") {
                                return None;
                            }
                            if cursor < 4 {
                                return None;
                            }
                            match &visit_path[cursor - 2] {
                                AstKind::SimpleAssignmentTarget => {},
                                _ => {
                                    return None;
                                },
                            }
                            match &visit_path[cursor - 3] {
                                AstKind::AssignmentTarget => {},
                                _ => {
                                    return None;
                                },
                            }
                            match &visit_path[cursor - 4] {
                                AstKind::AssignmentExpression { right_bool } => match right_bool {
                                    Some(b) => Some(*b),
                                    None => Some(false),
                                },
                                _ => None,
                            }
                        },
                        AstKind::Argument { addr } => nested_define(visit_path, cursor, *addr),
                        _ => None,
                    }
                },
                EsModuleFlagCheckType::ExportsAssignment => {
                    let prop = match static_property {
                        Some(p) => p,
                        None => {
                            return None;
                        },
                    };
                    if !string_eq_lit(prop, "__esModule") {
                        return None;
                    }
                    if cursor < 3 {
                        return None;
                    }
                    match &visit_path[cursor - 1] {
                        AstKind::SimpleAssignmentTarget => {},
                        _ => {
                            return None;
                        },
                    }
                    match &visit_path[cursor - 2] {
                        AstKind::AssignmentTarget => {},
                        _ => {
                            return None;
                        },
                    }
                    match &visit_path[cursor - 3] {
                        AstKind::AssignmentExpression { right_bool } => match right_bool {
                            Some(b) => Some(*b),
                            None => Some(false),
                        },
                        _ => None,
                    }
                },
            },
            AstKind::Argument { addr } => {
                let arg_addr = *addr;
                if cursor < 1 {
                    return None;
                }
                match &visit_path[cursor - 1] {
                    AstKind::CallExpression { callee_member, arguments } => {
                        if arguments.len() < 1 {
                            return None;
                        }
                        if arguments[0].addr != arg_addr {
                            return Some(false);
                        }
                        if arguments.len() < 2 {
                            return None;
                        }
                        if !es_module_string(&arguments[1].value) {
                            return Some(false);
                        }
                        if arguments.len() < 3 {
                            return None;
                        }
                        if !flag_object(&arguments[2].value) {
                            return Some(false);
                        }
                        match callee_member {
                            None => None,
                            Some(mc) => match &mc.static_property {
                                None => None,
                                Some(sp) => {
                                    let key_eq_object = match &mc.object_ident {
                                        Some(o) => string_eq_lit(o, "Object"),
                                        None => false,
                                    };
                                    let property_eq = string_eq_lit(sp, "defineProperty");
                                    Some(key_eq_object && property_eq)
                                },
                            },
                        }
                    },
                    _ => None,
                }
            },
            _ => None,
        }
    }

/// The nested `defineProperty` shape, entered when the parent of the
/// visited `module.exports` member is a call argument.
fn nested_define(visit_path: &Vec<AstKind>, cursor: usize, arg_addr: usize) -> (r: Option<bool>)
    requires
        cursor < visit_path@.len(),
    ensures
        r == spec_nested_define(visit_path@, cursor as int, arg_addr),
{
    if cursor < 2 {
        return None;
    }
    match &visit_path[cursor - 2] {
            AstKind::CallExpression { callee_member, arguments } => {
                let mc = match callee_member {
                    Some(mc) => mc,
                    None => {
                        return None;
                    },
                };
                let sp = match &mc.static_property {
                    Some(sp) => sp,
                    None => {
                        return None;
                    },
                };
                let key_eq_object = match &mc.object_ident {
                    Some(o) => string_eq_lit(o, "Object"),
                    None => false,
                };
                let property_eq = string_eq_lit(sp, "defineProperty");
                if !(key_eq_object && property_eq) {
                    return Some(false);
                }
                if arguments.len() < 1 {
                    return None;
                }
                if arguments[0].addr != arg_addr {
                    return Some(false);
                }
                if arguments.len() < 2 {
                    return None;
                }
                if !es_module_string(&arguments[1].value) {
                    return Some(false);
                }
                if arguments.len() < 3 {
                    return None;
                }
                if !flag_object(&arguments[2].value) {
                    return Some(false);
                }
                Some(true)
            },
            _ => None,
    }
}

/// The import records a statement contributes: one for a static
/// import, one for a star re-export, none otherwise.
pub open spec fn spec_record_of(stmt: AstStmt) -> Seq<RawImportRecord> {
    match stmt.kind {
        StmtKind::Import { specifier, items } => seq![
            RawImportRecord {
                specifier: specifier,
                kind: ImportKind::Import,
                asserted_module_type: None,
            },
        ],
        StmtKind::ExportStar { specifier } => seq![
            RawImportRecord {
                specifier: specifier,
                kind: ImportKind::ExportStar,
                asserted_module_type: None,
            },
        ],
        _ => Seq::empty(),
    }
}

/// The import records of the first `n` statements, in order.
pub open spec fn spec_import_records(stmts: Seq<AstStmt>, n: int) -> Seq<RawImportRecord>
    decreases n,
{
    if n <= 0 {
        Seq::empty()
    } else {
        spec_import_records(stmts, n - 1) + spec_record_of(stmts[n - 1])
    }
}

/// The named imports of one import statement's clauses, bound to
/// record `rec`.
pub open spec fn spec_items_imports(idx: usize, items: Seq<ImportItem>, rec: usize, n: int) -> Seq<
    NamedImport,
>
    decreases n,
{
    if n <= 0 {
        Seq::empty()
    } else {
        spec_items_imports(idx, items, rec, n - 1).push(
            NamedImport {
                imported: items[n - 1].imported,
                record_idx: rec,
                local: SymbolRef { module: idx, symbol: items[n - 1].local },
            },
        )
    }
}

/// The named imports of the first `n` statements, in order.
pub open spec fn spec_named_imports(idx: usize, stmts: Seq<AstStmt>, n: int) -> Seq<NamedImport>
    decreases n,
{
    if n <= 0 {
        Seq::empty()
    } else {
        spec_named_imports(idx, stmts, n - 1) + (match stmts[n - 1].kind {
            StmtKind::Import { specifier, items } => spec_items_imports(
                idx,
                items@,
                spec_import_records(stmts, n - 1).len() as usize,
                items@.len() as int,
            ),
            _ => Seq::empty(),
        })
    }
}

/// The exported names one statement contributes; a default export
/// exports the name `default`.
pub open spec fn spec_export_names_of(stmt: AstStmt) -> Seq<Seq<char>> {
    match stmt.kind {
        StmtKind::ExportNamed { items } => Seq::new(items@.len(), |j: int| items@[j].0@),
        StmtKind::ExportDefault { local } => seq!["default"@],
        _ => Seq::empty(),
    }
}

/// The exported names of the first `n` statements, in order.
pub open spec fn spec_export_names(stmts: Seq<AstStmt>, n: int) -> Seq<Seq<char>>
    decreases n,
{
    if n <= 0 {
        Seq::empty()
    } else {
        spec_export_names(stmts, n - 1) + spec_export_names_of(stmts[n - 1])
    }
}

/// The local bindings behind one statement's exports, aligned with
/// `spec_export_names_of`.
pub open spec fn spec_export_refs_of(idx: usize, stmt: AstStmt) -> Seq<SymbolRef> {
    match stmt.kind {
        StmtKind::ExportNamed { items } => Seq::new(
            items@.len(),
            |j: int| SymbolRef { module: idx, symbol: items@[j].1 },
        ),
        StmtKind::ExportDefault { local } => seq![SymbolRef { module: idx, symbol: local }],
        _ => Seq::empty(),
    }
}

/// The export bindings of the first `n` statements, in order.
pub open spec fn spec_export_refs(idx: usize, stmts: Seq<AstStmt>, n: int) -> Seq<SymbolRef>
    decreases n,
{
    if n <= 0 {
        Seq::empty()
    } else {
        spec_export_refs(idx, stmts, n - 1) + spec_export_refs_of(idx, stmts[n - 1])
    }
}

/// Whether a statement carries its own side effects into the output:
/// import and export wiring does not, its removal is semantic-free.
pub open spec fn spec_stmt_side_effects(stmt: AstStmt) -> bool {
    match stmt.kind {
        StmtKind::Import { .. } => false,
        StmtKind::ExportStar { .. } => false,
        StmtKind::ExportNamed { .. } => false,
        _ => stmt.side_effects,
    }
}

/// The bindings a statement declares.
pub open spec fn spec_declared_of(idx: usize, stmt: AstStmt) -> Seq<SymbolRef> {
    match stmt.kind {
        StmtKind::Import { specifier, items } => Seq::new(
            items@.len(),
            |j: int| SymbolRef { module: idx, symbol: items@[j].local },
        ),
        StmtKind::ExportDefault { local } => seq![SymbolRef { module: idx, symbol: local }],
        StmtKind::Decl { declared } => Seq::new(
            declared@.len(),
            |j: int| SymbolRef { module: idx, symbol: declared@[j] },
        ),
        _ => Seq::empty(),
    }
}

/// The binding references among the first `n` body parts.
pub open spec fn spec_part_refs(idx: usize, parts: Seq<StmtPart>, n: int) -> Seq<SymbolRef>
    decreases n,
{
    if n <= 0 {
        Seq::empty()
    } else {
        spec_part_refs(idx, parts, n - 1) + (match parts[n - 1] {
            StmtPart::Sym(l) => seq![SymbolRef { module: idx, symbol: l }],
            _ => Seq::empty(),
        })
    }
}

/// The bindings a statement references: those in its body, then those
/// its export clauses name.
pub open spec fn spec_referenced_of(idx: usize, stmt: AstStmt) -> Seq<SymbolRef> {
    spec_part_refs(idx, stmt.parts@, stmt.parts@.len() as int) + (match stmt.kind {
        StmtKind::ExportNamed { items } => Seq::new(
            items@.len(),
            |j: int| SymbolRef { module: idx, symbol: items@[j].1 },
        ),
        StmtKind::ExportDefault { local } => seq![SymbolRef { module: idx, symbol: local }],
        _ => Seq::empty(),
    })
}

/// Every local-binding id a statement mentions stays below `n`.
pub open spec fn spec_stmt_ids_valid(stmt: AstStmt, n: nat) -> bool {
    &&& forall|j: int|
        0 <= j < stmt.parts@.len() ==> match #[trigger] stmt.parts@[j] {
            StmtPart::Sym(l) => l < n,
            _ => true,
        }
    &&& match stmt.kind {
        StmtKind::Import { specifier, items } => forall|j: int|
            0 <= j < items@.len() ==> (#[trigger] items@[j]).local < n,
        StmtKind::ExportNamed { items } => forall|j: int|
            0 <= j < items@.len() ==> (#[trigger] items@[j]).1 < n,
        StmtKind::ExportDefault { local } => local < n,
        StmtKind::Decl { declared } => forall|j: int|
            0 <= j < declared@.len() ==> (#[trigger] declared@[j]) < n,
        _ => true,
    }
}

/// The parser's statements mention only bindings its scope analysis
/// produced.
pub open spec fn spec_input_ids_valid(input: ModuleInput) -> bool {
    forall|i: int|
        0 <= i < input.stmts@.len() ==> spec_stmt_ids_valid(
            #[trigger] input.stmts@[i],
            input.local_names@.len(),
        )
}

/// A well-formed module input: bindings in range and no exported name
/// claimed twice.
pub open spec fn spec_input_valid(input: ModuleInput) -> bool {
    &&& spec_input_ids_valid(input)
    &&& spec_export_names(input.stmts@, input.stmts@.len() as int).no_duplicates()
}

/// What one collected site decides.
pub open spec fn spec_site_result(site: InteropSite) -> Option<bool> {
    spec_check_es_module_flag(site.chain@, site.ty)
}

/// Some site decides `Some(v)`.
pub open spec fn spec_any_site(sites: Seq<InteropSite>, v: bool) -> bool {
    exists|i: int| 0 <= i < sites.len() && spec_site_result(#[trigger] sites[i]) == Some(v)
}

/// The module's combined interop flag: affirmed if any site affirms
/// it, denied if some site matched without affirming, unknown
/// otherwise.
pub open spec fn spec_flag_of_sites(sites: Seq<InteropSite>) -> Option<bool> {
    if spec_any_site(sites, true) {
        Some(true)
    } else if spec_any_site(sites, false) {
        Some(false)
    } else {
        None
    }
}

/// Sites disagree: the flag is affirmed somewhere and denied
/// elsewhere. Downgraded to a warning, never an error.
pub open spec fn spec_flag_ambiguous(sites: Seq<InteropSite>) -> bool {
    spec_any_site(sites, true) && spec_any_site(sites, false)
}

/// True when some statement is export syntax.
pub open spec fn spec_has_export_stmt(stmts: Seq<AstStmt>) -> bool {
    exists|i: int|
        0 <= i < stmts.len() && match (#[trigger] stmts[i]).kind {
            StmtKind::ExportNamed { .. } => true,
            StmtKind::ExportStar { .. } => true,
            StmtKind::ExportDefault { .. } => true,
            _ => false,
        }
}

/// True when some statement is a star re-export.
pub open spec fn spec_has_star_export(stmts: Seq<AstStmt>) -> bool {
    exists|i: int|
        0 <= i < stmts.len() && (#[trigger] stmts[i]).kind matches StmtKind::ExportStar { .. }
}

/// True when some statement is a static import.
pub open spec fn spec_has_import_stmt(stmts: Seq<AstStmt>) -> bool {
    exists|i: int|
        0 <= i < stmts.len() && (#[trigger] stmts[i]).kind matches StmtKind::Import { .. }
}

/// The detected export discipline: export syntax makes a module ESM;
/// otherwise an interop marker or a CommonJS file format makes it
/// CommonJS; otherwise import syntax or an ESM file format still
/// makes it ESM, and what remains exports nothing.
pub open spec fn spec_exports_kind(
    stmts: Seq<AstStmt>,
    def_format: ModuleDefFormat,
    flag: Option<bool>,
) -> ExportsKind {
    if spec_has_export_stmt(stmts) {
        ExportsKind::Esm
    } else if flag is Some || def_format == ModuleDefFormat::Cjs {
        ExportsKind::CommonJs
    } else if spec_has_import_stmt(stmts) || def_format == ModuleDefFormat::EsmMjs {
        ExportsKind::Esm
    } else {
        ExportsKind::NoExports
    }
}

/// The first default export among the first `n` statements.
pub open spec fn spec_default_export(idx: usize, stmts: Seq<AstStmt>, n: int) -> Option<SymbolRef>
    decreases n,
{
    if n <= 0 {
        None
    } else {
        match spec_default_export(idx, stmts, n - 1) {
            Some(r) => Some(r),
            None => match stmts[n - 1].kind {
                StmtKind::ExportDefault { local } => Some(SymbolRef { module: idx, symbol: local }),
                _ => None,
            },
        }
    }
}

/// The AST scanner's sole output: everything the loader needs to build
/// a normal module, plus the diagnostics the scan raised.
pub struct ScanResult {
    pub named_imports: Vec<NamedImport>,
    pub named_exports: Vec<NamedExport>,
    pub stmt_infos: Vec<StmtInfo>,
    pub default_export_ref: Option<SymbolRef>,
    pub import_records: Vec<RawImportRecord>,
    pub exports_kind: ExportsKind,
    pub es_module_flag: Option<bool>,
    pub warnings: Vec<BuildDiagnostic>,
    pub errors: Vec<BuildDiagnostic>,
    pub has_eval: bool,
    pub has_star_exports: bool,
    pub symbols: Vec<SymbolEntry>,
    pub namespace_object_ref: SymbolRef,
}

/// The per-module static scanner: the module it works for and the
/// ancestor chain of the node currently being visited, root first.
pub struct AstScanner {
    pub idx: usize,
    pub visit_path: Vec<AstKind>,
}

impl AstScanner {
    /// A scanner for module `idx` visiting along `visit_path`.
    pub fn new(idx: usize, visit_path: Vec<AstKind>) -> (r: AstScanner)
        ensures
            r.idx == idx,
            r.visit_path == visit_path,
    {
        AstScanner { idx, visit_path }
    }

    /// Runs the interop-flag check against the current ancestor chain.
    ///
    /// Returns `Some(true)` when the idiom affirmatively sets the
    /// flag, `Some(false)` when the idiom is present but mismatched or
    /// sets it false, and `None` when the chain is not one of the
    /// idioms; a caller must infer nothing from `None`.
    pub fn check_es_module_flag(&self, ty: &EsModuleFlagCheckType) -> (r: Option<bool>)
        ensures
            r == spec_check_es_module_flag(self.visit_path@, *ty),
    {
        check_flag_on_path(&self.visit_path, ty)
    }
}


/// Copies one import-clause name, preserving its value.
fn clone_import_name(x: &crate::module::ImportName) -> (r: crate::module::ImportName)
    ensures
        r == *x,
{
    match x {
        crate::module::ImportName::Name(s) => crate::module::ImportName::Name(s.clone()),
        crate::module::ImportName::Default => crate::module::ImportName::Default,
        crate::module::ImportName::Namespace => crate::module::ImportName::Namespace,
    }
}

/// Collects the bindings a statement declares.
fn build_declared(idx: usize, stmt: &AstStmt) -> (r: Vec<SymbolRef>)
    ensures
        r@ == spec_declared_of(idx, *stmt),
{
    let mut out: Vec<SymbolRef> = Vec::new();
    match &stmt.kind {
        StmtKind::Import { specifier, items } => {
            let mut j: usize = 0;
            while j < items.len()
                invariant
                    j <= items@.len(),
                    out@ =~= Seq::new(
                        j as nat,
                        |jj: int| SymbolRef { module: idx, symbol: items@[jj].local },
                    ),
                decreases items@.len() - j,
            {
                out.push(SymbolRef { module: idx, symbol: items[j].local });
                j += 1;
            }
            proof {
                assert(out@ =~= spec_declared_of(idx, *stmt));
            }
        },
        StmtKind::ExportDefault { local } => {
            out.push(SymbolRef { module: idx, symbol: *local });
            proof {
                assert(out@ =~= spec_declared_of(idx, *stmt));
            }
        },
        StmtKind::Decl { declared } => {
            let mut j: usize = 0;
            while j < declared.len()
                invariant
                    j <= declared@.len(),
                    out@ =~= Seq::new(
                        j as nat,
                        |jj: int| SymbolRef { module: idx, symbol: declared@[jj] },
                    ),
                decreases declared@.len() - j,
            {
                out.push(SymbolRef { module: idx, symbol: declared[j] });
                j += 1;
            }
            proof {
                assert(out@ =~= spec_declared_of(idx, *stmt));
            }
        },
        _ => {
            proof {
                assert(out@ =~= spec_declared_of(idx, *stmt));
            }
        },
    }
    out
}

/// Collects the bindings a statement references.
fn build_referenced(idx: usize, stmt: &AstStmt) -> (r: Vec<SymbolRef>)
    ensures
        r@ == spec_referenced_of(idx, *stmt),
{
    let mut out: Vec<SymbolRef> = Vec::new();
    let mut k: usize = 0;
    while k < stmt.parts.len()
        invariant
            k <= stmt.parts@.len(),
            out@ == spec_part_refs(idx, stmt.parts@, k as int),
        decreases stmt.parts@.len() - k,
    {
        match &stmt.parts[k] {
            StmtPart::Sym(l) => {
                out.push(SymbolRef { module: idx, symbol: *l });
            },
            _ => {},
        }
        k += 1;
    }
    let ghost base = spec_part_refs(idx, stmt.parts@, stmt.parts@.len() as int);
    match &stmt.kind {
        StmtKind::ExportNamed { items } => {
            let mut j: usize = 0;
            while j < items.len()
                invariant
                    j <= items@.len(),
                    out@ =~= base + Seq::new(
                        j as nat,
                        |jj: int| SymbolRef { module: idx, symbol: items@[jj].1 },
                    ),
                decreases items@.len() - j,
            {
                out.push(SymbolRef { module: idx, symbol: items[j].1 });
                j += 1;
            }
            proof {
                assert(out@ =~= spec_referenced_of(idx, *stmt));
            }
        },
        StmtKind::ExportDefault { local } => {
            out.push(SymbolRef { module: idx, symbol: *local });
            proof {
                assert(out@ =~= spec_referenced_of(idx, *stmt));
            }
        },
        _ => {
            proof {
                assert(out@ =~= spec_referenced_of(idx, *stmt));
            }
        },
    }
    out
}

/// Decides `spec_stmt_ids_valid` for one statement.
#[verifier::loop_isolation(false)]
fn stmt_ids_valid(stmt: &AstStmt, n: usize) -> (r: bool)
    ensures
        r == spec_stmt_ids_valid(*stmt, n as nat),
{
    let mut k: usize = 0;
    while k < stmt.parts.len()
        invariant
            k <= stmt.parts@.len(),
            forall|j: int|
                0 <= j < k ==> match #[trigger] stmt.parts@[j] {
                    StmtPart::Sym(l) => l < n,
                    _ => true,
                },
        decreases stmt.parts@.len() - k,
    {
        match &stmt.parts[k] {
            StmtPart::Sym(l) => {
                if *l >= n {
                    return false;
                }
            },
            _ => {},
        }
        k += 1;
    }
    match &stmt.kind {
        StmtKind::Import { specifier, items } => {
            let mut j: usize = 0;
            while j < items.len()
                invariant
                    j <= items@.len(),
                    forall|jj: int| 0 <= jj < j ==> (#[trigger] items@[jj]).local < n,
                decreases items@.len() - j,
            {
                if items[j].local >= n {
                    return false;
                }
                j += 1;
            }
            true
        },
        StmtKind::ExportNamed { items } => {
            let mut j: usize = 0;
            while j < items.len()
                invariant
                    j <= items@.len(),
                    forall|jj: int| 0 <= jj < j ==> (#[trigger] items@[jj]).1 < n,
                decreases items@.len() - j,
            {
                if items[j].1 >= n {
                    return false;
                }
                j += 1;
            }
            true
        },
        StmtKind::ExportDefault { local } => *local < n,
        StmtKind::Decl { declared } => {
            let mut j: usize = 0;
            while j < declared.len()
                invariant
                    j <= declared@.len(),
                    forall|jj: int| 0 <= jj < j ==> (#[trigger] declared@[jj]) < n,
                decreases declared@.len() - j,
            {
                if declared[j] >= n {
                    return false;
                }
                j += 1;
            }
            true
        },
        _ => true,
    }
}


/// True when two of the exported names coincide.
fn has_dup_exports(v: &Vec<NamedExport>) -> (r: bool)
    ensures
        r == !Seq::new(v@.len(), |i: int| v@[i].exported@).no_duplicates(),
{
    let ghost names = Seq::new(v@.len(), |i: int| v@[i].exported@);
    let mut j: usize = 1;
    while j < v.len()
        invariant
            1 <= j,
            j <= v@.len() || v@.len() == 0,
            names == Seq::new(v@.len(), |i: int| v@[i].exported@),
            forall|a: int, b: int| 0 <= a < b < j && b < names.len() ==> names[a] != names[b],
        decreases v@.len() - j,
    {
        let mut i: usize = 0;
        while i < j
            invariant
                j < v@.len(),
                names == Seq::new(v@.len(), |i: int| v@[i].exported@),
                i <= j,
                forall|a: int, b: int| 0 <= a < b < j && b < names.len() ==> names[a] != names[b],
                forall|a: int| 0 <= a < i ==> names[a] != names[j as int],
            decreases j - i,
        {
            if v[i].exported.eq(&v[j].exported) {
                proof {
                    assert(names[i as int] == names[j as int]);
                    assert(!names.no_duplicates());
                }
                return true;
            }
            i += 1;
        }
        j += 1;
    }
    proof {
        assert(names.no_duplicates());
    }
    false
}

/// Scans one pre-parsed module: derives its import records, named
/// imports and exports, per-statement linking metadata, export
/// discipline and interop flag, and the local symbol entries,
/// including the appended namespace binding.
///
/// The scan is a pure function of its arguments: no I/O, safe on any
/// thread. It succeeds exactly on well-formed inputs; a binding id
/// out of range or a doubly-claimed export name is reported as a
/// parse-class diagnostic, and disagreeing interop sites are
/// downgraded to one ambiguity warning.
#[verifier::loop_isolation(false)]
pub fn scan_module(
    idx: usize,
    repr_name: &String,
    def_format: ModuleDefFormat,
    input: &ModuleInput,
) -> (r: ScanResult)
    ensures
        r.import_records@ == spec_import_records(input.stmts@, input.stmts@.len() as int),
        r.named_imports@ == spec_named_imports(idx, input.stmts@, input.stmts@.len() as int),
        r.named_exports@.len() == spec_export_names(input.stmts@, input.stmts@.len() as int).len(),
        forall|i: int|
            0 <= i < r.named_exports@.len() ==> (#[trigger] r.named_exports@[i]).exported@
                == spec_export_names(input.stmts@, input.stmts@.len() as int)[i]
                && r.named_exports@[i].referenced == spec_export_refs(
                idx,
                input.stmts@,
                input.stmts@.len() as int,
            )[i],
        r.stmt_infos@.len() == input.stmts@.len(),
        forall|i: int|
            0 <= i < input.stmts@.len() ==> {
                &&& (#[trigger] r.stmt_infos@[i]).side_effects == spec_stmt_side_effects(
                    input.stmts@[i],
                )
                &&& r.stmt_infos@[i].declared@ == spec_declared_of(idx, input.stmts@[i])
                &&& r.stmt_infos@[i].referenced@ == spec_referenced_of(idx, input.stmts@[i])
            },
        r.default_export_ref == spec_default_export(idx, input.stmts@, input.stmts@.len() as int),
        r.es_module_flag == spec_flag_of_sites(input.interop_sites@),
        r.exports_kind == spec_exports_kind(
            input.stmts@,
            def_format,
            spec_flag_of_sites(input.interop_sites@),
        ),
        r.has_eval == input.has_eval,
        r.has_star_exports == spec_has_star_export(input.stmts@),
        r.symbols@.len() == input.local_names@.len() + 1,
        forall|i: int|
            0 <= i < input.local_names@.len() ==> (#[trigger] r.symbols@[i]).name
                == input.local_names@[i] && r.symbols@[i].link is None,
        r.symbols@[input.local_names@.len() as int].link is None,
        r.symbols@[input.local_names@.len() as int].name@ == repr_name@ + "_ns"@,
        r.namespace_object_ref == (SymbolRef {
            module: idx,
            symbol: input.local_names@.len() as usize,
        }),
        (r.errors@.len() == 0) == spec_input_valid(*input),
        forall|i: int|
            0 <= i < r.errors@.len() ==> (#[trigger] r.errors@[i]).kind == EventKind::ParseError,
        r.warnings@.len() == (if spec_flag_ambiguous(input.interop_sites@) {
            1int
        } else {
            0
        }),
        forall|i: int|
            0 <= i < r.warnings@.len() ==> (#[trigger] r.warnings@[i]).kind
                == EventKind::InteropAmbiguity,
{
    let n_stmts = input.stmts.len();
    let n_locals = input.local_names.len();

    // interop-flag sites
    let mut any_true = false;
    let mut any_false = false;
    let mut si: usize = 0;
    while si < input.interop_sites.len()
        invariant
            si <= input.interop_sites@.len(),
            any_true == exists|i: int|
                0 <= i < si && spec_site_result(#[trigger] input.interop_sites@[i]) == Some(true),
            any_false == exists|i: int|
                0 <= i < si && spec_site_result(#[trigger] input.interop_sites@[i]) == Some(false),
        decreases input.interop_sites@.len() - si,
    {
        let site = &input.interop_sites[si];
        match check_flag_on_path(&site.chain, &site.ty) {
            Some(true) => {
                any_true = true;
            },
            Some(false) => {
                any_false = true;
            },
            None => {},
        }
        si += 1;
    }
    let es_module_flag = if any_true {
        Some(true)
    } else if any_false {
        Some(false)
    } else {
        None
    };
    let mut warnings: Vec<BuildDiagnostic> = Vec::new();
    if any_true && any_false {
        warnings.push(
            BuildDiagnostic::new(
                EventKind::InteropAmbiguity,
                String::from_str("interop sites disagree about the module flag"),
            ),
        );
    }

    // binding ids in range
    let mut ids_ok = true;
    let mut vi: usize = 0;
    while vi < n_stmts
        invariant
            vi <= n_stmts,
            ids_ok == forall|i: int|
                0 <= i < vi ==> spec_stmt_ids_valid(#[trigger] input.stmts@[i], n_locals as nat),
        decreases n_stmts - vi,
    {
        if !stmt_ids_valid(&input.stmts[vi], n_locals) {
            ids_ok = false;
        }
        vi += 1;
    }

    // the single pass over the statements
    let mut import_records: Vec<RawImportRecord> = Vec::new();
    let mut named_imports: Vec<NamedImport> = Vec::new();
    let mut named_exports: Vec<NamedExport> = Vec::new();
    let mut stmt_infos: Vec<StmtInfo> = Vec::new();
    let mut default_export_ref: Option<SymbolRef> = None;
    let mut has_star_exports = false;
    let mut has_export_stmt = false;
    let mut has_import_stmt = false;
    let mut i: usize = 0;
    while i < n_stmts
        invariant
            i <= n_stmts,
            import_records@ == spec_import_records(input.stmts@, i as int),
            named_imports@ == spec_named_imports(idx, input.stmts@, i as int),
            named_exports@.len() == spec_export_names(input.stmts@, i as int).len(),
            spec_export_names(input.stmts@, i as int).len() == spec_export_refs(
                idx,
                input.stmts@,
                i as int,
            ).len(),
            forall|k: int|
                0 <= k < named_exports@.len() ==> (#[trigger] named_exports@[k]).exported@
                    == spec_export_names(input.stmts@, i as int)[k] && named_exports@[k].referenced
                    == spec_export_refs(idx, input.stmts@, i as int)[k],
            stmt_infos@.len() == i,
            forall|k: int|
                0 <= k < i ==> {
                    &&& (#[trigger] stmt_infos@[k]).side_effects == spec_stmt_side_effects(
                        input.stmts@[k],
                    )
                    &&& stmt_infos@[k].declared@ == spec_declared_of(idx, input.stmts@[k])
                    &&& stmt_infos@[k].referenced@ == spec_referenced_of(idx, input.stmts@[k])
                },
            default_export_ref == spec_default_export(idx, input.stmts@, i as int),
            has_star_exports == exists|k: int|
                0 <= k < i && (#[trigger] input.stmts@[k]).kind matches StmtKind::ExportStar {
                    ..
                },
            has_export_stmt == exists|k: int|
                0 <= k < i && match (#[trigger] input.stmts@[k]).kind {
                    StmtKind::ExportNamed { .. } => true,
                    StmtKind::ExportStar { .. } => true,
                    StmtKind::ExportDefault { .. } => true,
                    _ => false,
                },
            has_import_stmt == exists|k: int|
                0 <= k < i && (#[trigger] input.stmts@[k]).kind matches StmtKind::Import { .. },
        decreases n_stmts - i,
    {
        let stmt = &input.stmts[i];
        let declared = build_declared(idx, stmt);
        let referenced = build_referenced(idx, stmt);
        let se = match &stmt.kind {
            StmtKind::Import { .. } => false,
            StmtKind::ExportStar { .. } => false,
            StmtKind::ExportNamed { .. } => false,
            _ => stmt.side_effects,
        };
        stmt_infos.push(StmtInfo { side_effects: se, declared, referenced });
        match &stmt.kind {
            StmtKind::Import { specifier, items } => {
                let rec = import_records.len();
                import_records.push(
                    RawImportRecord {
                        specifier: specifier.clone(),
                        kind: ImportKind::Import,
                        asserted_module_type: None,
                    },
                );
                let mut j: usize = 0;
                while j < items.len()
                    invariant
                        j <= items@.len(),
                        named_imports@ == spec_named_imports(idx, input.stmts@, i as int)
                            + spec_items_imports(idx, items@, rec, j as int),
                    decreases items@.len() - j,
                {
                    named_imports.push(
                        NamedImport {
                            imported: clone_import_name(&items[j].imported),
                            record_idx: rec,
                            local: SymbolRef { module: idx, symbol: items[j].local },
                        },
                    );
                    j += 1;
                }
                has_import_stmt = true;
                proof {
                    assert(spec_record_of(input.stmts@[i as int]).len() == 1);
                    assert(import_records@ =~= spec_import_records(input.stmts@, i + 1));
                    assert(named_imports@ =~= spec_named_imports(idx, input.stmts@, i + 1));
                }
            },
            StmtKind::ExportStar { specifier } => {
                import_records.push(
                    RawImportRecord {
                        specifier: specifier.clone(),
                        kind: ImportKind::ExportStar,
                        asserted_module_type: None,
                    },
                );
                has_star_exports = true;
                has_export_stmt = true;
                proof {
                    assert(import_records@ =~= spec_import_records(input.stmts@, i + 1));
                    assert(named_imports@ =~= spec_named_imports(idx, input.stmts@, i + 1));
                }
            },
            StmtKind::ExportNamed { items } => {
                let ghost pre_names = Seq::new(
                    named_exports@.len(),
                    |k: int| named_exports@[k].exported@,
                );
                let mut j: usize = 0;
                while j < items.len()
                    invariant
                        j <= items@.len(),
                        named_exports@.len() == spec_export_names(input.stmts@, i as int).len()
                            + j,
                        forall|k: int|
                            0 <= k < named_exports@.len() ==> (
                            #[trigger] named_exports@[k]).exported@ == (spec_export_names(
                                input.stmts@,
                                i as int,
                            ) + spec_export_names_of(input.stmts@[i as int]))[k]
                                && named_exports@[k].referenced == (spec_export_refs(
                                idx,
                                input.stmts@,
                                i as int,
                            ) + spec_export_refs_of(idx, input.stmts@[i as int]))[k],
                    decreases items@.len() - j,
                {
                    named_exports.push(
                        NamedExport {
                            exported: items[j].0.clone(),
                            referenced: SymbolRef { module: idx, symbol: items[j].1 },
                        },
                    );
                    j += 1;
                }
                has_export_stmt = true;
            },
            StmtKind::ExportDefault { local } => {
                named_exports.push(
                    NamedExport {
                        exported: String::from_str("default"),
                        referenced: SymbolRef { module: idx, symbol: *local },
                    },
                );
                if default_export_ref.is_none() {
                    default_export_ref = Some(SymbolRef { module: idx, symbol: *local });
                }
                has_export_stmt = true;
                proof {
                    assert(import_records@ =~= spec_import_records(input.stmts@, i + 1));
                    assert(named_imports@ =~= spec_named_imports(idx, input.stmts@, i + 1));
                }
            },
            _ => {
                proof {
                    assert(import_records@ =~= spec_import_records(input.stmts@, i + 1));
                    assert(named_imports@ =~= spec_named_imports(idx, input.stmts@, i + 1));
                }
            },
        }
        i += 1;
    }

    // exported-name uniqueness
    let dup = has_dup_exports(&named_exports);
    proof {
        let full_names = spec_export_names(input.stmts@, n_stmts as int);
        let built = Seq::new(named_exports@.len(), |k: int| named_exports@[k].exported@);
        assert(built =~= full_names);
    }

    let mut errors: Vec<BuildDiagnostic> = Vec::new();
    if !ids_ok {
        errors.push(
            BuildDiagnostic::new(
                EventKind::ParseError,
                String::from_str("statement names a binding outside the local symbol table"),
            ),
        );
    }
    if dup {
        errors.push(
            BuildDiagnostic::new(
                EventKind::ParseError,
                String::from_str("module exports the same name twice"),
            ),
        );
    }

    // local symbol entries, then the namespace binding
    let mut symbols: Vec<SymbolEntry> = Vec::new();
    let mut li: usize = 0;
    while li < n_locals
        invariant
            li <= n_locals,
            symbols@.len() == li,
            forall|k: int|
                0 <= k < li ==> (#[trigger] symbols@[k]).name == input.local_names@[k]
                    && symbols@[k].link is None,
        decreases n_locals - li,
    {
        symbols.push(SymbolEntry { name: input.local_names[li].clone(), link: None });
        li += 1;
    }
    let mut ns_name = repr_name.clone();
    ns_name.append("_ns");
    symbols.push(SymbolEntry { name: ns_name, link: None });
    let namespace_object_ref = SymbolRef { module: idx, symbol: n_locals };

    let exports_kind = if has_export_stmt {
        ExportsKind::Esm
    } else if any_true || any_false || (match def_format {
        ModuleDefFormat::Cjs => true,
        _ => false,
    }) {
        ExportsKind::CommonJs
    } else if has_import_stmt || (match def_format {
        ModuleDefFormat::EsmMjs => true,
        _ => false,
    }) {
        ExportsKind::Esm
    } else {
        ExportsKind::NoExports
    };

    ScanResult {
        named_imports,
        named_exports,
        stmt_infos,
        default_export_ref,
        import_records,
        exports_kind,
        es_module_flag,
        warnings,
        errors,
        has_eval: input.has_eval,
        has_star_exports,
        symbols,
        namespace_object_ref,
    }
}


/// Re-scanning a module whose content has not changed yields the same
/// analysis: every projection of the scan result is a function of the
/// module input alone, so two results for one input agree. This is the
/// per-module half of build determinism; the loader adds no
/// nondeterminism of its own, since it consumes one message at a time
/// and resolution is a pure table lookup.
pub proof fn lemma_scan_deterministic(
    a: &ScanResult,
    b: &ScanResult,
    idx: usize,
    def_format: ModuleDefFormat,
    input: &ModuleInput,
)
    requires
        a.import_records@ == spec_import_records(input.stmts@, input.stmts@.len() as int),
        b.import_records@ == spec_import_records(input.stmts@, input.stmts@.len() as int),
        a.named_imports@ == spec_named_imports(idx, input.stmts@, input.stmts@.len() as int),
        b.named_imports@ == spec_named_imports(idx, input.stmts@, input.stmts@.len() as int),
        a.exports_kind == spec_exports_kind(
            input.stmts@,
            def_format,
            spec_flag_of_sites(input.interop_sites@),
        ),
        b.exports_kind == spec_exports_kind(
            input.stmts@,
            def_format,
            spec_flag_of_sites(input.interop_sites@),
        ),
        a.default_export_ref == spec_default_export(idx, input.stmts@, input.stmts@.len() as int),
        b.default_export_ref == spec_default_export(idx, input.stmts@, input.stmts@.len() as int),
        a.es_module_flag == spec_flag_of_sites(input.interop_sites@),
        b.es_module_flag == spec_flag_of_sites(input.interop_sites@),
        a.has_star_exports == spec_has_star_export(input.stmts@),
        b.has_star_exports == spec_has_star_export(input.stmts@),
    ensures
        a.import_records@ == b.import_records@,
        a.named_imports@ == b.named_imports@,
        a.exports_kind == b.exports_kind,
        a.default_export_ref == b.default_export_ref,
        a.es_module_flag == b.es_module_flag,
        a.has_star_exports == b.has_star_exports,
{
}

} // verus!
