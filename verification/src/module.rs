//! The data model of one build: modules (normal and external), their
//! statements, import records, export tables, and the module table
//! that owns them all.
//!
//! A module's syntax tree arrives pre-parsed: the external parser
//! collaborator hands the loader plain statements whose bodies are
//! text runs interleaved with local-binding references. Re-export
//! sugar (`export { x } from "m"`) arrives desugared into an import
//! and a plain named export.

use vstd::prelude::*;

use crate::symbols::SymbolRef;


verus! {

/// A side-effect verdict supplied by configuration or a plugin hook.
#[derive(Clone, Copy, PartialEq, Eq, Structural, Debug)]
pub enum HookSideEffects {
    True,
    False,
    NoTreeshake,
}

/// A module's final side-effect determination.
#[derive(Clone, Copy, PartialEq, Eq, Structural, Debug)]
pub enum DeterminedSideEffects {
    /// Derived from the statement scan.
    Analyzed(bool),
    /// Declared by configuration or a plugin hook.
    UserDefined(bool),
    /// Tree-shaking opted out entirely.
    NoTreeshake,
}

impl DeterminedSideEffects {
    /// Whether the module must be treated as side-effecting.
    pub open spec fn spec_has_side_effects(self) -> bool {
        match self {
            DeterminedSideEffects::Analyzed(b) => b,
            DeterminedSideEffects::UserDefined(b) => b,
            DeterminedSideEffects::NoTreeshake => true,
        }
    }

    /// Whether the module must be treated as side-effecting.
    pub fn has_side_effects(&self) -> (r: bool)
        ensures
            r == self.spec_has_side_effects(),
    {
        match self {
            DeterminedSideEffects::Analyzed(b) => *b,
            DeterminedSideEffects::UserDefined(b) => *b,
            DeterminedSideEffects::NoTreeshake => true,
        }
    }
}

/// How the module's file declares its format, before any scan.
#[derive(Clone, Copy, PartialEq, Eq, Structural, Debug)]
pub enum ModuleDefFormat {
    Unknown,
    EsmMjs,
    Cjs,
}

/// The content type of a module.
#[derive(Clone, Copy, PartialEq, Eq, Structural, Debug)]
pub enum ModuleType {
    Js,
    Json,
}

/// What the resolver collaborator returns for one specifier.
#[derive(Clone, PartialEq, Eq, Debug)]
pub struct ResolvedId {
    pub id: String,
    pub ignored: bool,
    pub module_def_format: ModuleDefFormat,
    pub is_external: bool,
    pub side_effects: Option<HookSideEffects>,
    pub is_external_without_side_effects: bool,
}

impl ResolvedId {
    /// The resolution of a bare external dependency that is known to
    /// carry no side effects, as used for the runtime module's own
    /// imports.
    pub fn new_external_without_side_effects(id: String) -> (r: ResolvedId)
        ensures
            r.id == id,
            r.is_external,
            r.is_external_without_side_effects,
            r.side_effects is None,
            !r.ignored,
    {
        ResolvedId {
            id,
            ignored: false,
            module_def_format: ModuleDefFormat::Unknown,
            is_external: true,
            side_effects: None,
            is_external_without_side_effects: true,
        }
    }
}

/// The export discipline a module was found to follow.
#[derive(Clone, Copy, PartialEq, Eq, Structural, Debug)]
pub enum ExportsKind {
    Esm,
    CommonJs,
    NoExports,
}

/// How an import record entered the source.
#[derive(Clone, Copy, PartialEq, Eq, Structural, Debug)]
pub enum ImportKind {
    /// A static `import` declaration.
    Import,
    /// An `export * from` declaration.
    ExportStar,
}

/// Which binding of the target module an import names.
#[derive(Clone, PartialEq, Eq, Debug)]
pub enum ImportName {
    Name(String),
    Default,
    Namespace,
}

/// One clause of an import declaration: the imported binding and the
/// local symbol it binds to.
#[derive(Clone, PartialEq, Eq, Debug)]
pub struct ImportItem {
    pub imported: ImportName,
    pub local: usize,
}

/// A run of a statement's rendered body: literal text, or a reference
/// to a local binding that the finalizer renders under its canonical
/// display name.
#[derive(Clone, PartialEq, Eq, Debug)]
pub enum StmtPart {
    Text(String),
    Sym(usize),
}

/// The statement kinds the bundler distinguishes.
#[derive(Clone, PartialEq, Eq, Debug)]
pub enum StmtKind {
    /// `import ... from "specifier"`.
    Import { specifier: String, items: Vec<ImportItem> },
    /// `export * from "specifier"`.
    ExportStar { specifier: String },
    /// `export { local as exported, ... }`, including re-export sugar
    /// already desugared to an import plus this.
    ExportNamed { items: Vec<(String, usize)> },
    /// `export default <expr>`, bound to a local symbol.
    ExportDefault { local: usize },
    /// A declaration introducing local bindings.
    Decl { declared: Vec<usize> },
    /// Any other statement.
    Other,
}

/// One statement of a parsed module.
#[derive(Clone, PartialEq, Eq, Debug)]
pub struct AstStmt {
    pub kind: StmtKind,
    pub parts: Vec<StmtPart>,
    pub side_effects: bool,
}

/// One module's syntax tree, as the finalizers rewrite it: a statement
/// list.
#[derive(Clone, PartialEq, Eq, Debug)]
pub struct EcmaAst {
    pub stmts: Vec<AstStmt>,
}

/// Per-statement linking metadata: its side-effect bit and the
/// bindings it declares and references.
#[derive(Clone, PartialEq, Eq, Debug)]
pub struct StmtInfo {
    pub side_effects: bool,
    pub declared: Vec<SymbolRef>,
    pub referenced: Vec<SymbolRef>,
}

/// An import record as the scanner produces it, before resolution.
#[derive(Clone, PartialEq, Eq, Debug)]
pub struct RawImportRecord {
    pub specifier: String,
    pub kind: ImportKind,
    pub asserted_module_type: Option<ModuleType>,
}

impl RawImportRecord {
    /// Attaches the resolved target module.
    pub fn into_resolved(self, resolved_module: usize) -> (r: ResolvedImportRecord)
        ensures
            r.specifier == self.specifier,
            r.kind == self.kind,
            r.resolved_module == resolved_module,
    {
        ResolvedImportRecord { specifier: self.specifier, kind: self.kind, resolved_module }
    }
}

/// An import record with its target module identity attached; the
/// target is a live module index or, for externals, the index of the
/// external module's table entry.
#[derive(Clone, PartialEq, Eq, Debug)]
pub struct ResolvedImportRecord {
    pub specifier: String,
    pub kind: ImportKind,
    pub resolved_module: usize,
}

/// One named import: which binding of which record's target the local
/// symbol stands for.
#[derive(Clone, PartialEq, Eq, Debug)]
pub struct NamedImport {
    pub imported: ImportName,
    pub record_idx: usize,
    pub local: SymbolRef,
}

/// One named export: the exported name and the local binding behind
/// it.
#[derive(Clone, PartialEq, Eq, Debug)]
pub struct NamedExport {
    pub exported: String,
    pub referenced: SymbolRef,
}

/// What the parser collaborator hands the loader for one module:
/// statements, the local symbol names its scope analysis found, and
/// the ancestor chains of candidate interop-flag sites.
#[derive(Clone, PartialEq, Eq, Debug)]
pub struct ModuleInput {
    pub stmts: Vec<AstStmt>,
    pub local_names: Vec<String>,
    pub interop_sites: Vec<crate::scanner::InteropSite>,
    pub has_eval: bool,
}

/// A normal (internal) module after scanning.
#[derive(Clone, PartialEq, Eq, Debug)]
pub struct NormalModule {
    pub idx: usize,
    pub id: String,
    pub stable_id: String,
    pub repr_name: String,
    pub exec_order: u32,
    pub is_user_defined_entry: bool,
    pub module_type: ModuleType,
    pub def_format: ModuleDefFormat,
    pub exports_kind: ExportsKind,
    pub import_records: Vec<ResolvedImportRecord>,
    pub named_imports: Vec<NamedImport>,
    pub named_exports: Vec<NamedExport>,
    pub default_export_ref: Option<SymbolRef>,
    pub namespace_object_ref: SymbolRef,
    pub stmt_infos: Vec<StmtInfo>,
    pub side_effects: DeterminedSideEffects,
    pub has_eval: bool,
    pub has_star_exports: bool,
    pub es_module_flag: Option<bool>,
    pub ecma_ast_idx: Option<usize>,
    pub included: bool,
}

/// An external module: only an identity, a side-effect determination
/// and the facade binding that stands for its namespace.
#[derive(Clone, PartialEq, Eq, Debug)]
pub struct ExternalModule {
    pub idx: usize,
    pub id: String,
    pub side_effects: DeterminedSideEffects,
    pub namespace_ref: SymbolRef,
}

impl ExternalModule {
    /// Builds an external module entry.
    pub fn new(idx: usize, id: String, side_effects: DeterminedSideEffects, namespace_ref: SymbolRef)
        -> (r: ExternalModule)
        ensures
            r.idx == idx,
            r.id == id,
            r.side_effects == side_effects,
            r.namespace_ref == namespace_ref,
    {
        ExternalModule { idx, id, side_effects, namespace_ref }
    }
}

/// Either kind of module.
#[derive(Clone, PartialEq, Eq, Debug)]
pub enum Module {
    Normal(NormalModule),
    External(ExternalModule),
}

impl Module {
    /// The module's table index.
    pub open spec fn spec_idx(&self) -> usize {
        match self {
            Module::Normal(m) => m.idx,
            Module::External(m) => m.idx,
        }
    }

    /// The module's table index.
    pub fn idx(&self) -> (r: usize)
        ensures
            r == self.spec_idx(),
    {
        match self {
            Module::Normal(m) => m.idx,
            Module::External(m) => m.idx,
        }
    }

    /// The normal-module view, if this is one.
    pub fn as_normal(&self) -> (r: Option<&NormalModule>)
        ensures
            match r {
                Some(m) => self matches Module::Normal(n) && m == n,
                None => self is External,
            },
    {
        match self {
            Module::Normal(m) => Some(m),
            Module::External(_) => None,
        }
    }

    /// The stable identity shown in emitted output.
    pub fn stable_id(&self) -> (r: &String)
        ensures
            r@ == self.spec_stable_id(),
    {
        match self {
            Module::Normal(m) => &m.stable_id,
            Module::External(m) => &m.id,
        }
    }

    /// The stable identity shown in emitted output.
    pub open spec fn spec_stable_id(&self) -> Seq<char> {
        match self {
            Module::Normal(m) => m.stable_id@,
            Module::External(m) => m.id@,
        }
    }
}

/// The indexed collection of all modules of one build.
#[derive(Clone, PartialEq, Eq, Debug)]
pub struct ModuleTable {
    pub modules: Vec<Module>,
}

impl ModuleTable {
    /// Each module sits at the index it names.
    pub open spec fn wf(&self) -> bool {
        forall|i: int|
            0 <= i < self.modules@.len() ==> (#[trigger] self.modules@[i]).spec_idx() == i
    }

    /// An empty table.
    pub fn new() -> (r: ModuleTable)
        ensures
            r.modules@.len() == 0,
            r.wf(),
    {
        ModuleTable { modules: Vec::new() }
    }
}


/// The synthetic runtime module's brief: where it sits in the table.
/// It is built once per build and always included.
#[derive(Clone, Copy, PartialEq, Eq, Structural, Debug)]
pub struct RuntimeModuleBrief {
    pub idx: usize,
}

impl RuntimeModuleBrief {
    /// The brief for the runtime module at `idx`.
    pub fn new(idx: usize) -> (r: RuntimeModuleBrief)
        ensures
            r.idx == idx,
    {
        RuntimeModuleBrief { idx }
    }
}

/// The parsed tree and local symbols a completed analysis task hands
/// back beside its module.
pub struct EcmaRelated {
    pub ast: EcmaAst,
    pub symbols: Vec<crate::symbols::SymbolEntry>,
}

/// What one module analysis task delivers on completion.
pub struct NormalModuleTaskResult {
    pub module_idx: usize,
    pub resolved_deps: Vec<ResolvedId>,
    pub module: Module,
    pub raw_import_records: Vec<RawImportRecord>,
    pub warnings: Vec<crate::diagnostics::BuildDiagnostic>,
    pub ecma_related: Option<EcmaRelated>,
}

/// What the runtime module task delivers.
pub struct RuntimeModuleTaskResult {
    pub local_symbol_ref_db: Vec<crate::symbols::SymbolEntry>,
    pub module: NormalModule,
    pub runtime: RuntimeModuleBrief,
    pub ast: EcmaAst,
    pub resolved_deps: Vec<ResolvedId>,
    pub raw_import_records: Vec<RawImportRecord>,
}

} // verus!
