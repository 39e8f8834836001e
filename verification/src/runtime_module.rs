//! The synthetic runtime module: the bundler's own helpers (module
//! registry, `require`, the hot-patch apply entry point), built once
//! per build, scanned like any other module, and always included.

use vstd::prelude::*;

use crate::diagnostics::BuildDiagnostic;
use crate::loader::ModuleLoaderMsg;
use crate::module::{
    AstStmt, DeterminedSideEffects, EcmaAst, Module, ModuleDefFormat, ModuleInput, ModuleType,
    NormalModule, RuntimeModuleBrief, RuntimeModuleTaskResult, StmtKind, StmtPart,
};
use crate::options::{NormalizedBundlerOptions, OutputFormat};
use crate::scanner::{scan_module, InteropSite, ScanResult};
use crate::symbols::SymbolRef;

verus! {

/// The runtime helper text the options select: the registry-driven
/// application helpers, the Node-flavored flat-ESM helpers, or the
/// browser-neutral ones.
pub open spec fn spec_runtime_source_text(options: NormalizedBundlerOptions) -> Seq<char> {
    if options.format == OutputFormat::App {
        "var rolldown_runtime = { modules: {}, define: function (id, factory) { rolldown_runtime.modules[id] = factory; }, require: function (id) { return rolldown_runtime.modules[id](); }, patch: function (ids, apply) { apply(); } };"@
    } else if options.format == OutputFormat::Esm && options.platform
        == crate::options::Platform::Node {
        "import { createRequire as __rolldown_cr } from 'node:module'; var rolldown_runtime = { modules: {}, define: function (id, factory) { rolldown_runtime.modules[id] = factory; }, require: function (id) { return rolldown_runtime.modules[id](); } };"@
    } else {
        "var rolldown_runtime = { modules: {}, define: function (id, factory) { rolldown_runtime.modules[id] = factory; }, require: function (id) { return rolldown_runtime.modules[id](); } };"@
    }
}

/// The stable identity of the runtime module.
pub fn runtime_module_id() -> (r: String)
    ensures
        r@ == "rolldown:runtime"@,
{
    String::from_str("rolldown:runtime")
}

/// What parsing the runtime source yields: its tree, its scan result
/// and its namespace binding.
pub struct MakeEcmaAstResult {
    pub ast: EcmaAst,
    pub scan_result: ScanResult,
    pub namespace_object_ref: SymbolRef,
}

/// The task that builds the runtime module.
pub struct RuntimeModuleTask {
    pub module_id: usize,
}

impl RuntimeModuleTask {
    /// A task for the runtime module at index `id`.
    pub fn new(id: usize) -> (r: RuntimeModuleTask)
        ensures
            r.module_id == id,
    {
        RuntimeModuleTask { module_id: id }
    }

    /// The runtime helper source for the chosen output flavor: the
    /// registry-driven application helpers, the Node-flavored flat-ESM
    /// helpers, or the browser-neutral ones.
    fn runtime_source(options: &NormalizedBundlerOptions) -> (r: String)
        ensures
            r@ == spec_runtime_source_text(*options),
            r@.len() > 0,
    {
        proof {
            reveal_strlit(
                "var rolldown_runtime = { modules: {}, define: function (id, factory) { rolldown_runtime.modules[id] = factory; }, require: function (id) { return rolldown_runtime.modules[id](); }, patch: function (ids, apply) { apply(); } };",
            );
            reveal_strlit(
                "import { createRequire as __rolldown_cr } from 'node:module'; var rolldown_runtime = { modules: {}, define: function (id, factory) { rolldown_runtime.modules[id] = factory; }, require: function (id) { return rolldown_runtime.modules[id](); } };",
            );
            reveal_strlit(
                "var rolldown_runtime = { modules: {}, define: function (id, factory) { rolldown_runtime.modules[id] = factory; }, require: function (id) { return rolldown_runtime.modules[id](); } };",
            );
        }
        match options.format {
            OutputFormat::App => String::from_str(
                "var rolldown_runtime = { modules: {}, define: function (id, factory) { rolldown_runtime.modules[id] = factory; }, require: function (id) { return rolldown_runtime.modules[id](); }, patch: function (ids, apply) { apply(); } };",
            ),
            _ => {
                if options.is_esm_format_with_node_platform() {
                    String::from_str(
                        "import { createRequire as __rolldown_cr } from 'node:module'; var rolldown_runtime = { modules: {}, define: function (id, factory) { rolldown_runtime.modules[id] = factory; }, require: function (id) { return rolldown_runtime.modules[id](); } };",
                    )
                } else {
                    String::from_str(
                        "var rolldown_runtime = { modules: {}, define: function (id, factory) { rolldown_runtime.modules[id] = factory; }, require: function (id) { return rolldown_runtime.modules[id](); } };",
                    )
                }
            },
        }
    }

    /// Parses the runtime source into the modeled tree and scans it.
    /// The tree is one declaration statement binding the runtime
    /// helper object.
    fn make_ecma_ast(&self, source: String) -> (r: MakeEcmaAstResult)
        ensures
            r.ast.stmts@.len() == 1,
            r.ast.stmts@[0].parts@.len() == 1,
            r.ast.stmts@[0].parts@[0] == StmtPart::Text(source),
            r.scan_result.stmt_infos@.len() == 1,
            r.scan_result.import_records@.len() == 0,
            r.scan_result.errors@.len() == 0,
            r.scan_result.exports_kind == crate::module::ExportsKind::Esm,
            r.scan_result.symbols@.len() == 2,
            forall|i: int|
                0 <= i < r.scan_result.symbols@.len() ==> (
                #[trigger] r.scan_result.symbols@[i]).link is None,
            r.namespace_object_ref == (SymbolRef { module: self.module_id, symbol: 1 }),
    {
        let mut declared: Vec<usize> = Vec::new();
        declared.push(0);
        let mut parts: Vec<StmtPart> = Vec::new();
        parts.push(StmtPart::Text(source));
        let stmt = AstStmt { kind: StmtKind::Decl { declared }, parts, side_effects: false };
        let mut stmts: Vec<AstStmt> = Vec::new();
        stmts.push(stmt);
        let mut local_names: Vec<String> = Vec::new();
        local_names.push(String::from_str("rolldown_runtime"));
        let input = ModuleInput {
            stmts,
            local_names,
            interop_sites: Vec::new(),
            has_eval: false,
        };
        let repr_name = String::from_str("rolldown_runtime");
        let scan_result = scan_module(
            self.module_id,
            &repr_name,
            ModuleDefFormat::EsmMjs,
            &input,
        );
        proof {
            assert(crate::scanner::spec_stmt_ids_valid(input.stmts@[0], 1));
            assert(crate::scanner::spec_input_ids_valid(input));
            assert(crate::scanner::spec_export_names_of(input.stmts@[0]) =~= Seq::<
                Seq<char>,
            >::empty());
            assert(crate::scanner::spec_export_names(input.stmts@, 1) =~= crate::scanner::spec_export_names(
                input.stmts@,
                0,
            ) + crate::scanner::spec_export_names_of(input.stmts@[0]));
            assert(crate::scanner::spec_export_names(input.stmts@, 1) =~= Seq::<
                Seq<char>,
            >::empty());
            assert(crate::scanner::spec_export_names(input.stmts@, 1).no_duplicates());
            assert(crate::scanner::spec_input_valid(input));
            assert(crate::scanner::spec_record_of(input.stmts@[0]) =~= Seq::<
                crate::module::RawImportRecord,
            >::empty());
            assert(crate::scanner::spec_import_records(input.stmts@, 1)
                =~= crate::scanner::spec_import_records(input.stmts@, 0)
                + crate::scanner::spec_record_of(input.stmts@[0]));
            assert(crate::scanner::spec_import_records(input.stmts@, 1).len() == 0);
            assert(!crate::scanner::spec_any_site(input.interop_sites@, true));
            assert(!crate::scanner::spec_any_site(input.interop_sites@, false));
            assert(!crate::scanner::spec_has_export_stmt(input.stmts@));
            assert(!crate::scanner::spec_has_import_stmt(input.stmts@));
            assert(crate::scanner::spec_exports_kind(
                input.stmts@,
                ModuleDefFormat::EsmMjs,
                crate::scanner::spec_flag_of_sites(input.interop_sites@),
            ) == crate::module::ExportsKind::Esm);
        }
        let namespace_object_ref = scan_result.namespace_object_ref;
        MakeEcmaAstResult {
            ast: EcmaAst { stmts: input.stmts },
            scan_result,
            namespace_object_ref,
        }
    }

    /// Builds the runtime module and hands it back as the completion
    /// message of its analysis task. The runtime has no dependencies
    /// of its own here, so its record and dependency lists are empty.
    pub fn run(&self, options: &NormalizedBundlerOptions) -> (msg: ModuleLoaderMsg)
        ensures
            msg matches ModuleLoaderMsg::RuntimeNormalModuleDone(tr) && {
                &&& tr.module.idx == self.module_id
                &&& tr.module.id@ == "rolldown:runtime"@
                &&& tr.module.stable_id@ == "rolldown:runtime"@
                &&& tr.module.stmt_infos@.len() == tr.ast.stmts@.len()
                &&& tr.module.import_records@.len() == 0
                &&& tr.raw_import_records@.len() == 0
                &&& tr.resolved_deps@.len() == 0
                &&& tr.module.ecma_ast_idx is None
                &&& !tr.module.included
                &&& !tr.module.is_user_defined_entry
                &&& tr.module.side_effects == DeterminedSideEffects::Analyzed(false)
                &&& tr.module.exec_order == u32::MAX
                &&& tr.module.exports_kind == crate::module::ExportsKind::Esm
                &&& tr.ast.stmts@.len() == 1
                &&& tr.ast.stmts@[0].parts@.len() == 1
                &&& tr.ast.stmts@[0].parts@[0] matches StmtPart::Text(t) && t@
                    == spec_runtime_source_text(*options) && t@.len() > 0
                &&& forall|i: int|
                    0 <= i < tr.local_symbol_ref_db@.len() ==> (
                    #[trigger] tr.local_symbol_ref_db@[i]).link is None
                &&& tr.runtime.idx == self.module_id
            },
    {
        let source = Self::runtime_source(options);
        let ecma_ast_result = self.make_ecma_ast(source);
        let MakeEcmaAstResult { ast, scan_result, namespace_object_ref } = ecma_ast_result;
        let id = runtime_module_id();
        let module = NormalModule {
            idx: self.module_id,
            id: id.clone(),
            stable_id: id.clone(),
            repr_name: String::from_str("rolldown_runtime"),
            exec_order: u32::MAX,
            is_user_defined_entry: false,
            module_type: ModuleType::Js,
            def_format: ModuleDefFormat::EsmMjs,
            exports_kind: scan_result.exports_kind,
            import_records: Vec::new(),
            named_imports: scan_result.named_imports,
            named_exports: scan_result.named_exports,
            default_export_ref: scan_result.default_export_ref,
            namespace_object_ref,
            stmt_infos: scan_result.stmt_infos,
            side_effects: DeterminedSideEffects::Analyzed(false),
            has_eval: scan_result.has_eval,
            has_star_exports: scan_result.has_star_exports,
            es_module_flag: scan_result.es_module_flag,
            ecma_ast_idx: None,
            included: false,
        };
        let runtime = RuntimeModuleBrief::new(self.module_id);
        ModuleLoaderMsg::RuntimeNormalModuleDone(
            RuntimeModuleTaskResult {
                local_symbol_ref_db: scan_result.symbols,
                module,
                runtime,
                ast,
                resolved_deps: Vec::new(),
                raw_import_records: Vec::new(),
            },
        )
    }
}

} // verus!
