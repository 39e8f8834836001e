//! The bundler: one value owning a build's state, driving scan, link
//! and generate, and retaining the finished tables as the seed of the
//! next incremental rebuild.
//!
//! Plugin lifecycle hooks, the filesystem and the watcher live with
//! the caller: the bundler computes, the caller performs.

use vstd::prelude::*;

use crate::diagnostics::{BuildDiagnostic, EventKind};
use crate::finalizer::finalize_module_flat;
use crate::hmr_loader::HmrModuleLoader;
use crate::linker::{LinkStage, LinkStageOutput};
use crate::loader::{ModuleLoader, ModuleLoaderOutput, Resolver, SourceTable, VisitedMap};
use crate::module::{EcmaAst, Module, ModuleTable};
use crate::options::{NormalizedBundlerOptions, OutputFormat};
use crate::render::{
    render_app, render_hmr_chunk, print_stmts, BundleOutput, OutputAsset, RenderedModuleSource,
    SourceJoiner,
};
use crate::symbols::SymbolRefDb;

verus! {

/// Renders one chunk from a finished link: the flat shared scope for
/// ESM and CommonJS output, or the registry-driven application format
/// with one factory per included module.
#[verifier::loop_isolation(false)]
pub fn generate_chunk(
    options: &NormalizedBundlerOptions,
    link_output: &LinkStageOutput,
) -> (r: BundleOutput)
    requires
        link_output.module_table.wf(),
        link_output.symbol_db.wf(),
        crate::linker::spec_metadata_aligned(
            link_output.module_table.modules@,
            link_output.metadata@,
        ),
    ensures
        r.assets@.len() == 1,
        r.assets@[0].filename@ == "bundle.js"@,
        options.format == OutputFormat::App ==> (r.assets@[0].source@.len()
            >= "var __rolldown_modules = {\n"@.len() + 1 && r.assets@[0].source@.subrange(
            0,
            "var __rolldown_modules = {\n"@.len() as int,
        ) == "var __rolldown_modules = {\n"@),
{
    let n = link_output.module_table.modules.len();
    let is_app = match options.format {
        OutputFormat::App => true,
        _ => false,
    };
    let content: String = if is_app {
        // each included module becomes one registered factory
        let mut module_sources: Vec<RenderedModuleSource> = Vec::new();
        let mut i: usize = 0;
        while i < n
            invariant
                i <= n,
                n == link_output.module_table.modules@.len(),
                link_output.module_table.wf(),
                link_output.symbol_db.wf(),
            decreases n - i,
        {
            match &link_output.module_table.modules[i] {
                Module::Normal(m) => {
                    if m.included {
                        match m.ecma_ast_idx {
                            Some(a) => {
                                if a < link_output.ast_table.len() {
                                    let finalized = crate::finalizer::finalize_module_isolating(
                                        m,
                                        &link_output.ast_table[a].0,
                                        &link_output.symbol_db,
                                    );
                                    let sources = print_stmts(&finalized);
                                    module_sources.push(
                                        RenderedModuleSource {
                                            module_idx: m.idx,
                                            stable_id: m.stable_id.clone(),
                                            sources: Some(sources),
                                        },
                                    );
                                }
                            },
                            None => {},
                        }
                    }
                },
                Module::External(_) => {},
            }
            i += 1;
        }
        let joiner = render_app(None, None, None, None, None, &module_sources);
        let content = joiner.join();
        proof {
            let pviews = crate::render::spec_part_views(joiner.parts@);
            assert(pviews.len() >= 2);
            assert(pviews[0] == "var __rolldown_modules = {\n"@);
            crate::render::lemma_joined_prefix(pviews, joiner.parts@.len() as int);
        }
        content
    } else {
        // every included module's statements share one flat scope
        let mut joiner = SourceJoiner::new();
        let mut i: usize = 0;
        while i < n
            invariant
                i <= n,
                n == link_output.module_table.modules@.len(),
                link_output.module_table.wf(),
                link_output.symbol_db.wf(),
                crate::linker::spec_metadata_aligned(
                    link_output.module_table.modules@,
                    link_output.metadata@,
                ),
            decreases n - i,
        {
            match &link_output.module_table.modules[i] {
                Module::Normal(m) => {
                    if m.included {
                        match m.ecma_ast_idx {
                            Some(a) => {
                                if a < link_output.ast_table.len() && i
                                    < link_output.metadata.len() {
                                    let ast = &link_output.ast_table[a].0;
                                    if link_output.metadata[i].stmts_included.len()
                                        == ast.stmts.len() {
                                        let finalized = finalize_module_flat(
                                            m,
                                            ast,
                                            &link_output.metadata[i].stmts_included,
                                            &link_output.symbol_db,
                                            &link_output.canonical_names,
                                        );
                                        let sources = print_stmts(&finalized);
                                        let mut si: usize = 0;
                                        while si < sources.len()
                                            invariant
                                                si <= sources@.len(),
                                            decreases sources@.len() - si,
                                        {
                                            joiner.append_source(sources[si].clone());
                                            si += 1;
                                        }
                                    }
                                }
                            },
                            None => {},
                        }
                    }
                },
                Module::External(_) => {},
            }
            i += 1;
        }
        joiner.join()
    };
    let mut assets: Vec<OutputAsset> = Vec::new();
    assets.push(OutputAsset { filename: String::from_str("bundle.js"), source: content });
    BundleOutput { assets, warnings: Vec::new(), watch_files: Vec::new() }
}

/// One build's owner: options, accumulated warnings, and the previous
/// build's tables for incremental rebuilds.
pub struct Bundler {
    pub closed: bool,
    pub options: NormalizedBundlerOptions,
    pub warnings: Vec<BuildDiagnostic>,
    pub previous_module_table: ModuleTable,
    pub previous_module_id_to_modules: VisitedMap,
    pub previous_index_ecma_ast: Vec<(EcmaAst, usize)>,
    pub previous_symbols: SymbolRefDb,
}

impl Bundler {
    /// The retained tables are coherent: the visited map pairs each
    /// identity with one module of the table, trees sit beside their
    /// owners, and the symbol store is closed.
    pub open spec fn wf(&self) -> bool {
        &&& self.previous_module_table.wf()
        &&& self.previous_module_id_to_modules.wf()
        &&& self.previous_module_id_to_modules.entries@.len()
            == self.previous_module_table.modules@.len()
        &&& forall|i: int|
            0 <= i < self.previous_module_id_to_modules.vals().len() ==> (
            #[trigger] self.previous_module_id_to_modules.vals()[i])
                < self.previous_module_table.modules@.len()
        &&& self.previous_symbols.wf()
        &&& crate::loader::spec_table_ast_aligned(
            self.previous_module_table.modules@,
            self.previous_index_ecma_ast@,
        )
    }

    /// A bundler with no previous build.
    pub fn new(options: NormalizedBundlerOptions) -> (r: Bundler)
        ensures
            r.wf(),
            !r.closed,
            r.options == options,
            r.warnings@.len() == 0,
            r.previous_module_table.modules@.len() == 0,
            r.previous_module_id_to_modules.entries@.len() == 0,
            r.previous_index_ecma_ast@.len() == 0,
            r.previous_symbols.local@.len() == 0,
    {
        let r = Bundler {
            closed: false,
            options,
            warnings: Vec::new(),
            previous_module_table: ModuleTable::new(),
            previous_module_id_to_modules: VisitedMap::new(),
            previous_index_ecma_ast: Vec::new(),
            previous_symbols: SymbolRefDb::new(),
        };
        proof {
            assert(r.previous_module_id_to_modules.vals() =~= Seq::<usize>::empty());
        }
        r
    }

    /// The options this build runs under.
    pub fn options(&self) -> (r: &NormalizedBundlerOptions)
        ensures
            r == self.options,
    {
        &self.options
    }

    /// Marks the build closed; later generate calls are refused.
    pub fn close(&mut self)
        ensures
            final(self).closed,
            final(self).options == old(self).options,
            old(self).wf() ==> final(self).wf(),
    {
        self.closed = true;
    }

    /// Discovers the module graph for the given entries: the scan
    /// stage. The caller runs its lifecycle hooks around this call.
    pub fn scan(
        &mut self,
        entries: &Vec<String>,
        resolver: &Resolver,
        sources: &mut SourceTable,
    ) -> (r: Result<ModuleLoaderOutput, Vec<BuildDiagnostic>>)
        ensures
            final(self).options == old(self).options,
            final(self).closed == old(self).closed,
            old(self).wf() ==> final(self).wf(),
            match r {
                Ok(out) => {
                    &&& out.module_table.wf()
                    &&& out.symbol_ref_db.wf()
                    &&& out.module_id_to_modules.wf()
                    &&& out.module_table.modules@.len() >= 1
                    &&& out.module_table.modules@.len()
                        == out.module_id_to_modules.entries@.len()
                    &&& forall|i: int|
                        0 <= i < out.module_id_to_modules.vals().len() ==> (
                        #[trigger] out.module_id_to_modules.vals()[i])
                            < out.module_table.modules@.len()
                    &&& crate::loader::spec_table_ast_aligned(
                        out.module_table.modules@,
                        out.index_ecma_ast@,
                    )
                },
                Err(errs) => errs@.len() >= 1,
            },
            crate::loader::spec_some_entry_unresolvable(entries@, resolver.entries@) ==> (r
                matches Err(errs) && crate::loader::spec_errs_have_resolution_error(errs@)),
            r matches Ok(out) ==> {
                &&& out.module_id_to_modules.spec_get("rolldown:runtime"@) is Some
                &&& forall|j: int|
                    0 <= j < entries@.len() && (#[trigger] crate::loader::spec_resolve(
                        resolver.entries@,
                        entries@[j]@,
                        None,
                    )) is Some ==> out.module_id_to_modules.spec_get(
                        crate::loader::spec_resolve(
                            resolver.entries@,
                            entries@[j]@,
                            None,
                        )->Some_0.id@,
                    ) is Some
            },
    {
        let mut loader = ModuleLoader::new(self.options.clone());
        loader.load(entries, resolver, sources)
    }

    /// Scans and links: everything up to chunk generation.
    pub fn try_build(
        &mut self,
        entries: &Vec<String>,
        resolver: &Resolver,
        sources: &mut SourceTable,
    ) -> (r: Result<LinkStageOutput, Vec<BuildDiagnostic>>)
        ensures
            final(self).options == old(self).options,
            final(self).closed == old(self).closed,
            old(self).wf() ==> final(self).wf(),
            match r {
                Ok(out) => {
                    &&& out.canonical_names.wf()
                    &&& out.module_table.wf()
                    &&& out.module_table.modules@.len() >= 1
                    &&& out.symbol_db.wf()
                    &&& out.module_id_to_modules.wf()
                    &&& out.module_table.modules@.len()
                        == out.module_id_to_modules.entries@.len()
                    &&& forall|i: int|
                        0 <= i < out.module_id_to_modules.vals().len() ==> (
                        #[trigger] out.module_id_to_modules.vals()[i])
                            < out.module_table.modules@.len()
                    &&& crate::loader::spec_table_ast_aligned(
                        out.module_table.modules@,
                        out.ast_table@,
                    )
                    &&& crate::linker::spec_metadata_aligned(
                        out.module_table.modules@,
                        out.metadata@,
                    )
                    &&& !crate::linker::spec_star_cycle(out.module_table.modules@)
                    &&& out.module_id_to_modules.spec_get("rolldown:runtime"@) is Some
                },
                Err(errs) => errs@.len() >= 1,
            },
            crate::loader::spec_some_entry_unresolvable(entries@, resolver.entries@) ==> (r
                matches Err(errs) && crate::loader::spec_errs_have_resolution_error(errs@)),
    {
        let build_info = match self.scan(entries, resolver, sources) {
            Ok(v) => v,
            Err(errs) => {
                return Err(errs);
            },
        };
        LinkStage::new(build_info).link(&self.options)
    }

    /// Produces the bundle: scan, link, generate, and retain the
    /// finished tables for the next incremental rebuild. A closed
    /// bundler refuses the call.
    #[verifier::loop_isolation(false)]
    pub fn bundle_up(
        &mut self,
        entries: &Vec<String>,
        resolver: &Resolver,
        sources: &mut SourceTable,
    ) -> (r: Result<BundleOutput, Vec<BuildDiagnostic>>)
        requires
            old(self).wf(),
        ensures
            final(self).wf(),
            final(self).closed == old(self).closed,
            old(self).closed ==> (r matches Err(errs) && errs@.len() == 1 && errs@[0].kind
                == EventKind::BundleClosed && *final(self) == *old(self)),
            match r {
                Ok(out) => out.assets@.len() == 1 && out.assets@[0].filename@ == "bundle.js"@
                    && final(self).previous_module_table.modules@.len() >= 1 && final(self).previous_module_id_to_modules.spec_get(
                    "rolldown:runtime"@,
                ) is Some,
                Err(errs) => errs@.len() >= 1,
            },
            (!old(self).closed && crate::loader::spec_some_entry_unresolvable(
                entries@,
                resolver.entries@,
            )) ==> (r matches Err(errs) && crate::loader::spec_errs_have_resolution_error(
                errs@,
            )),
    {
        if self.closed {
            let mut errs: Vec<BuildDiagnostic> = Vec::new();
            errs.push(
                BuildDiagnostic::new(
                    EventKind::BundleClosed,
                    String::from_str(
                        "bundle is already closed, no more calls to generate or write are allowed",
                    ),
                ),
            );
            return Err(errs);
        }
        let mut link_stage_output = match self.try_build(entries, resolver, sources) {
            Ok(v) => v,
            Err(errs) => {
                return Err(errs);
            },
        };
        let mut output = generate_chunk(&self.options, &link_stage_output);
        output.warnings.append(&mut link_stage_output.warnings);

        // retain the finished tables for the next incremental build
        let LinkStageOutput {
            module_table,
            module_id_to_modules,
            ast_table,
            symbol_db,
            metadata: _,
            canonical_names: _,
            warnings: _,
            runtime: _,
            entry_points: _,
        } = link_stage_output;
        self.previous_module_table = module_table;
        self.previous_module_id_to_modules = module_id_to_modules;
        self.previous_index_ecma_ast = ast_table;
        self.previous_symbols = symbol_db;
        Ok(output)
    }

    /// Generates the bundle without writing anything; the caller's
    /// accumulated warnings travel with the output.
    pub fn generate(
        &mut self,
        entries: &Vec<String>,
        resolver: &Resolver,
        sources: &mut SourceTable,
    ) -> (r: Result<BundleOutput, Vec<BuildDiagnostic>>)
        requires
            old(self).wf(),
        ensures
            final(self).wf(),
            final(self).closed == old(self).closed,
            old(self).closed ==> (r matches Err(errs) && errs@.len() == 1 && errs@[0].kind
                == EventKind::BundleClosed),
            match r {
                Ok(out) => out.assets@.len() == 1 && out.assets@[0].filename@ == "bundle.js"@,
                Err(errs) => errs@.len() >= 1,
            },
            (!old(self).closed && crate::loader::spec_some_entry_unresolvable(
                entries@,
                resolver.entries@,
            )) ==> (r matches Err(errs) && crate::loader::spec_errs_have_resolution_error(
                errs@,
            )),
    {
        match self.bundle_up(entries, resolver, sources) {
            Ok(mut output) => {
                output.warnings.append(&mut self.warnings);
                Ok(output)
            },
            Err(errs) => Err(errs),
        }
    }

    /// Rebuilds incrementally from the changed files and retains the
    /// updated tables; the caller writes the returned patch asset.
    ///
    /// A failed patch does not cost the previous build: the id map
    /// comes back exactly as it was and every module slot still holds
    /// a module for its index (a re-scan that completed before the
    /// failure keeps its newer content), so the next rebuild starts
    /// from a coherent state.
    pub fn hmr_rebuild(
        &mut self,
        changed_files: Vec<String>,
        resolver: &Resolver,
        sources: &mut SourceTable,
        stamp: &String,
    ) -> (r: Result<BundleOutput, Vec<BuildDiagnostic>>)
        requires
            old(self).wf(),
        ensures
            final(self).wf(),
            match r {
                Ok(out) => out.assets@.len() == 1 && out.assets@[0].filename@ == "hmr-update."@
                    + stamp@ + ".js"@ && final(self).previous_module_table.modules@.len() >= old(
                    self,
                ).previous_module_table.modules@.len() && final(self).previous_module_id_to_modules.entries@.len()
                    >= old(self).previous_module_id_to_modules.entries@.len() && (forall|j: int|
                    0 <= j < old(self).previous_module_id_to_modules.entries@.len()
                        ==> #[trigger] final(self).previous_module_id_to_modules.entries@[j]
                        == old(self).previous_module_id_to_modules.entries@[j]),
                Err(errs) => errs@.len() >= 1,
            },
            r is Err ==> {
                &&& final(self).previous_module_id_to_modules.entries@ == old(
                    self,
                ).previous_module_id_to_modules.entries@
                &&& final(self).previous_module_table.modules@.len() == old(
                    self,
                ).previous_module_table.modules@.len()
            },
    {
        // refuse a malformed replacement key before the retained
        // tables are touched at all
        let opts = self.options.clone();
        if !crate::hmr_loader::check_define_keys(&opts) {
            let mut errs: Vec<BuildDiagnostic> = Vec::new();
            errs.push(
                BuildDiagnostic::new(
                    EventKind::InvalidOption,
                    String::from_str(
                        "cannot use a global replacement key that is not an identifier",
                    ),
                ),
            );
            return Err(errs);
        }

        let seed_len = self.previous_module_table.modules.len();
        let mut prev_table = ModuleTable::new();
        core::mem::swap(&mut prev_table, &mut self.previous_module_table);
        let mut prev_visited = VisitedMap::new();
        core::mem::swap(&mut prev_visited, &mut self.previous_module_id_to_modules);
        let mut prev_asts: Vec<(EcmaAst, usize)> = Vec::new();
        core::mem::swap(&mut prev_asts, &mut self.previous_index_ecma_ast);
        let mut prev_symbols = SymbolRefDb::new();
        core::mem::swap(&mut prev_symbols, &mut self.previous_symbols);
        proof {
            assert(self.previous_module_id_to_modules.vals() =~= Seq::<usize>::empty());
            assert(self.previous_module_id_to_modules.keys() =~= Seq::<Seq<char>>::empty());
            assert(self.previous_module_id_to_modules.keys().no_duplicates());
            assert(self.previous_module_id_to_modules.vals().no_duplicates());
            assert(self.wf());
        }

        let mut hmr_loader = match HmrModuleLoader::new(
            opts,
            prev_visited,
            prev_table,
            prev_asts,
            prev_symbols,
        ) {
            Ok(l) => l,
            Err(_) => {
                // the keys were checked above; the refusal cannot arise
                proof {
                    assert(false);
                }
                let errs: Vec<BuildDiagnostic> = Vec::new();
                return Err(errs);
            },
        };
        proof {
            let slots = hmr_loader.intermediate_normal_modules.modules@;
            let prev_mods = old(self).previous_module_table.modules@;
            assert(slots =~= Seq::new(prev_mods.len(), |j: int| Some(prev_mods[j])));
            assert forall|m: int|
                0 <= m < slots.len() implies match #[trigger] slots[m] {
                Some(mo) => mo.spec_idx() == m,
                None => true,
            } by {
                assert(slots[m] == Some(prev_mods[m]));
                assert(prev_mods[m].spec_idx() == m);
            }
            assert forall|m: int|
                0 <= m < slots.len() implies match #[trigger] slots[m] {
                Some(Module::Normal(mm)) => mm.ecma_ast_idx matches Some(a) ==> 0 <= a
                    < hmr_loader.intermediate_normal_modules.index_ecma_ast@.len()
                    && hmr_loader.intermediate_normal_modules.index_ecma_ast@[a as int].1
                    == mm.idx && mm.stmt_infos@.len()
                    == hmr_loader.intermediate_normal_modules.index_ecma_ast@[
                    a as int
                ].0.stmts@.len(),
                _ => true,
            } by {
                assert(slots[m] == Some(prev_mods[m]));
            }
            assert(hmr_loader.inv(resolver.entries@, hmr_loader.visited.keys().len() as nat));
        }
        let ghost loader0 = hmr_loader;
        let mut hmr_output = match hmr_loader.fetch_changed_files(
            changed_files,
            resolver,
            sources,
        ) {
            Ok(out) => out,
            Err(errs) => {
                // a failed patch keeps the previous build: recover the
                // seeded prefix of the loader's working tables
                let ghost loader1 = hmr_loader;
                let (table, map, asts, symbols) = hmr_loader.take_seed(seed_len);
                proof {
                    let prev_map = old(self).previous_module_id_to_modules;
                    assert(map.entries@ =~= prev_map.entries@) by {
                        assert forall|j: int| 0 <= j < seed_len implies map.entries@[j]
                            == prev_map.entries@[j] by {
                            assert(map.entries@[j] == loader1.visited.entries@[j]);
                            assert(loader1.visited.entries@[j] == loader0.visited.entries@[j]);
                        }
                    }
                    assert(map.vals() =~= prev_map.vals()) by {
                        assert forall|i: int| 0 <= i < map.vals().len() implies map.vals()[i]
                            == prev_map.vals()[i] by {
                            assert(map.entries@[i] == prev_map.entries@[i]);
                        }
                    }
                }
                self.previous_module_table = table;
                self.previous_module_id_to_modules = map;
                self.previous_index_ecma_ast = asts;
                self.previous_symbols = symbols;
                proof {
                    assert(self.wf());
                }
                return Err(errs);
            },
        };

        let output = render_hmr_chunk(&self.options, &mut hmr_output, stamp);

        // store the rebuilt tables as the next previous build
        let crate::hmr_loader::HmrModuleLoaderOutput {
            module_table,
            module_id_to_modules,
            index_ecma_ast,
            symbol_ref_db,
            warnings: _,
            changed_modules: _,
            diff_modules: _,
        } = hmr_output;
        self.previous_module_table = module_table;
        self.previous_module_id_to_modules = module_id_to_modules;
        self.previous_index_ecma_ast = index_ecma_ast;
        self.previous_symbols = symbol_ref_db;
        Ok(output)
    }
}

/// Exercises a bundler round trip on the default options: a build
/// with no entries still produces its single chunk.
pub fn _test_bundler() {
    let mut bundler = Bundler::new(Default::default());
    let entries: Vec<String> = Vec::new();
    let resolver = Resolver { entries: Vec::new() };
    let mut sources = SourceTable { entries: Vec::new() };
    let _generated = bundler.generate(&entries, &resolver, &mut sources);
    let mut bundler = Bundler::new(Default::default());
    let _closed = bundler.close();
}

} // verus!
