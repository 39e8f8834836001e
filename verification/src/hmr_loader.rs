//! The incremental module loader: the graph-construction loop seeded
//! with the previous build's tables instead of starting empty.
//!
//! Changed files that are already-visited modules are re-scanned in
//! place, keeping their module index so downstream references stay
//! valid; files never visited are ignored for patch purposes. Beside
//! the list of requested changes the loader reports which modules'
//! content actually came back from a re-scan — only those are
//! finalized and rendered.

use vstd::prelude::*;

use crate::diagnostics::{BuildDiagnostic, EventKind};
use crate::loader::{
    run_module_task, spec_msg_ok, spec_resolver_ids, ModuleLoaderMsg, Resolver, SourceTable,
    VisitedMap,
};
use crate::module::{
    EcmaAst, EcmaRelated, Module, ModuleDefFormat, ModuleTable, NormalModuleTaskResult,
    ResolvedId, ResolvedImportRecord,
};
use crate::options::NormalizedBundlerOptions;
use crate::symbols::{SymbolRef, SymbolRefDb};
use crate::util::legitimize_identifier_name;

verus! {

/// The growing per-build stores of an incremental build: every slot
/// starts holding the previous build's module.
pub struct HmrIntermediateNormalModules {
    pub modules: Vec<Option<Module>>,
    pub index_ecma_ast: Vec<(EcmaAst, usize)>,
}

impl HmrIntermediateNormalModules {
    /// Seeds the stores with the previous build's table and trees.
    pub fn new(previous_module_table: ModuleTable, index_ecma_ast: Vec<(EcmaAst, usize)>) -> (r:
        HmrIntermediateNormalModules)
        ensures
            r.modules@.len() == previous_module_table.modules@.len(),
            forall|j: int|
                0 <= j < r.modules@.len() ==> (#[trigger] r.modules@[j]) == Some(
                    previous_module_table.modules@[j],
                ),
            r.index_ecma_ast == index_ecma_ast,
    {
        let ghost src0 = previous_module_table.modules@;
        let mut src = previous_module_table.modules;
        let mut rev: Vec<Module> = Vec::new();
        loop
            invariant
                rev@.len() + src@.len() == src0.len(),
                src@ == src0.subrange(0, src@.len() as int),
                forall|k: int|
                    0 <= k < rev@.len() ==> (#[trigger] rev@[k]) == src0[src0.len() - 1 - k],
            ensures
                src@.len() == 0,
                rev@.len() == src0.len(),
                forall|k: int|
                    0 <= k < rev@.len() ==> (#[trigger] rev@[k]) == src0[src0.len() - 1 - k],
            decreases src@.len(),
        {
            match src.pop() {
                Some(m) => {
                    proof {
                        assert(src0.subrange(0, src@.len() as int + 1)[src@.len() as int] == src0[
                            src@.len() as int
                        ]);
                        assert(src@ =~= src0.subrange(0, src@.len() as int));
                    }
                    rev.push(m);
                },
                None => {
                    break ;
                },
            }
        }
        let mut modules: Vec<Option<Module>> = Vec::new();
        loop
            invariant
                modules@.len() + rev@.len() == src0.len(),
                forall|k: int|
                    0 <= k < rev@.len() ==> (#[trigger] rev@[k]) == src0[src0.len() - 1 - k],
                forall|j: int|
                    0 <= j < modules@.len() ==> (#[trigger] modules@[j]) == Some(src0[j]),
            ensures
                rev@.len() == 0,
                modules@.len() == src0.len(),
                forall|j: int|
                    0 <= j < modules@.len() ==> (#[trigger] modules@[j]) == Some(src0[j]),
            decreases rev@.len(),
        {
            match rev.pop() {
                Some(m) => {
                    proof {
                        assert(rev@.push(m)[rev@.len() as int] == m);
                    }
                    modules.push(Some(m));
                },
                None => {
                    break ;
                },
            }
        }
        HmrIntermediateNormalModules { modules, index_ecma_ast }
    }

    /// Allocates the next module index; the slot starts unfilled.
    pub fn alloc_ecma_module_idx(&mut self) -> (idx: usize)
        ensures
            idx == old(self).modules@.len(),
            final(self).modules@ == old(self).modules@.push(None),
            final(self).index_ecma_ast == old(self).index_ecma_ast,
    {
        let idx = self.modules.len();
        self.modules.push(None);
        idx
    }
}

/// What an incremental load reports: all modules, the maps, and which
/// modules were requested changed and which actually re-scanned.
pub struct HmrModuleLoaderOutput {
    pub module_table: ModuleTable,
    pub module_id_to_modules: VisitedMap,
    pub index_ecma_ast: Vec<(EcmaAst, usize)>,
    pub symbol_ref_db: SymbolRefDb,
    pub warnings: Vec<BuildDiagnostic>,
    pub changed_modules: Vec<usize>,
    pub diff_modules: Vec<usize>,
}

/// The incremental loader's state: the previous build's maps, the
/// message queue standing for the bounded channel, and the
/// outstanding-task counter.
pub struct HmrModuleLoader {
    pub options: NormalizedBundlerOptions,
    pub queue: Vec<ModuleLoaderMsg>,
    pub qhead: usize,
    pub visited: VisitedMap,
    pub remaining: usize,
    pub intermediate_normal_modules: HmrIntermediateNormalModules,
    pub symbol_ref_db: SymbolRefDb,
}

/// The module indices a change request names: the seed map's value at
/// each changed file that is a key of it, in input order. Files never
/// seen stay out.
pub open spec fn spec_changed_list(
    entries: Seq<crate::loader::VisitedEntry>,
    files: Seq<String>,
    n: int,
) -> Seq<usize>
    decreases n,
{
    if n <= 0 {
        Seq::empty()
    } else {
        spec_changed_list(entries, files, n - 1) + (match crate::loader::spec_map_get(
            entries,
            files[n - 1]@,
        ) {
            Some(idx) => seq![idx],
            None => Seq::<usize>::empty(),
        })
    }
}

/// A key either survives from the seed or was answered by the
/// resolver during this incremental load.
pub open spec fn spec_hmr_keys_ok(
    keys: Seq<Seq<char>>,
    init_len: nat,
    resolver: Seq<crate::loader::ResolverEntry>,
) -> bool {
    &&& init_len <= keys.len()
    &&& forall|k: int|
        init_len <= k < keys.len() ==> spec_resolver_ids(resolver).contains(#[trigger] keys[k])
}

/// Every key of the global replacement table is a non-empty legal
/// identifier: legitimizing it changes nothing.
pub open spec fn spec_define_keys_legal(define: Seq<(String, String)>) -> bool {
    forall|i: int|
        0 <= i < define.len() ==> {
            let k = (#[trigger] define[i]).0@;
            k.len() > 0 && crate::util::spec_legitimize(k) == k
        }
}

/// Decides whether every global replacement key is a legal identifier,
/// without touching any build state.
pub fn check_define_keys(options: &NormalizedBundlerOptions) -> (r: bool)
    ensures
        r == spec_define_keys_legal(options.define@),
{
    let mut di: usize = 0;
    while di < options.define.len()
        invariant
            di <= options.define@.len(),
            forall|i: int|
                0 <= i < di ==> {
                    let k = (#[trigger] options.define@[i]).0@;
                    k.len() > 0 && crate::util::spec_legitimize(k) == k
                },
        decreases options.define@.len() - di,
    {
        let key = &options.define[di].0;
        let legit = legitimize_identifier_name(key.as_str());
        if key.as_str().unicode_len() == 0 || !legit.eq(key) {
            proof {
                assert(!{
                    let k = options.define@[di as int].0@;
                    k.len() > 0 && crate::util::spec_legitimize(k) == k
                });
            }
            return false;
        }
        di += 1;
    }
    true
}

impl HmrModuleLoader {
    /// The incremental loader's working invariant.
    pub open spec fn inv(&self, resolver: Seq<crate::loader::ResolverEntry>, init_len: nat) -> bool {
        &&& self.visited.wf()
        &&& self.symbol_ref_db.wf()
        &&& self.qhead <= self.queue@.len()
        &&& self.remaining as int == self.queue@.len() - self.qhead
        &&& self.visited.entries@.len() == self.intermediate_normal_modules.modules@.len()
        &&& forall|i: int|
            0 <= i < self.visited.vals().len() ==> (#[trigger] self.visited.vals()[i])
                < self.intermediate_normal_modules.modules@.len()
        &&& spec_hmr_keys_ok(self.visited.keys(), init_len, resolver)
        &&& forall|q: int|
            self.qhead <= q < self.queue@.len() ==> spec_msg_ok(
                #[trigger] self.queue@[q],
                resolver,
                self.intermediate_normal_modules.modules@.len(),
            ) && !((#[trigger] self.queue@[q]) is RuntimeNormalModuleDone)
        &&& forall|m: int|
            0 <= m < self.intermediate_normal_modules.modules@.len() ==> match
                #[trigger] self.intermediate_normal_modules.modules@[m] {
                Some(mo) => mo.spec_idx() == m,
                None => true,
            }
        &&& crate::loader::spec_ast_aligned(
            self.intermediate_normal_modules.modules@,
            self.intermediate_normal_modules.index_ecma_ast@,
        )
    }

    /// Seeds an incremental loader from the previous build. The global
    /// replacement table is validated here: every key must be a legal
    /// identifier, and a malformed one refuses the whole load.
    pub fn new(
        options: NormalizedBundlerOptions,
        previous_module_id_to_modules: VisitedMap,
        previous_module_table: ModuleTable,
        previous_index_ecma_ast: Vec<(EcmaAst, usize)>,
        previous_symbols: SymbolRefDb,
    ) -> (r: Result<HmrModuleLoader, BuildDiagnostic>)
        requires
            previous_module_id_to_modules.wf(),
            previous_module_id_to_modules.entries@.len() == previous_module_table.modules@.len(),
            previous_symbols.wf(),
            previous_module_table.wf(),
            forall|i: int|
                0 <= i < previous_module_id_to_modules.vals().len() ==> (
                #[trigger] previous_module_id_to_modules.vals()[i])
                    < previous_module_table.modules@.len(),
            crate::loader::spec_table_ast_aligned(
                previous_module_table.modules@,
                previous_index_ecma_ast@,
            ),
        ensures
            match r {
                Ok(l) => {
                    &&& l.queue@.len() == 0
                    &&& l.qhead == 0
                    &&& l.remaining == 0
                    &&& l.visited == previous_module_id_to_modules
                    &&& l.intermediate_normal_modules.modules@.len()
                        == previous_module_table.modules@.len()
                    &&& forall|j: int|
                        0 <= j < l.intermediate_normal_modules.modules@.len() ==> (
                        #[trigger] l.intermediate_normal_modules.modules@[j]) == Some(
                            previous_module_table.modules@[j],
                        )
                    &&& l.intermediate_normal_modules.index_ecma_ast == previous_index_ecma_ast
                    &&& l.symbol_ref_db == previous_symbols
                    &&& l.options == options
                    &&& forall|e: Seq<crate::loader::ResolverEntry>|
                        spec_hmr_keys_ok(
                            l.visited.keys(),
                            l.visited.keys().len() as nat,
                            e,
                        )
                },
                Err(e) => e.kind == EventKind::InvalidOption,
            },
            r is Ok <==> spec_define_keys_legal(options.define@),
    {
        if !check_define_keys(&options) {
            return Err(
                BuildDiagnostic::new(
                    EventKind::InvalidOption,
                    String::from_str(
                        "cannot use a global replacement key that is not an identifier",
                    ),
                ),
            );
        }
        let intermediate_normal_modules = HmrIntermediateNormalModules::new(
            previous_module_table,
            previous_index_ecma_ast,
        );
        Ok(
            HmrModuleLoader {
                options,
                queue: Vec::new(),
                qhead: 0,
                visited: previous_module_id_to_modules,
                remaining: 0,
                intermediate_normal_modules,
                symbol_ref_db: previous_symbols,
            },
        )
    }
}


impl HmrModuleLoader {
    /// Resolves one identity to a module index, spawning its analysis
    /// task if it has not been seen in this or any previous build.
    #[verifier::loop_isolation(false)]
    fn try_spawn_new_task(
        &mut self,
        resolved_id: ResolvedId,
        resolver: &Resolver,
        sources: &mut SourceTable,
        Ghost(init_len): Ghost<nat>,
    ) -> (idx: usize)
        requires
            old(self).inv(resolver.entries@, init_len),
            spec_resolver_ids(resolver.entries@).contains(resolved_id.id@),
        ensures
            final(self).inv(resolver.entries@, init_len),
            final(self).qhead == old(self).qhead,
            final(self).queue@.len() >= old(self).queue@.len(),
            forall|q: int|
                0 <= q < old(self).queue@.len() ==> final(self).queue@[q] == old(self).queue@[q],
            final(self).visited.entries@.len() >= old(self).visited.entries@.len(),
            old(self).visited.spec_get(resolved_id.id@) matches Some(i0) ==> (idx == i0 && *final(self) == *old(self) && *final(sources) == *old(sources)),
            final(self).visited.spec_get(resolved_id.id@) == Some(idx),
            old(self).visited.spec_get(resolved_id.id@) is None
                ==> crate::loader::spec_spawn_miss_effect(
                old(self).visited.entries@,
                old(self).intermediate_normal_modules.modules@,
                old(self).remaining as nat,
                old(self).queue@.len(),
                final(self).visited.entries@,
                final(self).intermediate_normal_modules.modules@,
                final(self).symbol_ref_db,
                final(self).remaining as nat,
                final(self).queue@,
                old(self).options,
                resolved_id,
                idx,
            ),
            final(self).options == old(self).options,
    {
        let existing = self.visited.get(&resolved_id.id);
        match existing {
            Some(i0) => i0,
            None => {
                let idx = self.intermediate_normal_modules.alloc_ecma_module_idx();
                proof {
                    assert(!self.visited.vals().contains(idx)) by {
                        if self.visited.vals().contains(idx) {
                            let i = choose|i: int|
                                0 <= i < self.visited.vals().len() && self.visited.vals()[i]
                                    == idx;
                            assert(self.visited.vals()[i] < idx);
                        }
                    }
                }
                let ghost pre_modules = self.intermediate_normal_modules.modules@;
                if resolved_id.is_external {
                    let side_effects = match crate::loader::determine_external_side_effects(
                        &self.options,
                        resolved_id.side_effects,
                    ) {
                        Ok(d) => d,
                        Err(diag) => {
                            // the structurally impossible configuration becomes
                            // a failed task, not a silent presumption
                            self.visited.insert(resolved_id.id, idx);
                            let mut errs: Vec<BuildDiagnostic> = Vec::new();
                            errs.push(diag);
                            self.queue.push(ModuleLoaderMsg::BuildErrors(errs));
                            proof {
                                assert(self.queue@.len()
                                    == vstd::std_specs::vec::spec_vec_len(&self.queue));
                            }
                            self.remaining = self.remaining + 1;
                            return idx;
                        },
                    };
                    let name = legitimize_identifier_name(resolved_id.id.as_str());
                    let namespace_ref = self.symbol_ref_db.create_facade_root_symbol_ref(
                        idx,
                        name,
                    );
                    let ext = crate::module::ExternalModule::new(
                        idx,
                        resolved_id.id.clone(),
                        side_effects,
                        namespace_ref,
                    );
                    self.visited.insert(resolved_id.id, idx);
                    self.intermediate_normal_modules.modules[idx] = Some(Module::External(ext));
                    proof {
                        assert(self.intermediate_normal_modules.modules@ == pre_modules.update(
                            idx as int,
                            Some(Module::External(ext)),
                        ));
                    }
                    idx
                } else {
                    self.visited.insert(resolved_id.id.clone(), idx);
                    let msg = run_module_task(resolver, sources, idx, &resolved_id, false);
                    proof {
                        match &msg {
                            ModuleLoaderMsg::NormalModuleDone(tr) => {
                                assert forall|k: int|
                                    0 <= k < tr.resolved_deps@.len() implies spec_resolver_ids(
                                    resolver.entries@,
                                ).contains((#[trigger] tr.resolved_deps@[k]).id@) by {
                                    let taken = crate::loader::spec_source_take(
                                        old(sources).entries@,
                                        resolved_id.id@,
                                    );
                                    let stmts = taken->Some_0.stmts@;
                                    let n = stmts.len() as int;
                                    crate::loader::lemma_resolve_in_ids_pub(
                                        resolver.entries@,
                                        crate::scanner::spec_import_records(stmts, n)[
                                            k
                                        ].specifier@,
                                        Some(resolved_id.id@),
                                    );
                                }
                            },
                            _ => {},
                        }
                    }
                    self.queue.push(msg);
                    proof {
                        assert(self.queue@.len() == vstd::std_specs::vec::spec_vec_len(
                            &self.queue,
                        ));
                    }
                    self.remaining = self.remaining + 1;
                    idx
                }
            },
        }
    }
}


/// The visited map of an incremental load stays within its seed plus
/// what the resolver can answer.
proof fn lemma_hmr_visited_bound(
    keys: Seq<Seq<char>>,
    init_len: nat,
    resolver: Seq<crate::loader::ResolverEntry>,
)
    requires
        keys.no_duplicates(),
        spec_hmr_keys_ok(keys, init_len, resolver),
    ensures
        keys.len() <= init_len + spec_resolver_ids(resolver).len(),
{
    let tail = keys.subrange(init_len as int, keys.len() as int);
    assert(tail.no_duplicates()) by {
        assert forall|a: int, b: int| 0 <= a < b < tail.len() implies tail[a] != tail[b] by {
            assert(tail[a] == keys[a + init_len]);
            assert(tail[b] == keys[b + init_len]);
        }
    }
    assert forall|i: int|
        0 <= i < tail.len() implies spec_resolver_ids(resolver).contains(#[trigger] tail[i]) by {
        assert(tail[i] == keys[i + init_len]);
    }
    crate::loader::lemma_nodup_within_universe(tail, spec_resolver_ids(resolver));
}

/// True when the list already holds the index.
fn contains_idx(v: &Vec<usize>, x: usize) -> (r: bool)
    ensures
        r == v@.contains(x),
{
    let mut i: usize = 0;
    while i < v.len()
        invariant
            i <= v@.len(),
            forall|j: int| 0 <= j < i ==> (#[trigger] v@[j]) != x,
        decreases v@.len() - i,
    {
        if v[i] == x {
            proof {
                assert(v@[i as int] == x);
            }
            return true;
        }
        i += 1;
    }
    proof {
        if v@.contains(x) {
            let j = choose|j: int| 0 <= j < v@.len() && v@[j] == x;
        }
    }
    false
}

impl HmrModuleLoader {
    /// Re-scans the changed files that are already-visited modules and
    /// settles the incremental graph.
    ///
    /// A file never seen before is ignored for patch purposes. The
    /// loop consumes one completion at a time until the counter is
    /// exactly zero; a fatal batch drains the rest unprocessed and no
    /// partial table is returned — the loader keeps its working
    /// tables coherent so the caller can take the seed prefix back.
    /// With no changed files the previous table comes back untouched
    /// and the diff-module list is empty.
    #[verifier::loop_isolation(false)]
    pub fn fetch_changed_files(
        &mut self,
        changed_files: Vec<String>,
        resolver: &Resolver,
        sources: &mut SourceTable,
    ) -> (r: Result<HmrModuleLoaderOutput, Vec<BuildDiagnostic>>)
        requires
            old(self).inv(resolver.entries@, old(self).visited.keys().len() as nat),
            old(self).queue@.len() == 0,
            old(self).qhead == 0,
            old(self).remaining == 0,
            forall|j: int|
                0 <= j < old(self).intermediate_normal_modules.modules@.len() ==> (
                #[trigger] old(self).intermediate_normal_modules.modules@[j]) is Some,
        ensures
            final(self).remaining == 0,
            final(self).visited.wf(),
            match r {
                Ok(out) => {
                    &&& out.module_table.wf()
                    &&& out.module_id_to_modules.wf()
                    &&& out.module_table.modules@.len()
                        >= old(self).intermediate_normal_modules.modules@.len()
                    &&& out.module_table.modules@.len()
                        == out.module_id_to_modules.entries@.len()
                    &&& out.symbol_ref_db.wf()
                    &&& forall|i: int|
                        0 <= i < out.module_id_to_modules.vals().len() ==> (
                        #[trigger] out.module_id_to_modules.vals()[i])
                            < out.module_table.modules@.len()
                    &&& crate::loader::spec_table_ast_aligned(
                        out.module_table.modules@,
                        out.index_ecma_ast@,
                    )
                    &&& out.changed_modules@ == spec_changed_list(
                        old(self).visited.entries@,
                        changed_files@,
                        changed_files@.len() as int,
                    )
                    &&& out.module_id_to_modules.entries@.len() >= old(
                        self,
                    ).visited.entries@.len()
                    &&& forall|j: int|
                        0 <= j < old(self).visited.entries@.len()
                            ==> #[trigger] out.module_id_to_modules.entries@[j] == old(
                            self,
                        ).visited.entries@[j]
                    &&& out.diff_modules@.no_duplicates()
                    &&& forall|j: int|
                        0 <= j < out.diff_modules@.len() ==> (#[trigger] out.diff_modules@[j])
                            < out.module_table.modules@.len()
                    &&& forall|j: int|
                        0 <= j < out.warnings@.len() ==> (#[trigger] out.warnings@[j]).kind
                            == EventKind::InteropAmbiguity
                },
                Err(errs) => errs@.len() >= 1,
            },
            // a failed load keeps the working tables coherent: the seed
            // prefix of the map survives verbatim and every seed slot
            // still holds a module for its index
            r is Err ==> {
                &&& final(self).symbol_ref_db.wf()
                &&& final(self).visited.entries@.len()
                    == final(self).intermediate_normal_modules.modules@.len()
                &&& final(self).visited.entries@.len() >= old(self).visited.entries@.len()
                &&& (forall|j: int|
                    0 <= j < old(self).visited.entries@.len()
                        ==> #[trigger] final(self).visited.entries@[j] == old(
                        self,
                    ).visited.entries@[j])
                &&& (forall|i: int|
                    0 <= i < final(self).visited.vals().len() ==> (
                    #[trigger] final(self).visited.vals()[i])
                        < final(self).intermediate_normal_modules.modules@.len())
                &&& (forall|j: int|
                    0 <= j < old(self).intermediate_normal_modules.modules@.len() ==> (
                    #[trigger] final(self).intermediate_normal_modules.modules@[j]) is Some)
                &&& (forall|m: int|
                    0 <= m < final(self).intermediate_normal_modules.modules@.len() ==> match
                        #[trigger] final(self).intermediate_normal_modules.modules@[m] {
                        Some(mo) => mo.spec_idx() == m,
                        None => true,
                    })
                &&& crate::loader::spec_ast_aligned(
                    final(self).intermediate_normal_modules.modules@,
                    final(self).intermediate_normal_modules.index_ecma_ast@,
                )
            },
            changed_files@.len() == 0 ==> match r {
                Ok(out) => {
                    &&& out.changed_modules@.len() == 0
                    &&& out.diff_modules@.len() == 0
                    &&& out.warnings@.len() == 0
                    &&& out.module_id_to_modules == old(self).visited
                    &&& out.module_table.modules@.len() == old(
                        self,
                    ).intermediate_normal_modules.modules@.len()
                    &&& forall|j: int|
                        0 <= j < out.module_table.modules@.len() ==> Some(
                            #[trigger] out.module_table.modules@[j],
                        ) == old(self).intermediate_normal_modules.modules@[j]
                    &&& out.index_ecma_ast == old(self).intermediate_normal_modules.index_ecma_ast
                    &&& out.symbol_ref_db == old(self).symbol_ref_db
                },
                Err(_) => false,
            },
    {
        let ghost res = resolver.entries@;
        let ghost init_len = self.visited.keys().len() as nat;
        let mut errors: Vec<BuildDiagnostic> = Vec::new();
        let mut all_warnings: Vec<BuildDiagnostic> = Vec::new();
        let mut changed_modules: Vec<usize> = Vec::new();
        let mut diff_modules: Vec<usize> = Vec::new();

        // which requested files are modules we know
        let mut ci: usize = 0;
        while ci < changed_files.len()
            invariant
                ci <= changed_files@.len(),
                *self == *old(self),
                changed_modules@ == spec_changed_list(
                    old(self).visited.entries@,
                    changed_files@,
                    ci as int,
                ),
            decreases changed_files@.len() - ci,
        {
            match self.visited.get(&changed_files[ci]) {
                Some(idx) => {
                    changed_modules.push(idx);
                },
                None => {},
            }
            ci += 1;
        }
        let ghost changed_pinned = spec_changed_list(
            old(self).visited.entries@,
            changed_files@,
            changed_files@.len() as int,
        );

        // spawn one re-scan per distinct changed module
        let mut spawned: Vec<usize> = Vec::new();
        let mut si: usize = 0;
        while si < changed_files.len()
            invariant
                si <= changed_files@.len(),
                self.inv(res, init_len),
                self.qhead == 0,
                self.visited == old(self).visited,
                self.intermediate_normal_modules.modules@ == old(
                    self,
                ).intermediate_normal_modules.modules@,
                changed_files@.len() == 0 ==> *self == *old(self),
                changed_modules@ == changed_pinned,
            decreases changed_files@.len() - si,
        {
            match self.visited.get(&changed_files[si]) {
                Some(idx) => {
                    proof {
                        crate::loader::lemma_get_in_vals(&self.visited, changed_files@[
                            si as int
                        ]@);
                        assert(self.visited.vals().contains(idx));
                        let vi = choose|vi: int|
                            0 <= vi < self.visited.vals().len() && self.visited.vals()[vi] == idx;
                        assert(idx < self.intermediate_normal_modules.modules@.len());
                    }
                    if !contains_idx(&spawned, idx) {
                        spawned.push(idx);
                        let rid = ResolvedId {
                            id: changed_files[si].clone(),
                            ignored: false,
                            module_def_format: ModuleDefFormat::Unknown,
                            is_external: false,
                            side_effects: None,
                            is_external_without_side_effects: false,
                        };
                        let ghost pre_sources = *sources;
                        let msg = run_module_task(resolver, sources, idx, &rid, false);
                        proof {
                            match &msg {
                                ModuleLoaderMsg::NormalModuleDone(tr) => {
                                    assert forall|k: int|
                                        0 <= k < tr.resolved_deps@.len() implies spec_resolver_ids(
                                        res,
                                    ).contains((#[trigger] tr.resolved_deps@[k]).id@) by {
                                        let taken = crate::loader::spec_source_take(
                                            pre_sources.entries@,
                                            rid.id@,
                                        );
                                        let stmts = taken->Some_0.stmts@;
                                        let n = stmts.len() as int;
                                        crate::loader::lemma_resolve_in_ids_pub(
                                            res,
                                            crate::scanner::spec_import_records(stmts, n)[
                                                k
                                            ].specifier@,
                                            Some(rid.id@),
                                        );
                                    }
                                },
                                _ => {},
                            }
                        }
                        self.queue.push(msg);
                        proof {
                            assert(self.queue@.len() == vstd::std_specs::vec::spec_vec_len(
                                &self.queue,
                            ));
                        }
                        self.remaining = self.remaining + 1;
                    }
                },
                None => {},
            }
            si += 1;
        }

        // the consuming loop
        proof {
            lemma_hmr_visited_bound(self.visited.keys(), init_len, res);
        }
        while self.remaining > 0
            invariant
                self.inv(res, init_len),
                self.visited.keys().len() <= init_len + spec_resolver_ids(res).len(),
                self.intermediate_normal_modules.modules@.len() >= old(
                    self,
                ).intermediate_normal_modules.modules@.len(),
                changed_files@.len() == 0 ==> (*self == *old(self) && errors@.len() == 0
                    && diff_modules@.len() == 0 && changed_modules@.len() == 0
                    && all_warnings@.len() == 0),
                changed_modules@ == changed_pinned,
                self.visited.entries@.len() >= old(self).visited.entries@.len(),
                forall|j: int|
                    0 <= j < old(self).visited.entries@.len() ==> #[trigger] self.visited.entries@[j]
                        == old(self).visited.entries@[j],
                forall|j: int|
                    0 <= j < old(self).intermediate_normal_modules.modules@.len() ==> (
                    #[trigger] self.intermediate_normal_modules.modules@[j]) is Some,
                diff_modules@.no_duplicates(),
                forall|j: int|
                    0 <= j < diff_modules@.len() ==> (#[trigger] diff_modules@[j])
                        < self.intermediate_normal_modules.modules@.len(),
                forall|j: int|
                    0 <= j < all_warnings@.len() ==> (#[trigger] all_warnings@[j]).kind
                        == EventKind::InteropAmbiguity,
            decreases
                    init_len + spec_resolver_ids(res).len() - self.visited.keys().len(),
                    self.remaining,
        {
            let qh = self.qhead;
            let ghost mlen0 = self.intermediate_normal_modules.modules@.len();
            let ghost v0 = self.visited.entries@.len();
            proof {
                assert(qh < self.queue@.len());
                assert(spec_msg_ok(self.queue@[qh as int], res, mlen0));
            }
            let mut msg = ModuleLoaderMsg::BuildErrors(Vec::new());
            core::mem::swap(&mut msg, &mut self.queue[qh]);
            proof {
                assert(self.queue@.len() == vstd::std_specs::vec::spec_vec_len(&self.queue));
            }
            self.qhead = qh + 1;
            self.remaining = self.remaining - 1;
            let ghost r0 = self.remaining;
            proof {
                assert(spec_msg_ok(msg, res, mlen0));
            }
            let fatal = errors.len() > 0;
            if fatal {
                // completions are dropped, but every error batch still
                // joins the propagated set
                match msg {
                    ModuleLoaderMsg::BuildErrors(e) => {
                        let mut e = e;
                        errors.append(&mut e);
                    },
                    _ => {},
                }
            } else {
                match msg {
                    ModuleLoaderMsg::NormalModuleDone(tr) => {
                        let NormalModuleTaskResult {
                            module_idx,
                            resolved_deps,
                            module,
                            raw_import_records,
                            warnings: mut task_warnings,
                            ecma_related,
                        } = tr;
                        all_warnings.append(&mut task_warnings);
                        let mut import_records: Vec<ResolvedImportRecord> = Vec::new();
                        let mut k: usize = 0;
                        while k < raw_import_records.len()
                            invariant
                                self.inv(res, init_len),
                                k <= raw_import_records@.len(),
                                raw_import_records@.len() == resolved_deps@.len(),
                                forall|j: int|
                                    0 <= j < resolved_deps@.len() ==> spec_resolver_ids(
                                        res,
                                    ).contains((#[trigger] resolved_deps@[j]).id@),
                                import_records@.len() == k,
                                module_idx < self.intermediate_normal_modules.modules@.len(),
                                self.visited.entries@.len() >= v0,
                                self.visited.entries@.len() == v0 ==> self.remaining == r0,
                                self.visited.entries@.len() >= old(self).visited.entries@.len(),
                                forall|j: int|
                                    0 <= j < old(self).visited.entries@.len()
                                        ==> #[trigger] self.visited.entries@[j] == old(
                                        self,
                                    ).visited.entries@[j],
                                self.intermediate_normal_modules.modules@.len() >= old(
                                    self,
                                ).intermediate_normal_modules.modules@.len(),
                                forall|j: int|
                                    0 <= j < old(self).intermediate_normal_modules.modules@.len()
                                        ==> (
                                    #[trigger] self.intermediate_normal_modules.modules@[j]) is Some,
                            decreases raw_import_records@.len() - k,
                        {
                            let dep = crate::loader::clone_resolved_id_pub(&resolved_deps[k]);
                            let dep_idx = self.try_spawn_new_task(
                                dep,
                                resolver,
                                sources,
                                Ghost(init_len),
                            );
                            import_records.push(
                                ResolvedImportRecord {
                                    specifier: raw_import_records[k].specifier.clone(),
                                    kind: raw_import_records[k].kind,
                                    resolved_module: dep_idx,
                                },
                            );
                            k += 1;
                        }
                        match module {
                            Module::Normal(m) => {
                                let mut m = m;
                                m.import_records = import_records;
                                match ecma_related {
                                    Some(er) => {
                                        let EcmaRelated { ast, symbols } = er;
                                        if !self.symbol_ref_db.check_cross_links_below(
                                            module_idx,
                                            symbols.len(),
                                        ) {
                                            // the re-scan dropped a binding some other
                                            // module still links to; refuse the patch
                                            errors.push(
                                                BuildDiagnostic::new(
                                                    EventKind::ParseError,
                                                    String::from_str(
                                                        "re-scan removed a binding that other modules still reference",
                                                    ),
                                                ),
                                            );
                                        } else {
                                            let ghost ast_g = ast;
                                            let ghost pre_asts =
                                                self.intermediate_normal_modules.index_ecma_ast@;
                                            // a re-scanned module keeps its tree slot; a
                                            // newly discovered one gets a fresh slot
                                            let mut reuse: Option<usize> = None;
                                            match &self.intermediate_normal_modules.modules[
                                                module_idx
                                            ] {
                                                Some(Module::Normal(old_m)) => {
                                                    match old_m.ecma_ast_idx {
                                                        Some(a) => {
                                                            reuse = Some(a);
                                                        },
                                                        None => {},
                                                    }
                                                },
                                                _ => {},
                                            }
                                            let ast_idx = match reuse {
                                                Some(a) => {
                                                    self.intermediate_normal_modules.index_ecma_ast[
                                                        a
                                                    ] = (ast, module_idx);
                                                    a
                                                },
                                                None => {
                                                    let a =
                                                        self.intermediate_normal_modules.index_ecma_ast.len();
                                                    self.intermediate_normal_modules.index_ecma_ast.push(
                                                        (ast, module_idx),
                                                    );
                                                    a
                                                },
                                            };
                                            m.ecma_ast_idx = Some(ast_idx);
                                            self.symbol_ref_db.store_local_db(
                                                module_idx,
                                                symbols,
                                            );
                                            let ghost pre_mods =
                                                self.intermediate_normal_modules.modules@;
                                            self.intermediate_normal_modules.modules[module_idx] =
                                                Some(Module::Normal(m));
                                            if !contains_idx(&diff_modules, module_idx) {
                                                diff_modules.push(module_idx);
                                            }
                                            proof {
                                                assert(self.intermediate_normal_modules.modules@
                                                    == pre_mods.update(
                                                    module_idx as int,
                                                    Some(Module::Normal(m)),
                                                ));
                                                assert forall|j: int|
                                                    0 <= j
                                                        < self.intermediate_normal_modules.modules@.len() implies match
                                                    #[trigger] self.intermediate_normal_modules.modules@[j] {
                                                    Some(Module::Normal(mm)) => mm.ecma_ast_idx
                                                        matches Some(a) ==> 0 <= a
                                                        < self.intermediate_normal_modules.index_ecma_ast@.len()
                                                        && self.intermediate_normal_modules.index_ecma_ast@[
                                                        a as int
                                                    ].1 == mm.idx && mm.stmt_infos@.len()
                                                        == self.intermediate_normal_modules.index_ecma_ast@[
                                                        a as int
                                                    ].0.stmts@.len(),
                                                    _ => true,
                                                } by {
                                                    if j == module_idx {
                                                        assert(self.intermediate_normal_modules.index_ecma_ast@[
                                                            ast_idx as int
                                                        ] == (ast_g, module_idx));
                                                    } else {
                                                        assert(self.intermediate_normal_modules.modules@[
                                                            j
                                                        ] == pre_mods[j]);
                                                        match pre_mods[j] {
                                                            Some(Module::Normal(mm)) => {
                                                                if mm.ecma_ast_idx is Some {
                                                                    let a =
                                                                        mm.ecma_ast_idx->Some_0;
                                                                    assert(pre_asts[a as int].1
                                                                        == mm.idx);
                                                                    assert(mm.idx == j);
                                                                    assert(self.intermediate_normal_modules.index_ecma_ast@[
                                                                        a as int
                                                                    ] == pre_asts[a as int]);
                                                                }
                                                            },
                                                            _ => {},
                                                        }
                                                    }
                                                }
                                                assert(self.inv(res, init_len));
                                            }
                                        }
                                    },
                                    None => {
                                        let ghost pre_mods =
                                            self.intermediate_normal_modules.modules@;
                                        self.intermediate_normal_modules.modules[module_idx] =
                                            Some(Module::Normal(m));
                                        if !contains_idx(&diff_modules, module_idx) {
                                            diff_modules.push(module_idx);
                                        }
                                        proof {
                                            assert(self.intermediate_normal_modules.modules@
                                                == pre_mods.update(
                                                module_idx as int,
                                                Some(Module::Normal(m)),
                                            ));
                                            assert(self.inv(res, init_len));
                                        }
                                    },
                                }
                            },
                            Module::External(_) => {
                                proof {
                                    assert(false);
                                }
                            },
                        }
                    },
                    ModuleLoaderMsg::RuntimeNormalModuleDone(_) => {
                        // the incremental loader never spawns the runtime task
                        proof {
                            assert(false);
                        }
                    },
                    ModuleLoaderMsg::FetchModule(_) => {
                        proof {
                            assert(false);
                        }
                    },
                    ModuleLoaderMsg::BuildErrors(e) => {
                        let mut e = e;
                        errors.append(&mut e);
                    },
                }
            }
            proof {
                lemma_hmr_visited_bound(self.visited.keys(), init_len, res);
            }
        }

        if errors.len() > 0 {
            return Err(errors);
        }

        // every slot must have been filled by a completed task before
        // any table is moved out: a missing one refuses the patch with
        // the working tables intact
        let mut ck: usize = 0;
        while ck < self.intermediate_normal_modules.modules.len()
            invariant
                ck <= self.intermediate_normal_modules.modules@.len(),
                forall|j: int|
                    0 <= j < ck ==> (
                    #[trigger] self.intermediate_normal_modules.modules@[j]) is Some,
            decreases self.intermediate_normal_modules.modules@.len() - ck,
        {
            let missing = match &self.intermediate_normal_modules.modules[ck] {
                Some(_) => false,
                None => true,
            };
            if missing {
                let mut errs: Vec<BuildDiagnostic> = Vec::new();
                errs.push(
                    BuildDiagnostic::new(
                        EventKind::ChannelClosed,
                        String::from_str("a module analysis task never completed"),
                    ),
                );
                return Err(errs);
            }
            ck += 1;
        }

        let mut modules: Vec<Module> = Vec::new();
        let n_slots = self.intermediate_normal_modules.modules.len();
        let ghost pre_slots = self.intermediate_normal_modules.modules@;
        let mut i: usize = 0;
        while i < n_slots
            invariant
                i <= n_slots,
                n_slots == self.intermediate_normal_modules.modules@.len(),
                modules@.len() == i,
                self.remaining == 0,
                pre_slots.len() == n_slots,
                forall|j: int| 0 <= j < n_slots ==> (#[trigger] pre_slots[j]) is Some,
                forall|j: int|
                    i <= j < n_slots ==> #[trigger] self.intermediate_normal_modules.modules@[j]
                        == pre_slots[j],
                forall|j: int|
                    0 <= j < i ==> pre_slots[j] == Some(#[trigger] modules@[j]),
                forall|j: int|
                    0 <= j < i ==> (#[trigger] modules@[j]).spec_idx() == j,
                forall|j: int|
                    i <= j < n_slots ==> match #[trigger] self.intermediate_normal_modules.modules@[j] {
                        Some(mo) => mo.spec_idx() == j,
                        None => true,
                    },
                forall|j: int|
                    0 <= j < i ==> match #[trigger] modules@[j] {
                        Module::Normal(m) => m.ecma_ast_idx matches Some(a) ==> 0 <= a
                            < self.intermediate_normal_modules.index_ecma_ast@.len()
                            && self.intermediate_normal_modules.index_ecma_ast@[a as int].1
                            == m.idx && m.stmt_infos@.len()
                            == self.intermediate_normal_modules.index_ecma_ast@[
                            a as int
                        ].0.stmts@.len(),
                        _ => true,
                    },
                forall|j: int|
                    i <= j < n_slots ==> match #[trigger] self.intermediate_normal_modules.modules@[j] {
                        Some(Module::Normal(m)) => m.ecma_ast_idx matches Some(a) ==> 0 <= a
                            < self.intermediate_normal_modules.index_ecma_ast@.len()
                            && self.intermediate_normal_modules.index_ecma_ast@[a as int].1
                            == m.idx && m.stmt_infos@.len()
                            == self.intermediate_normal_modules.index_ecma_ast@[
                            a as int
                        ].0.stmts@.len(),
                        _ => true,
                    },
                self.visited.wf(),
                self.visited.entries@.len() >= init_len,
                self.visited.entries@.len() == n_slots,
                forall|j: int|
                    0 <= j < self.visited.vals().len() ==> (#[trigger] self.visited.vals()[j])
                        < n_slots,
                self.symbol_ref_db.wf(),
                changed_modules@ == changed_pinned,
                self.visited.entries@.len() >= old(self).visited.entries@.len(),
                forall|j: int|
                    0 <= j < old(self).visited.entries@.len() ==> #[trigger] self.visited.entries@[j]
                        == old(self).visited.entries@[j],
                diff_modules@.no_duplicates(),
                forall|j: int|
                    0 <= j < diff_modules@.len() ==> (#[trigger] diff_modules@[j]) < n_slots,
                forall|j: int|
                    0 <= j < all_warnings@.len() ==> (#[trigger] all_warnings@[j]).kind
                        == EventKind::InteropAmbiguity,
                n_slots >= old(self).intermediate_normal_modules.modules@.len(),
                changed_files@.len() == 0 ==> (pre_slots == old(
                    self,
                ).intermediate_normal_modules.modules@
                    && self.intermediate_normal_modules.index_ecma_ast == old(
                    self,
                ).intermediate_normal_modules.index_ecma_ast && self.symbol_ref_db == old(
                    self,
                ).symbol_ref_db && changed_modules@.len() == 0 && diff_modules@.len() == 0
                    && self.visited == old(self).visited && all_warnings@.len() == 0),
            decreases n_slots - i,
        {
            let mut slot: Option<Module> = None;
            core::mem::swap(&mut slot, &mut self.intermediate_normal_modules.modules[i]);
            match slot {
                Some(m) => {
                    modules.push(m);
                },
                None => {
                    // the completeness check above saw every slot filled
                    proof {
                        assert(pre_slots[i as int] is Some);
                        assert(false);
                    }
                    let errs: Vec<BuildDiagnostic> = Vec::new();
                    return Err(errs);
                },
            }
            i += 1;
        }

        let mut visited_out = VisitedMap::new();
        core::mem::swap(&mut visited_out, &mut self.visited);
        let mut symbols_out = SymbolRefDb::new();
        core::mem::swap(&mut symbols_out, &mut self.symbol_ref_db);
        let mut asts_out: Vec<(EcmaAst, usize)> = Vec::new();
        core::mem::swap(&mut asts_out, &mut self.intermediate_normal_modules.index_ecma_ast);

        Ok(
            HmrModuleLoaderOutput {
                module_table: ModuleTable { modules },
                module_id_to_modules: visited_out,
                index_ecma_ast: asts_out,
                symbol_ref_db: symbols_out,
                warnings: all_warnings,
                changed_modules,
                diff_modules,
            },
        )
    }

    /// Hands back the seed prefix of the working tables after a failed
    /// incremental load: the first `seed_len` map entries verbatim,
    /// one module per seed slot, and the whole tree store and symbol
    /// table, so the caller keeps a usable previous build.
    #[verifier::loop_isolation(false)]
    pub fn take_seed(&mut self, seed_len: usize) -> (r: (
        ModuleTable,
        VisitedMap,
        Vec<(EcmaAst, usize)>,
        SymbolRefDb,
    ))
        requires
            old(self).visited.wf(),
            seed_len <= old(self).visited.entries@.len(),
            old(self).visited.entries@.len() == old(
                self,
            ).intermediate_normal_modules.modules@.len(),
            forall|j: int|
                0 <= j < seed_len ==> (
                #[trigger] old(self).intermediate_normal_modules.modules@[j]) is Some,
            forall|m: int|
                0 <= m < old(self).intermediate_normal_modules.modules@.len() ==> match
                    #[trigger] old(self).intermediate_normal_modules.modules@[m] {
                    Some(mo) => mo.spec_idx() == m,
                    None => true,
                },
            crate::loader::spec_ast_aligned(
                old(self).intermediate_normal_modules.modules@,
                old(self).intermediate_normal_modules.index_ecma_ast@,
            ),
            old(self).symbol_ref_db.wf(),
        ensures
            r.0.modules@.len() == seed_len,
            r.0.wf(),
            forall|j: int|
                0 <= j < seed_len ==> Some(#[trigger] r.0.modules@[j]) == old(
                    self,
                ).intermediate_normal_modules.modules@[j],
            r.1.wf(),
            r.1.entries@ == old(self).visited.entries@.subrange(0, seed_len as int),
            r.2 == old(self).intermediate_normal_modules.index_ecma_ast,
            crate::loader::spec_table_ast_aligned(r.0.modules@, r.2@),
            r.3 == old(self).symbol_ref_db,
    {
        let mut modules: Vec<Module> = Vec::new();
        let ghost pre_slots = self.intermediate_normal_modules.modules@;
        let mut i: usize = 0;
        while i < seed_len
            invariant
                i <= seed_len,
                modules@.len() == i,
                self.intermediate_normal_modules.modules@.len() == pre_slots.len(),
                forall|j: int|
                    i <= j < pre_slots.len()
                        ==> #[trigger] self.intermediate_normal_modules.modules@[j]
                        == pre_slots[j],
                forall|j: int| 0 <= j < i ==> Some(#[trigger] modules@[j]) == pre_slots[j],
                self.visited == old(self).visited,
                self.intermediate_normal_modules.index_ecma_ast == old(
                    self,
                ).intermediate_normal_modules.index_ecma_ast,
                self.symbol_ref_db == old(self).symbol_ref_db,
            decreases seed_len - i,
        {
            let mut slot: Option<Module> = None;
            core::mem::swap(&mut slot, &mut self.intermediate_normal_modules.modules[i]);
            match slot {
                Some(m) => {
                    modules.push(m);
                },
                None => {
                    // every seed slot holds a module
                    proof {
                        assert(pre_slots[i as int] is Some);
                        assert(false);
                    }
                },
            }
            i += 1;
        }
        let mut visited_out = VisitedMap::new();
        core::mem::swap(&mut visited_out, &mut self.visited);
        visited_out.entries.truncate(seed_len);
        let mut asts_out: Vec<(EcmaAst, usize)> = Vec::new();
        core::mem::swap(&mut asts_out, &mut self.intermediate_normal_modules.index_ecma_ast);
        let mut symbols_out = SymbolRefDb::new();
        core::mem::swap(&mut symbols_out, &mut self.symbol_ref_db);
        proof {
            assert(visited_out.entries@ == old(self).visited.entries@.subrange(
                0,
                seed_len as int,
            ));
            assert(visited_out.keys().no_duplicates()) by {
                assert forall|a: int, b: int|
                    0 <= a < b < visited_out.keys().len() implies visited_out.keys()[a]
                    != visited_out.keys()[b] by {
                    assert(visited_out.entries@[a] == old(self).visited.entries@[a]);
                    assert(visited_out.entries@[b] == old(self).visited.entries@[b]);
                    assert(old(self).visited.keys()[a] != old(self).visited.keys()[b]);
                }
            }
            assert(visited_out.vals().no_duplicates()) by {
                assert forall|a: int, b: int|
                    0 <= a < b < visited_out.vals().len() implies visited_out.vals()[a]
                    != visited_out.vals()[b] by {
                    assert(visited_out.entries@[a] == old(self).visited.entries@[a]);
                    assert(visited_out.entries@[b] == old(self).visited.entries@[b]);
                    assert(old(self).visited.vals()[a] != old(self).visited.vals()[b]);
                }
            }
            assert(crate::loader::spec_table_ast_aligned(modules@, asts_out@)) by {
                assert forall|j: int|
                    0 <= j < modules@.len() implies match #[trigger] modules@[j] {
                    Module::Normal(m) => m.ecma_ast_idx matches Some(a) ==> 0 <= a
                        < asts_out@.len() && asts_out@[a as int].1 == m.idx
                        && m.stmt_infos@.len() == asts_out@[a as int].0.stmts@.len(),
                    _ => true,
                } by {
                    assert(Some(modules@[j]) == pre_slots[j]);
                }
            }
            assert forall|j: int|
                0 <= j < modules@.len() implies (#[trigger] modules@[j]).spec_idx() == j by {
                assert(Some(modules@[j]) == pre_slots[j]);
            }
        }
        (ModuleTable { modules }, visited_out, asts_out, symbols_out)
    }
}

} // verus!
