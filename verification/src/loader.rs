//! The concurrent module-graph loader, modeled as a single consuming
//! loop over an explicit message queue.
//!
//! One analysis task runs per discovered module; each completion
//! message carries the scanned module and its resolved dependencies,
//! and the loop spawns further tasks for dependencies not yet visited.
//! The visited map is touched only from the consuming loop, so its
//! invariants — one entry per resolved identity, one identity per
//! module index — hold throughout. The outstanding-work counter equals
//! the number of spawned-but-unconsumed completion messages, and the
//! loop ends exactly when it reaches zero; dependency discovery is
//! iterative through the queue, never recursive.

use vstd::prelude::*;
use vstd::seq_lib::*;
use vstd::set_lib::*;

use crate::diagnostics::{BuildDiagnostic, EventKind};
use crate::module::{
    DeterminedSideEffects, EcmaAst, EcmaRelated, HookSideEffects, Module, ModuleInput,
    ModuleTable, ModuleType, NormalModule, NormalModuleTaskResult, RawImportRecord, ResolvedId,
    ResolvedImportRecord, RuntimeModuleBrief, RuntimeModuleTaskResult,
};
use crate::symbols::SymbolRefDb;
use crate::scanner::{
    spec_default_export, spec_export_names, spec_export_refs, spec_exports_kind,
    spec_flag_of_sites, spec_has_star_export, spec_import_records, spec_input_valid,
    spec_named_imports, spec_stmt_side_effects, spec_declared_of, spec_referenced_of,
};
use crate::util::{spec_legitimize};
use crate::options::{ModuleSideEffectsOption, NormalizedBundlerOptions, TreeshakeOptions};
use crate::scanner::scan_module;
use crate::symbols::{SymbolEntry, SymbolRef};
use crate::util::legitimize_identifier_name;

verus! {

/// One entry of the visited map: a resolved identity and the module
/// index allocated for it.
pub struct VisitedEntry {
    pub key: String,
    pub idx: usize,
}

/// The visited map: resolved identity to module index, with no
/// identity entered twice and no index handed out twice.
pub struct VisitedMap {
    pub entries: Vec<VisitedEntry>,
}

impl VisitedMap {
    /// The identities, in insertion order.
    pub open spec fn keys(&self) -> Seq<Seq<char>> {
        Seq::new(self.entries@.len(), |i: int| self.entries@[i].key@)
    }

    /// The module indices, in insertion order.
    pub open spec fn vals(&self) -> Seq<usize> {
        Seq::new(self.entries@.len(), |i: int| self.entries@[i].idx)
    }

    /// No duplicate identity, no duplicate module index.
    pub open spec fn wf(&self) -> bool {
        self.keys().no_duplicates() && self.vals().no_duplicates()
    }

    /// The index stored for an identity, scanning from the front.
    pub open spec fn spec_get(&self, key: Seq<char>) -> Option<usize> {
        spec_map_get(self.entries@, key)
    }

    /// An empty map.
    pub fn new() -> (r: VisitedMap)
        ensures
            r.entries@.len() == 0,
            r.wf(),
    {
        proof {
            assert(Seq::<Seq<char>>::empty().no_duplicates());
        }
        VisitedMap { entries: Vec::new() }
    }

    /// Looks an identity up.
    pub fn get(&self, key: &String) -> (r: Option<usize>)
        ensures
            r == self.spec_get(key@),
    {
        proof {
            assert(self.entries@.subrange(0, self.entries@.len() as int) =~= self.entries@);
        }
        let mut i: usize = 0;
        while i < self.entries.len()
            invariant
                i <= self.entries@.len(),
                spec_map_get(self.entries@.subrange(i as int, self.entries@.len() as int), key@)
                    == self.spec_get(key@) || exists|j: int|
                    0 <= j < i && self.entries@[j].key@ == key@,
                forall|j: int| 0 <= j < i ==> (#[trigger] self.entries@[j]).key@ != key@,
            decreases self.entries@.len() - i,
        {
            proof {
                assert(self.entries@.subrange(i as int, self.entries@.len() as int)[0]
                    == self.entries@[i as int]);
            }
            if self.entries[i].key.eq(key) {
                proof {
                    lemma_map_get_found(self.entries@, key@, i as int);
                }
                return Some(self.entries[i].idx);
            }
            proof {
                assert(self.entries@.subrange(i as int, self.entries@.len() as int).subrange(
                    1,
                    self.entries@.subrange(i as int, self.entries@.len() as int).len() as int,
                ) =~= self.entries@.subrange(i + 1, self.entries@.len() as int));
            }
            i += 1;
        }
        proof {
            assert(self.entries@.subrange(
                self.entries@.len() as int,
                self.entries@.len() as int,
            ) =~= Seq::<VisitedEntry>::empty());
        }
        None
    }

    /// Inserts a fresh identity with a fresh module index.
    pub fn insert(&mut self, key: String, idx: usize)
        requires
            old(self).wf(),
            old(self).spec_get(key@) is None,
            !old(self).vals().contains(idx),
        ensures
            final(self).wf(),
            final(self).entries@ == old(self).entries@.push(VisitedEntry { key, idx }),
            final(self).keys() =~= old(self).keys().push(key@),
            final(self).vals() =~= old(self).vals().push(idx),
            final(self).spec_get(key@) == Some(idx),
    {
        proof {
            lemma_map_get_none_no_key(self.entries@, key@);
        }
        let ghost pre = *self;
        self.entries.push(VisitedEntry { key, idx });
        proof {
            assert(self.keys() =~= pre.keys().push(self.entries@.last().key@));
            assert(self.vals() =~= pre.vals().push(idx));
            assert forall|a: int, b: int|
                0 <= a < b < self.keys().len() implies self.keys()[a] != self.keys()[b] by {
                if b < pre.keys().len() {
                } else {
                    assert(self.keys()[b] == self.entries@.last().key@);
                    assert(!pre.keys().contains(self.keys()[b]));
                    assert(pre.keys()[a] == self.keys()[a]);
                }
            }
            assert forall|a: int, b: int|
                0 <= a < b < self.vals().len() implies self.vals()[a] != self.vals()[b] by {
                if b < pre.vals().len() {
                } else {
                    assert(self.vals()[b] == idx);
                    assert(!pre.vals().contains(idx));
                    assert(pre.vals()[a] == self.vals()[a]);
                }
            }
            lemma_map_get_push_found(pre.entries@, key@, idx);
        }
    }
}

/// The first index stored for `key` in a run of entries.
pub open spec fn spec_map_get(entries: Seq<VisitedEntry>, key: Seq<char>) -> Option<usize>
    decreases entries.len(),
{
    if entries.len() == 0 {
        None
    } else if entries[0].key@ == key {
        Some(entries[0].idx)
    } else {
        spec_map_get(entries.subrange(1, entries.len() as int), key)
    }
}

/// A hit at position `i` with no earlier hit makes `spec_map_get`
/// return that entry's index.
proof fn lemma_map_get_found(entries: Seq<VisitedEntry>, key: Seq<char>, i: int)
    requires
        0 <= i < entries.len(),
        entries[i].key@ == key,
        forall|j: int| 0 <= j < i ==> (#[trigger] entries[j]).key@ != key,
    ensures
        spec_map_get(entries, key) == Some(entries[i].idx),
    decreases entries.len(),
{
    if i == 0 {
    } else {
        let rest = entries.subrange(1, entries.len() as int);
        assert forall|j: int| 0 <= j < i - 1 implies (#[trigger] rest[j]).key@ != key by {
            assert(rest[j] == entries[j + 1]);
        }
        assert(rest[i - 1] == entries[i]);
        lemma_map_get_found(rest, key, i - 1);
    }
}

/// A found key's index is among the stored indices.
proof fn lemma_map_get_some_in_idxs(entries: Seq<VisitedEntry>, key: Seq<char>)
    ensures
        spec_map_get(entries, key) matches Some(v) ==> exists|i: int|
            0 <= i < entries.len() && (#[trigger] entries[i]).idx == v,
    decreases entries.len(),
{
    if entries.len() > 0 {
        if entries[0].key@ == key {
        } else {
            let rest = entries.subrange(1, entries.len() as int);
            lemma_map_get_some_in_idxs(rest, key);
            if spec_map_get(entries, key) is Some {
                let v = spec_map_get(entries, key)->Some_0;
                let i = choose|i: int| 0 <= i < rest.len() && (#[trigger] rest[i]).idx == v;
                assert(entries[i + 1] == rest[i]);
            }
        }
    }
}

/// A found identity's index is among the map's values.
pub proof fn lemma_get_in_vals(mm: &VisitedMap, key: Seq<char>)
    ensures
        mm.spec_get(key) matches Some(v) ==> mm.vals().contains(v),
{
    lemma_map_get_some_in_idxs(mm.entries@, key);
    if mm.spec_get(key) is Some {
        let v = mm.spec_get(key)->Some_0;
        let i = choose|i: int|
            0 <= i < mm.entries@.len() && (#[trigger] mm.entries@[i]).idx == v;
        assert(mm.vals()[i] == v);
    }
}

/// Extending the map leaves an already-found identity found, at the
/// same index.
pub proof fn lemma_map_get_stable(a: Seq<VisitedEntry>, b: Seq<VisitedEntry>, k: Seq<char>)
    requires
        a.len() <= b.len(),
        forall|i: int| 0 <= i < a.len() ==> #[trigger] b[i] == a[i],
        spec_map_get(a, k) is Some,
    ensures
        spec_map_get(b, k) == spec_map_get(a, k),
    decreases a.len(),
{
    if a.len() > 0 {
        assert(b[0] == a[0]);
        if a[0].key@ == k {
        } else {
            let ta = a.subrange(1, a.len() as int);
            let tb = b.subrange(1, b.len() as int);
            assert forall|i: int| 0 <= i < ta.len() implies #[trigger] tb[i] == ta[i] by {
                assert(ta[i] == a[i + 1]);
                assert(tb[i] == b[i + 1]);
            }
            lemma_map_get_stable(ta, tb, k);
        }
    }
}

/// A missing key has no entry at all.
proof fn lemma_map_get_none_no_key(entries: Seq<VisitedEntry>, key: Seq<char>)
    requires
        spec_map_get(entries, key) is None,
    ensures
        forall|j: int| 0 <= j < entries.len() ==> (#[trigger] entries[j]).key@ != key,
    decreases entries.len(),
{
    if entries.len() > 0 {
        let rest = entries.subrange(1, entries.len() as int);
        lemma_map_get_none_no_key(rest, key);
        assert forall|j: int| 0 <= j < entries.len() implies (#[trigger] entries[j]).key@ != key by {
            if j > 0 {
                assert(rest[j - 1] == entries[j]);
            }
        }
    }
}

/// Appending a fresh key makes it found.
proof fn lemma_map_get_push_found(entries: Seq<VisitedEntry>, key: Seq<char>, idx: usize)
    requires
        spec_map_get(entries, key) is None,
    ensures
        forall|e: VisitedEntry|
            e.key@ == key && e.idx == idx ==> spec_map_get(entries.push(e), key) == Some(idx),
    decreases entries.len(),
{
    assert forall|e: VisitedEntry|
        e.key@ == key && e.idx == idx implies spec_map_get(entries.push(e), key) == Some(idx) by {
        if entries.len() == 0 {
            assert(entries.push(e)[0] == e);
        } else {
            let rest = entries.subrange(1, entries.len() as int);
            lemma_map_get_push_found(rest, key, idx);
            assert(entries.push(e).subrange(1, entries.push(e).len() as int) =~= rest.push(e));
            assert(entries.push(e)[0] == entries[0]);
        }
    }
}

/// One answer of the resolver collaborator: what `specifier`, asked
/// from `importer` (or from anywhere, when `importer` is `None`),
/// resolves to.
pub struct ResolverEntry {
    pub importer: Option<String>,
    pub specifier: String,
    pub resolved: ResolvedId,
}

/// The resolver collaborator, as data: the finite answer table a build
/// runs against. Resolution is a pure lookup, so a build is
/// deterministic in it.
pub struct Resolver {
    pub entries: Vec<ResolverEntry>,
}

/// Whether a resolver entry answers the question.
pub open spec fn spec_entry_matches(
    e: ResolverEntry,
    specifier: Seq<char>,
    importer: Option<Seq<char>>,
) -> bool {
    e.specifier@ == specifier && (e.importer is None || (importer is Some
        && e.importer->Some_0@ == importer->Some_0))
}

/// The first matching answer.
pub open spec fn spec_resolve(
    entries: Seq<ResolverEntry>,
    specifier: Seq<char>,
    importer: Option<Seq<char>>,
) -> Option<ResolvedId>
    decreases entries.len(),
{
    if entries.len() == 0 {
        None
    } else if spec_entry_matches(entries[0], specifier, importer) {
        Some(entries[0].resolved)
    } else {
        spec_resolve(entries.subrange(1, entries.len() as int), specifier, importer)
    }
}

/// Copies a resolution, preserving its value.
pub fn clone_resolved_id_pub(r: &ResolvedId) -> (out: ResolvedId)
    ensures
        out == *r,
{
    clone_resolved_id(r)
}

/// Copies a resolution, preserving its value.
fn clone_resolved_id(r: &ResolvedId) -> (out: ResolvedId)
    ensures
        out == *r,
{
    ResolvedId {
        id: r.id.clone(),
        ignored: r.ignored,
        module_def_format: r.module_def_format,
        is_external: r.is_external,
        side_effects: r.side_effects,
        is_external_without_side_effects: r.is_external_without_side_effects,
    }
}

impl Resolver {
    /// Asks the table what `specifier` resolves to for `importer`.
    #[verifier::loop_isolation(false)]
    pub fn resolve(&self, specifier: &String, importer: Option<&String>) -> (r: Option<ResolvedId>)
        ensures
            r == spec_resolve(
                self.entries@,
                specifier@,
                match importer {
                    Some(s) => Some(s@),
                    None => None,
                },
            ),
    {
        let ghost imp: Option<Seq<char>> = match importer {
            Some(s) => Some(s@),
            None => None,
        };
        proof {
            assert(self.entries@.subrange(0, self.entries@.len() as int) =~= self.entries@);
        }
        let mut i: usize = 0;
        while i < self.entries.len()
            invariant
                i <= self.entries@.len(),
                spec_resolve(
                    self.entries@.subrange(i as int, self.entries@.len() as int),
                    specifier@,
                    imp,
                ) == spec_resolve(self.entries@, specifier@, imp),
                forall|j: int|
                    0 <= j < i ==> !spec_entry_matches(
                        #[trigger] self.entries@[j],
                        specifier@,
                        imp,
                    ),
            decreases self.entries@.len() - i,
        {
            proof {
                assert(self.entries@.subrange(i as int, self.entries@.len() as int)[0]
                    == self.entries@[i as int]);
            }
            let e = &self.entries[i];
            let spec_ok = e.specifier.eq(specifier);
            let imp_ok = match (&e.importer, importer) {
                (None, _) => true,
                (Some(ei), Some(qi)) => ei.eq(qi),
                (Some(_), None) => false,
            };
            if spec_ok && imp_ok {
                proof {
                    assert(spec_entry_matches(self.entries@[i as int], specifier@, imp));
                }
                return Some(clone_resolved_id(&e.resolved));
            }
            proof {
                assert(!spec_entry_matches(self.entries@[i as int], specifier@, imp));
                assert(self.entries@.subrange(i as int, self.entries@.len() as int).subrange(
                    1,
                    self.entries@.subrange(i as int, self.entries@.len() as int).len() as int,
                ) =~= self.entries@.subrange(i + 1, self.entries@.len() as int));
            }
            i += 1;
        }
        proof {
            assert(self.entries@.subrange(
                self.entries@.len() as int,
                self.entries@.len() as int,
            ) =~= Seq::<ResolverEntry>::empty());
        }
        None
    }
}

/// One module's content, as the parser collaborator delivers it. The
/// loader takes the parsed input out when the module's task runs;
/// after that the slot is empty.
pub struct ModuleSource {
    pub id: String,
    pub input: Option<ModuleInput>,
}

/// The parsed contents a build runs against, keyed by resolved
/// identity.
pub struct SourceTable {
    pub entries: Vec<ModuleSource>,
}

/// The position of the first source stored for an identity.
pub open spec fn spec_source_first(entries: Seq<ModuleSource>, id: Seq<char>, i: int) -> Option<int>
    decreases entries.len() - i,
{
    if i < 0 || i >= entries.len() {
        None
    } else if entries[i].id@ == id {
        Some(i)
    } else {
        spec_source_first(entries, id, i + 1)
    }
}

/// What taking an identity's input yields: the first matching slot's
/// remaining content.
pub open spec fn spec_source_take(entries: Seq<ModuleSource>, id: Seq<char>) -> Option<ModuleInput> {
    match spec_source_first(entries, id, 0) {
        None => None,
        Some(i) => entries[i].input,
    }
}

impl SourceTable {
    /// Moves the content stored for an identity out of the table; a
    /// second take of the same identity finds the slot empty.
    #[verifier::loop_isolation(false)]
    pub fn take_input(&mut self, id: &String) -> (r: Option<ModuleInput>)
        ensures
            r == spec_source_take(old(self).entries@, id@),
            final(self).entries@.len() == old(self).entries@.len(),
            forall|j: int|
                0 <= j < final(self).entries@.len() ==> (#[trigger] final(self).entries@[j]).id@
                    == old(self).entries@[j].id@ && (final(self).entries@[j].input is Some
                    ==> final(self).entries@[j] == old(self).entries@[j]),
    {
        let mut i: usize = 0;
        while i < self.entries.len()
            invariant
                i <= self.entries@.len(),
                self == old(self),
                spec_source_first(self.entries@, id@, 0) == spec_source_first(
                    self.entries@,
                    id@,
                    i as int,
                ),
                forall|j: int| 0 <= j < i ==> (#[trigger] self.entries@[j]).id@ != id@,
            decreases self.entries@.len() - i,
        {
            if self.entries[i].id.eq(id) {
                let mut taken: Option<ModuleInput> = None;
                core::mem::swap(&mut taken, &mut self.entries[i].input);
                proof {
                    assert(self.entries@[i as int].id@ == old(self).entries@[i as int].id@);
                }
                return taken;
            }
            i += 1;
        }
        None
    }
}

/// What an external module's side-effect determination is, given the
/// hook's verdict and the global tree-shaking configuration.
///
/// A hook verdict wins. Without one, disabled tree-shaking means
/// nothing is shaken; enabled-as-a-plain-boolean is normalized away
/// upstream, so meeting it here is an error rather than an
/// assumption; and option-form configuration falls back to its
/// per-module default.
pub open spec fn spec_external_side_effects(
    treeshake: TreeshakeOptions,
    hook: Option<HookSideEffects>,
) -> Result<DeterminedSideEffects, ()> {
    match hook {
        Some(HookSideEffects::True) => Ok(DeterminedSideEffects::UserDefined(true)),
        Some(HookSideEffects::False) => Ok(DeterminedSideEffects::UserDefined(false)),
        Some(HookSideEffects::NoTreeshake) => Ok(DeterminedSideEffects::NoTreeshake),
        None => match treeshake {
            TreeshakeOptions::Boolean(false) => Ok(DeterminedSideEffects::NoTreeshake),
            TreeshakeOptions::Boolean(true) => Err(()),
            TreeshakeOptions::Option(ModuleSideEffectsOption::Boolean(false)) => Ok(
                DeterminedSideEffects::UserDefined(false),
            ),
            TreeshakeOptions::Option(ModuleSideEffectsOption::Boolean(true)) => Ok(
                DeterminedSideEffects::NoTreeshake,
            ),
        },
    }
}

/// What an external module's stored determination is: the hook
/// verdict first, the tree-shaking configuration after it, for every
/// resolution alike.
pub open spec fn spec_external_determined(
    options: NormalizedBundlerOptions,
    rid: ResolvedId,
) -> Result<DeterminedSideEffects, ()> {
    spec_external_side_effects(options.treeshake, rid.side_effects)
}

/// What a freshly spawned identity leaves behind: the allocation, the
/// visited-map entry, and — per the identity's class — either the
/// stored external module with its facade binding, exactly one queued
/// analysis message, or the queued defensive error.
pub open spec fn spec_spawn_miss_effect(
    pre_visited: Seq<VisitedEntry>,
    pre_modules: Seq<Option<Module>>,
    pre_remaining: nat,
    pre_queue_len: nat,
    post_visited: Seq<VisitedEntry>,
    post_modules: Seq<Option<Module>>,
    post_symbols: SymbolRefDb,
    post_remaining: nat,
    post_queue: Seq<ModuleLoaderMsg>,
    options: NormalizedBundlerOptions,
    resolved_id: ResolvedId,
    idx: usize,
) -> bool {
    let pre_modules_len = pre_modules.len();
    &&& idx == pre_modules_len
    &&& post_visited == pre_visited.push(VisitedEntry { key: resolved_id.id, idx })
    &&& post_modules.len() == pre_modules_len + 1
    &&& forall|j: int| 0 <= j < pre_modules.len() ==> #[trigger] post_modules[j] == pre_modules[j]
    &&& (resolved_id.is_external ==> match spec_external_determined(options, resolved_id) {
        Ok(d) => {
            &&& post_modules[idx as int] matches Some(Module::External(e)) && {
                &&& e.idx == idx
                &&& e.id == resolved_id.id
                &&& e.side_effects == d
                &&& post_symbols.valid_ref(e.namespace_ref)
                &&& post_symbols.is_root(e.namespace_ref)
                &&& post_symbols.spec_name(e.namespace_ref) == spec_legitimize(resolved_id.id@)
            }
            &&& post_remaining == pre_remaining
            &&& post_queue.len() == pre_queue_len
        },
        Err(_) => {
            &&& post_remaining == pre_remaining + 1
            &&& post_queue.len() == pre_queue_len + 1
            &&& post_queue.last() matches ModuleLoaderMsg::BuildErrors(errs) && errs@.len() == 1
                && errs@[0].kind == EventKind::InvalidOption
        },
    })
    &&& (!resolved_id.is_external ==> {
        &&& post_remaining == pre_remaining + 1
        &&& post_queue.len() == pre_queue_len + 1
        &&& post_modules[idx as int] is None
    })
}

/// Decides an external module's side effects; the structurally
/// impossible configuration is a defensive error, not an assumption.
pub fn determine_external_side_effects(
    options: &NormalizedBundlerOptions,
    hook: Option<HookSideEffects>,
) -> (r: Result<DeterminedSideEffects, BuildDiagnostic>)
    ensures
        match r {
            Ok(d) => spec_external_side_effects(options.treeshake, hook) == Ok::<_, ()>(d),
            Err(e) => spec_external_side_effects(options.treeshake, hook) == Err::<
                DeterminedSideEffects,
                _,
            >(()) && e.kind == EventKind::InvalidOption,
        },
{
    match hook {
        Some(HookSideEffects::True) => Ok(DeterminedSideEffects::UserDefined(true)),
        Some(HookSideEffects::False) => Ok(DeterminedSideEffects::UserDefined(false)),
        Some(HookSideEffects::NoTreeshake) => Ok(DeterminedSideEffects::NoTreeshake),
        None => match options.treeshake {
            TreeshakeOptions::Boolean(false) => Ok(DeterminedSideEffects::NoTreeshake),
            TreeshakeOptions::Boolean(true) => Err(
                BuildDiagnostic::new(
                    EventKind::InvalidOption,
                    String::from_str(
                        "tree-shaking enabled as a plain boolean should have been normalized upstream",
                    ),
                ),
            ),
            TreeshakeOptions::Option(ModuleSideEffectsOption::Boolean(false)) => Ok(
                DeterminedSideEffects::UserDefined(false),
            ),
            TreeshakeOptions::Option(ModuleSideEffectsOption::Boolean(true)) => Ok(
                DeterminedSideEffects::NoTreeshake,
            ),
        },
    }
}


/// One message of the loader's channel.
pub enum ModuleLoaderMsg {
    NormalModuleDone(NormalModuleTaskResult),
    RuntimeNormalModuleDone(RuntimeModuleTaskResult),
    FetchModule(ResolvedId),
    BuildErrors(Vec<BuildDiagnostic>),
}

/// A normal module's side-effect determination: the hook's verdict
/// when there is one, the scan's answer otherwise.
pub open spec fn spec_normal_side_effects(
    hook: Option<HookSideEffects>,
    analyzed: bool,
) -> DeterminedSideEffects {
    match hook {
        Some(HookSideEffects::True) => DeterminedSideEffects::UserDefined(true),
        Some(HookSideEffects::False) => DeterminedSideEffects::UserDefined(false),
        Some(HookSideEffects::NoTreeshake) => DeterminedSideEffects::NoTreeshake,
        None => DeterminedSideEffects::Analyzed(analyzed),
    }
}

/// Some statement keeps its own side effects.
pub open spec fn spec_any_stmt_side_effects(stmts: Seq<crate::module::AstStmt>) -> bool {
    exists|i: int| 0 <= i < stmts.len() && spec_stmt_side_effects(#[trigger] stmts[i])
}

/// Every dependency of the first `n` import records resolves.
pub open spec fn spec_all_deps_resolve(
    resolver: Seq<ResolverEntry>,
    records: Seq<RawImportRecord>,
    importer: Seq<char>,
) -> bool {
    forall|k: int|
        0 <= k < records.len() ==> spec_resolve(
            resolver,
            (#[trigger] records[k]).specifier@,
            Some(importer),
        ) is Some
}

/// Runs one module analysis task to completion: takes the module's
/// parsed content, scans it, resolves its dependencies, and hands back
/// either the finished module or the diagnostics that stopped it.
///
/// The task is deterministic: the message is a function of the
/// resolver table, the source table and the identity.
#[verifier::loop_isolation(false)]
pub fn run_module_task(
    resolver: &Resolver,
    sources: &mut SourceTable,
    idx: usize,
    resolved_id: &ResolvedId,
    is_user_defined_entry: bool,
) -> (msg: ModuleLoaderMsg)
    ensures
        ({
            let taken = spec_source_take(old(sources).entries@, resolved_id.id@);
            match msg {
                ModuleLoaderMsg::NormalModuleDone(tr) => {
                    let inp = taken->Some_0;
                    let stmts = inp.stmts@;
                    let n = stmts.len() as int;
                    let flag = spec_flag_of_sites(inp.interop_sites@);
                    &&& taken is Some
                    &&& spec_input_valid(inp)
                    &&& spec_all_deps_resolve(
                        resolver.entries@,
                        spec_import_records(stmts, n),
                        resolved_id.id@,
                    )
                    &&& tr.module_idx == idx
                    &&& tr.raw_import_records@ == spec_import_records(stmts, n)
                    &&& tr.resolved_deps@.len() == tr.raw_import_records@.len()
                    &&& forall|k: int|
                        0 <= k < tr.resolved_deps@.len() ==> #[trigger] tr.resolved_deps@[k]
                            == spec_resolve(
                            resolver.entries@,
                            spec_import_records(stmts, n)[k].specifier@,
                            Some(resolved_id.id@),
                        )->Some_0
                    &&& tr.ecma_related matches Some(er) && {
                        &&& er.ast.stmts == inp.stmts
                        &&& er.symbols@.len() == inp.local_names@.len() + 1
                        &&& forall|i: int|
                            0 <= i < er.symbols@.len() ==> (#[trigger] er.symbols@[i]).link
                                is None
                    }
                    &&& forall|i: int|
                        0 <= i < tr.warnings@.len() ==> (#[trigger] tr.warnings@[i]).kind
                            == EventKind::InteropAmbiguity
                    &&& tr.module matches Module::Normal(m) && {
                        &&& m.idx == idx
                        &&& m.id == resolved_id.id
                        &&& m.stable_id == resolved_id.id
                        &&& m.repr_name@ == spec_legitimize(resolved_id.id@)
                        &&& m.exec_order == u32::MAX
                        &&& m.is_user_defined_entry == is_user_defined_entry
                        &&& m.def_format == resolved_id.module_def_format
                        &&& m.exports_kind == spec_exports_kind(
                            stmts,
                            resolved_id.module_def_format,
                            flag,
                        )
                        &&& m.named_imports@ == spec_named_imports(idx, stmts, n)
                        &&& m.named_exports@.len() == spec_export_names(stmts, n).len()
                        &&& forall|i: int|
                            0 <= i < m.named_exports@.len() ==> (
                            #[trigger] m.named_exports@[i]).exported@ == spec_export_names(
                                stmts,
                                n,
                            )[i] && m.named_exports@[i].referenced == spec_export_refs(
                                idx,
                                stmts,
                                n,
                            )[i]
                        &&& m.default_export_ref == spec_default_export(idx, stmts, n)
                        &&& m.namespace_object_ref == (SymbolRef {
                            module: idx,
                            symbol: inp.local_names@.len() as usize,
                        })
                        &&& m.stmt_infos@.len() == stmts.len()
                        &&& forall|i: int|
                            0 <= i < stmts.len() ==> {
                                &&& (#[trigger] m.stmt_infos@[i]).side_effects
                                    == spec_stmt_side_effects(stmts[i])
                                &&& m.stmt_infos@[i].declared@ == spec_declared_of(
                                    idx,
                                    stmts[i],
                                )
                                &&& m.stmt_infos@[i].referenced@ == spec_referenced_of(
                                    idx,
                                    stmts[i],
                                )
                            }
                        &&& m.side_effects == spec_normal_side_effects(
                            resolved_id.side_effects,
                            spec_any_stmt_side_effects(stmts),
                        )
                        &&& m.has_eval == inp.has_eval
                        &&& m.has_star_exports == spec_has_star_export(stmts)
                        &&& m.es_module_flag == flag
                        &&& m.import_records@.len() == 0
                        &&& m.ecma_ast_idx is None
                        &&& !m.included
                    }
                },
                ModuleLoaderMsg::BuildErrors(errs) => {
                    &&& errs@.len() >= 1
                    &&& forall|i: int|
                        0 <= i < errs@.len() ==> (#[trigger] errs@[i]).kind
                            == EventKind::ResolutionError || errs@[i].kind
                            == EventKind::ParseError
                    &&& (taken is None || !spec_input_valid(taken->Some_0)
                        || !spec_all_deps_resolve(
                        resolver.entries@,
                        spec_import_records(
                            taken->Some_0.stmts@,
                            taken->Some_0.stmts@.len() as int,
                        ),
                        resolved_id.id@,
                    ))
                },
                _ => false,
            }
        }),
{
    let taken = sources.take_input(&resolved_id.id);
    let inp = match taken {
        Some(i) => i,
        None => {
            let mut errs: Vec<BuildDiagnostic> = Vec::new();
            let mut message = String::from_str("no content for module ");
            message.append(resolved_id.id.as_str());
            errs.push(BuildDiagnostic::new(EventKind::ResolutionError, message));
            return ModuleLoaderMsg::BuildErrors(errs);
        },
    };
    let repr_name = legitimize_identifier_name(resolved_id.id.as_str());
    let n_locals = inp.local_names.len();
    let scan = scan_module(idx, &repr_name, resolved_id.module_def_format, &inp);
    if scan.errors.len() > 0 {
        return ModuleLoaderMsg::BuildErrors(scan.errors);
    }
    let mut resolved_deps: Vec<ResolvedId> = Vec::new();
    let mut errs: Vec<BuildDiagnostic> = Vec::new();
    let ghost stmts = inp.stmts@;
    let ghost n = stmts.len() as int;
    let ghost records = spec_import_records(stmts, n);
    let mut k: usize = 0;
    while k < scan.import_records.len()
        invariant
            k <= scan.import_records@.len(),
            scan.import_records@ == records,
            errs@.len() == 0 ==> {
                &&& resolved_deps@.len() == k
                &&& forall|j: int|
                    0 <= j < k ==> #[trigger] resolved_deps@[j] == spec_resolve(
                        resolver.entries@,
                        records[j].specifier@,
                        Some(resolved_id.id@),
                    )->Some_0
                &&& forall|j: int|
                    0 <= j < k ==> spec_resolve(
                        resolver.entries@,
                        (#[trigger] records[j]).specifier@,
                        Some(resolved_id.id@),
                    ) is Some
            },
            errs@.len() >= 1 ==> exists|j: int|
                0 <= j < k && spec_resolve(
                    resolver.entries@,
                    (#[trigger] records[j]).specifier@,
                    Some(resolved_id.id@),
                ) is None,
            forall|i: int|
                0 <= i < errs@.len() ==> (#[trigger] errs@[i]).kind == EventKind::ResolutionError,
        decreases scan.import_records@.len() - k,
    {
        match resolver.resolve(&scan.import_records[k].specifier, Some(&resolved_id.id)) {
            Some(rid) => {
                resolved_deps.push(rid);
            },
            None => {
                let mut message = String::from_str("cannot resolve ");
                message.append(scan.import_records[k].specifier.as_str());
                errs.push(BuildDiagnostic::new(EventKind::ResolutionError, message));
            },
        }
        k += 1;
    }
    if errs.len() > 0 {
        return ModuleLoaderMsg::BuildErrors(errs);
    }
    let analyzed = {
        let mut any = false;
        let mut i: usize = 0;
        while i < scan.stmt_infos.len()
            invariant
                i <= scan.stmt_infos@.len(),
                scan.stmt_infos@.len() == stmts.len(),
                forall|j: int|
                    0 <= j < stmts.len() ==> (#[trigger] scan.stmt_infos@[j]).side_effects
                        == spec_stmt_side_effects(stmts[j]),
                any == exists|j: int| 0 <= j < i && spec_stmt_side_effects(#[trigger] stmts[j]),
            decreases scan.stmt_infos@.len() - i,
        {
            if scan.stmt_infos[i].side_effects {
                any = true;
            }
            i += 1;
        }
        any
    };
    let side_effects = match resolved_id.side_effects {
        Some(HookSideEffects::True) => DeterminedSideEffects::UserDefined(true),
        Some(HookSideEffects::False) => DeterminedSideEffects::UserDefined(false),
        Some(HookSideEffects::NoTreeshake) => DeterminedSideEffects::NoTreeshake,
        None => DeterminedSideEffects::Analyzed(analyzed),
    };
    let module = NormalModule {
        idx,
        id: resolved_id.id.clone(),
        stable_id: resolved_id.id.clone(),
        repr_name,
        exec_order: u32::MAX,
        is_user_defined_entry,
        module_type: ModuleType::Js,
        def_format: resolved_id.module_def_format,
        exports_kind: scan.exports_kind,
        import_records: Vec::new(),
        named_imports: scan.named_imports,
        named_exports: scan.named_exports,
        default_export_ref: scan.default_export_ref,
        namespace_object_ref: scan.namespace_object_ref,
        stmt_infos: scan.stmt_infos,
        side_effects,
        has_eval: scan.has_eval,
        has_star_exports: scan.has_star_exports,
        es_module_flag: scan.es_module_flag,
        ecma_ast_idx: None,
        included: false,
    };
    let ast = EcmaAst { stmts: inp.stmts };
    ModuleLoaderMsg::NormalModuleDone(
        NormalModuleTaskResult {
            module_idx: idx,
            resolved_deps,
            module: Module::Normal(module),
            raw_import_records: scan.import_records,
            warnings: scan.warnings,
            ecma_related: Some(EcmaRelated { ast, symbols: scan.symbols }),
        },
    )
}


/// The resolved identities the resolver can ever answer with.
pub open spec fn spec_resolver_ids(entries: Seq<ResolverEntry>) -> Seq<Seq<char>> {
    Seq::new(entries.len(), |i: int| entries[i].resolved.id@)
}

/// Every identity the loader can visit: what the resolver answers,
/// plus the runtime module's own identity.
pub open spec fn spec_universe(entries: Seq<ResolverEntry>) -> Seq<Seq<char>> {
    spec_resolver_ids(entries).push("rolldown:runtime"@)
}

/// A successful resolution answers with one of the table's own
/// resolved identities.
pub proof fn lemma_resolve_in_ids_pub(
    entries: Seq<ResolverEntry>,
    specifier: Seq<char>,
    importer: Option<Seq<char>>,
)
    ensures
        spec_resolve(entries, specifier, importer) matches Some(rid) ==> spec_resolver_ids(
            entries,
        ).contains(rid.id@),
{
    lemma_resolve_in_ids(entries, specifier, importer);
}

/// A successful resolution answers with one of the table's own
/// resolved identities.
proof fn lemma_resolve_in_ids(
    entries: Seq<ResolverEntry>,
    specifier: Seq<char>,
    importer: Option<Seq<char>>,
)
    ensures
        spec_resolve(entries, specifier, importer) matches Some(rid) ==> spec_resolver_ids(
            entries,
        ).contains(rid.id@),
    decreases entries.len(),
{
    if entries.len() > 0 {
        if spec_entry_matches(entries[0], specifier, importer) {
            assert(spec_resolver_ids(entries)[0] == entries[0].resolved.id@);
        } else {
            let rest = entries.subrange(1, entries.len() as int);
            lemma_resolve_in_ids(rest, specifier, importer);
            if spec_resolve(entries, specifier, importer) is Some {
                let rid = spec_resolve(entries, specifier, importer)->Some_0;
                let j = choose|j: int|
                    0 <= j < spec_resolver_ids(rest).len() && spec_resolver_ids(rest)[j]
                        == rid.id@;
                assert(spec_resolver_ids(entries)[j + 1] == rest[j].resolved.id@);
            }
        }
    }
}

/// A duplicate-free sequence drawn from a universe is no longer than
/// the universe.
pub proof fn lemma_nodup_within_universe(keys: Seq<Seq<char>>, uni: Seq<Seq<char>>)
    requires
        keys.no_duplicates(),
        forall|i: int| 0 <= i < keys.len() ==> uni.contains(#[trigger] keys[i]),
    ensures
        keys.len() <= uni.len(),
{
    keys.unique_seq_to_set();
    uni.lemma_cardinality_of_set();
    assert forall|x: Seq<char>| keys.to_set().contains(x) implies uni.to_set().contains(x) by {
        assert(keys.contains(x));
        let i = choose|i: int| 0 <= i < keys.len() && keys[i] == x;
        assert(uni.contains(keys[i]));
    }
    assert(keys.to_set() <= uni.to_set());
    lemma_len_subset(keys.to_set(), uni.to_set());
}

/// What must hold of a message sitting in the queue for the consuming
/// loop to process it: target slots in range, dependency identities
/// drawn from the resolver, symbol entries unlinked, and tree and
/// metadata aligned.
pub open spec fn spec_msg_ok(
    msg: ModuleLoaderMsg,
    resolver: Seq<ResolverEntry>,
    mlen: nat,
) -> bool {
    match msg {
        ModuleLoaderMsg::NormalModuleDone(tr) => {
            &&& tr.module_idx < mlen
            &&& tr.raw_import_records@.len() == tr.resolved_deps@.len()
            &&& forall|k: int|
                0 <= k < tr.resolved_deps@.len() ==> spec_resolver_ids(resolver).contains(
                    (#[trigger] tr.resolved_deps@[k]).id@,
                )
            &&& forall|i: int|
                0 <= i < tr.warnings@.len() ==> (#[trigger] tr.warnings@[i]).kind
                    == EventKind::InteropAmbiguity
            &&& tr.module matches Module::Normal(m) && {
                &&& m.idx == tr.module_idx
                &&& tr.ecma_related is None ==> m.ecma_ast_idx is None
                &&& tr.ecma_related matches Some(er) ==> {
                    &&& forall|i: int|
                        0 <= i < er.symbols@.len() ==> (#[trigger] er.symbols@[i]).link is None
                    &&& m.stmt_infos@.len() == er.ast.stmts@.len()
                }
            }
        },
        ModuleLoaderMsg::RuntimeNormalModuleDone(tr) => {
            &&& tr.module.idx < mlen
            &&& tr.resolved_deps@.len() == 0
            &&& tr.module.stmt_infos@.len() == tr.ast.stmts@.len()
            &&& forall|i: int|
                0 <= i < tr.local_symbol_ref_db@.len() ==> (
                #[trigger] tr.local_symbol_ref_db@[i]).link is None
        },
        ModuleLoaderMsg::BuildErrors(errs) => errs@.len() >= 1,
        ModuleLoaderMsg::FetchModule(_) => false,
    }
}

/// The growing per-build stores: one slot per allocated module index,
/// and the table of parsed trees beside their owners.
pub struct IntermediateNormalModules {
    pub modules: Vec<Option<Module>>,
    pub index_ecma_ast: Vec<(EcmaAst, usize)>,
}

impl IntermediateNormalModules {
    /// Empty stores.
    pub fn new() -> (r: IntermediateNormalModules)
        ensures
            r.modules@.len() == 0,
            r.index_ecma_ast@.len() == 0,
    {
        IntermediateNormalModules { modules: Vec::new(), index_ecma_ast: Vec::new() }
    }

    /// Allocates the next module index; the slot starts unfilled.
    pub fn alloc_ecma_module_idx(&mut self) -> (idx: usize)
        ensures
            idx == old(self).modules@.len(),
            final(self).modules@ == old(self).modules@.push(None),
            final(self).index_ecma_ast == old(self).index_ecma_ast,
    {
        let idx = self.modules.len();
        self.modules.push(None);
        idx
    }
}

/// What the loader hands to the next stage once the graph is
/// complete.
pub struct ModuleLoaderOutput {
    pub module_table: ModuleTable,
    pub module_id_to_modules: VisitedMap,
    pub index_ecma_ast: Vec<(EcmaAst, usize)>,
    pub symbol_ref_db: SymbolRefDb,
    pub warnings: Vec<BuildDiagnostic>,
    pub runtime: RuntimeModuleBrief,
    pub entry_points: Vec<usize>,
}

/// Trees sit beside their owners: a module's `ecma_ast_idx` points at
/// an entry owned by that module, with as many statement-info entries
/// as tree statements.
pub open spec fn spec_ast_aligned(
    modules: Seq<Option<Module>>,
    asts: Seq<(EcmaAst, usize)>,
) -> bool {
    forall|i: int|
        0 <= i < modules.len() ==> match #[trigger] modules[i] {
            Some(Module::Normal(m)) => m.ecma_ast_idx matches Some(a) ==> 0 <= a < asts.len()
                && asts[a as int].1 == m.idx && m.stmt_infos@.len() == asts[
                a as int
            ].0.stmts@.len(),
            _ => true,
        }
}

/// The batch carries at least one resolution failure.
pub open spec fn spec_errs_have_resolution_error(errs: Seq<BuildDiagnostic>) -> bool {
    exists|q: int| 0 <= q < errs.len() && (#[trigger] errs[q]).kind == EventKind::ResolutionError
}

/// Some requested entry has no resolution at all.
pub open spec fn spec_some_entry_unresolvable(
    entries: Seq<String>,
    resolver: Seq<ResolverEntry>,
) -> bool {
    exists|j: int|
        0 <= j < entries.len() && spec_resolve(resolver, (#[trigger] entries[j])@, None) is None
}

/// Trees sit beside their owners in a finished table.
pub open spec fn spec_table_ast_aligned(modules: Seq<Module>, asts: Seq<(EcmaAst, usize)>) -> bool {
    forall|i: int|
        0 <= i < modules.len() ==> match #[trigger] modules[i] {
            Module::Normal(m) => m.ecma_ast_idx matches Some(a) ==> 0 <= a < asts.len()
                && asts[a as int].1 == m.idx && m.stmt_infos@.len() == asts[
                a as int
            ].0.stmts@.len(),
            _ => true,
        }
}

/// The module-graph loader: the message queue standing for the
/// bounded channel (the consuming cursor never outruns the tail), the
/// visited map, the outstanding-task counter and the growing stores.
pub struct ModuleLoader {
    pub options: NormalizedBundlerOptions,
    pub queue: Vec<ModuleLoaderMsg>,
    pub qhead: usize,
    pub visited: VisitedMap,
    pub remaining: usize,
    pub inm: IntermediateNormalModules,
    pub symbols: SymbolRefDb,
}

impl ModuleLoader {
    /// The loader's working invariant against a fixed resolver table.
    pub open spec fn inv(&self, resolver: Seq<ResolverEntry>) -> bool {
        &&& self.visited.wf()
        &&& self.symbols.wf()
        &&& forall|s: SymbolRef|
            self.symbols.valid_ref(s) ==> (#[trigger] self.symbols.spec_link(s)) is None
        &&& self.qhead <= self.queue@.len()
        &&& self.remaining as int == self.queue@.len() - self.qhead
        &&& self.visited.entries@.len() == self.inm.modules@.len()
        &&& forall|i: int|
            0 <= i < self.visited.vals().len() ==> (#[trigger] self.visited.vals()[i])
                < self.inm.modules@.len()
        &&& forall|i: int|
            0 <= i < self.visited.keys().len() ==> spec_universe(resolver).contains(
                #[trigger] self.visited.keys()[i],
            )
        &&& forall|q: int|
            self.qhead <= q < self.queue@.len() ==> spec_msg_ok(
                #[trigger] self.queue@[q],
                resolver,
                self.inm.modules@.len(),
            )
        &&& forall|m: int|
            0 <= m < self.inm.modules@.len() ==> match #[trigger] self.inm.modules@[m] {
                Some(mo) => mo.spec_idx() == m,
                None => true,
            }
        &&& spec_ast_aligned(self.inm.modules@, self.inm.index_ecma_ast@)
    }

    /// A fresh loader for one build.
    pub fn new(options: NormalizedBundlerOptions) -> (r: ModuleLoader)
        ensures
            r.queue@.len() == 0,
            r.qhead == 0,
            r.remaining == 0,
            r.visited.entries@.len() == 0,
            r.inm.modules@.len() == 0,
            r.inm.index_ecma_ast@.len() == 0,
            r.symbols.local@.len() == 0,
            r.options == options,
    {
        ModuleLoader {
            options,
            queue: Vec::new(),
            qhead: 0,
            visited: VisitedMap::new(),
            remaining: 0,
            inm: IntermediateNormalModules::new(),
            symbols: SymbolRefDb::new(),
        }
    }

    /// Resolves one identity to a module index, spawning its analysis
    /// task if it has not been seen: an already-visited identity is
    /// never re-parsed, only referenced.
    #[verifier::loop_isolation(false)]
    pub fn try_spawn_new_task(
        &mut self,
        resolved_id: ResolvedId,
        is_user_defined_entry: bool,
        resolver: &Resolver,
        sources: &mut SourceTable,
    ) -> (idx: usize)
        requires
            old(self).inv(resolver.entries@),
            spec_universe(resolver.entries@).contains(resolved_id.id@),
        ensures
            final(self).inv(resolver.entries@),
            final(self).visited.spec_get(resolved_id.id@) == Some(idx),
            final(self).qhead == old(self).qhead,
            final(self).queue@.len() >= old(self).queue@.len(),
            forall|q: int|
                0 <= q < old(self).queue@.len() ==> final(self).queue@[q] == old(self).queue@[q],
            final(self).visited.entries@.len() >= old(self).visited.entries@.len(),
            old(self).visited.spec_get(resolved_id.id@) matches Some(i0) ==> (idx == i0 && *final(self) == *old(self) && *final(sources) == *old(sources)),
            old(self).visited.spec_get(resolved_id.id@) is None ==> spec_spawn_miss_effect(
                old(self).visited.entries@,
                old(self).inm.modules@,
                old(self).remaining as nat,
                old(self).queue@.len(),
                final(self).visited.entries@,
                final(self).inm.modules@,
                final(self).symbols,
                final(self).remaining as nat,
                final(self).queue@,
                old(self).options,
                resolved_id,
                idx,
            ),
            final(self).options == old(self).options,
    {
        let ghost rid = resolved_id;
        let existing = self.visited.get(&resolved_id.id);
        match existing {
            Some(i0) => i0,
            None => {
                let idx = self.inm.alloc_ecma_module_idx();
                proof {
                    assert(!self.visited.vals().contains(idx)) by {
                        if self.visited.vals().contains(idx) {
                            let i = choose|i: int|
                                0 <= i < self.visited.vals().len() && self.visited.vals()[i]
                                    == idx;
                            assert(self.visited.vals()[i] < idx);
                        }
                    }
                }
                let ghost pre_modules = self.inm.modules@;
                if resolved_id.is_external {
                    let side_effects = match determine_external_side_effects(
                        &self.options,
                        resolved_id.side_effects,
                    ) {
                        Ok(d) => d,
                        Err(diag) => {
                            // the structurally impossible configuration becomes
                            // a failed task, not a silent presumption
                            self.visited.insert(resolved_id.id, idx);
                            let mut errs: Vec<BuildDiagnostic> = Vec::new();
                            errs.push(diag);
                            self.queue.push(ModuleLoaderMsg::BuildErrors(errs));
                            proof {
                                assert(self.queue@.len()
                                    == vstd::std_specs::vec::spec_vec_len(&self.queue));
                            }
                            self.remaining = self.remaining + 1;
                            proof {
                                lemma_msg_ok_grow(
                                    self.queue@,
                                    self.qhead as int,
                                    resolver.entries@,
                                    pre_modules.len(),
                                    self.inm.modules@.len(),
                                );
                            }
                            return idx;
                        },
                    };
                    let name = legitimize_identifier_name(resolved_id.id.as_str());
                    let namespace_ref = self.symbols.create_facade_root_symbol_ref(idx, name);
                    let ext = crate::module::ExternalModule::new(
                        idx,
                        resolved_id.id.clone(),
                        side_effects,
                        namespace_ref,
                    );
                    self.visited.insert(resolved_id.id, idx);
                    self.inm.modules[idx] = Some(Module::External(ext));
                    proof {
                        assert(self.inm.modules@ == pre_modules.update(
                            idx as int,
                            Some(Module::External(ext)),
                        ));
                        lemma_msg_ok_grow(
                            self.queue@,
                            self.qhead as int,
                            resolver.entries@,
                            pre_modules.len(),
                            self.inm.modules@.len(),
                        );
                        assert forall|s: SymbolRef|
                            self.symbols.valid_ref(s) implies (
                        #[trigger] self.symbols.spec_link(s)) is None by {
                            if old(self).symbols.valid_ref(s) {
                                assert(self.symbols.spec_link(s) == old(self).symbols.spec_link(
                                    s,
                                ));
                            }
                        }
                    }
                    idx
                } else {
                    self.visited.insert(resolved_id.id.clone(), idx);
                    let msg = run_module_task(
                        resolver,
                        sources,
                        idx,
                        &resolved_id,
                        is_user_defined_entry,
                    );
                    proof {
                        match &msg {
                            ModuleLoaderMsg::NormalModuleDone(tr) => {
                                assert forall|k: int|
                                    0 <= k < tr.resolved_deps@.len() implies spec_resolver_ids(
                                    resolver.entries@,
                                ).contains((#[trigger] tr.resolved_deps@[k]).id@) by {
                                    let taken = spec_source_take(
                                        old(sources).entries@,
                                        resolved_id.id@,
                                    );
                                    let stmts = taken->Some_0.stmts@;
                                    let n = stmts.len() as int;
                                    lemma_resolve_in_ids(
                                        resolver.entries@,
                                        spec_import_records(stmts, n)[k].specifier@,
                                        Some(resolved_id.id@),
                                    );
                                }
                            },
                            _ => {},
                        }
                    }
                    self.queue.push(msg);
                    proof {
                        assert(self.queue@.len() == vstd::std_specs::vec::spec_vec_len(
                            &self.queue,
                        ));
                    }
                    self.remaining = self.remaining + 1;
                    proof {
                        lemma_msg_ok_grow(
                            self.queue@,
                            self.qhead as int,
                            resolver.entries@,
                            pre_modules.len(),
                            self.inm.modules@.len(),
                        );
                    }
                    idx
                }
            },
        }
    }
}

/// Messages stay processable when the module store only grows.
proof fn lemma_msg_ok_grow(
    queue: Seq<ModuleLoaderMsg>,
    qhead: int,
    resolver: Seq<ResolverEntry>,
    old_len: nat,
    new_len: nat,
)
    requires
        old_len <= new_len,
        forall|q: int|
            qhead <= q < queue.len() - 1 ==> spec_msg_ok(#[trigger] queue[q], resolver, old_len)
                || spec_msg_ok(#[trigger] queue[q], resolver, new_len),
    ensures
        forall|q: int|
            qhead <= q < queue.len() - 1 ==> spec_msg_ok(#[trigger] queue[q], resolver, new_len),
{
}


impl ModuleLoader {
    /// Discovers the whole module graph from the entry identities.
    ///
    /// The runtime module's task runs first, then one task per entry;
    /// the consuming loop receives one completion at a time, spawns
    /// tasks for unseen dependencies, and decrements the counter once
    /// per message until no work remains. A fatal batch stops all
    /// processing at once: later completions are drained and dropped,
    /// the counter still reaches exactly zero, and no partial table is
    /// returned. On success the visited map pairs every identity with
    /// one distinct module index.
    #[verifier::loop_isolation(false)]
    #[verifier::rlimit(80)]
    pub fn load(
        &mut self,
        entries: &Vec<String>,
        resolver: &Resolver,
        sources: &mut SourceTable,
    ) -> (r: Result<ModuleLoaderOutput, Vec<BuildDiagnostic>>)
        requires
            old(self).queue@.len() == 0,
            old(self).qhead == 0,
            old(self).remaining == 0,
            old(self).visited.entries@.len() == 0,
            old(self).inm.modules@.len() == 0,
            old(self).inm.index_ecma_ast@.len() == 0,
            old(self).symbols.local@.len() == 0,
        ensures
            final(self).remaining == 0,
            final(self).visited.wf(),
            match r {
                Ok(out) => {
                    &&& out.module_table.wf()
                    &&& out.module_id_to_modules.wf()
                    &&& out.module_table.modules@.len() >= 1
                    &&& out.module_table.modules@.len()
                        == out.module_id_to_modules.entries@.len()
                    &&& out.symbol_ref_db.wf()
                    &&& forall|i: int|
                        0 <= i < out.module_id_to_modules.vals().len() ==> (
                        #[trigger] out.module_id_to_modules.vals()[i])
                            < out.module_table.modules@.len()
                    &&& spec_table_ast_aligned(out.module_table.modules@, out.index_ecma_ast@)
                },
                Err(errs) => errs@.len() >= 1,
            },
            spec_some_entry_unresolvable(entries@, resolver.entries@) ==> (r matches Err(errs)
                && spec_errs_have_resolution_error(errs@)),
            r matches Ok(out) ==> {
                &&& out.module_id_to_modules.spec_get("rolldown:runtime"@) is Some
                &&& forall|j: int|
                    0 <= j < entries@.len() && (#[trigger] spec_resolve(
                        resolver.entries@,
                        entries@[j]@,
                        None,
                    )) is Some ==> out.module_id_to_modules.spec_get(
                        spec_resolve(resolver.entries@, entries@[j]@, None)->Some_0.id@,
                    ) is Some
            },
    {
        let ghost res = resolver.entries@;
        proof {
            assert(self.visited.keys() =~= Seq::<Seq<char>>::empty());
            assert(self.visited.vals() =~= Seq::<usize>::empty());
        }
        let mut errors: Vec<BuildDiagnostic> = Vec::new();
        let ghost mut res_err_idx: int = 0;
        let mut all_warnings: Vec<BuildDiagnostic> = Vec::new();
        let mut entry_points: Vec<usize> = Vec::new();
        let mut runtime_brief: Option<RuntimeModuleBrief> = None;

        // the runtime module comes first and is always present
        let rt_id = crate::runtime_module::runtime_module_id();
        let rt_idx = self.inm.alloc_ecma_module_idx();
        proof {
            assert(!self.visited.vals().contains(rt_idx));
            assert(spec_universe(res)[spec_universe(res).len() - 1] == "rolldown:runtime"@);
            assert(spec_universe(res).contains(rt_id@));
        }
        self.visited.insert(rt_id, rt_idx);
        let rt_task = crate::runtime_module::RuntimeModuleTask::new(rt_idx);
        let rt_msg = rt_task.run(&self.options);
        self.queue.push(rt_msg);
        proof {
            assert(self.queue@.len() == vstd::std_specs::vec::spec_vec_len(&self.queue));
        }
        self.remaining = self.remaining + 1;
        proof {
            assert(spec_msg_ok(self.queue@[0], res, self.inm.modules@.len()));
            assert(self.inv(res));
        }

        // one task per entry
        let mut ei: usize = 0;
        while ei < entries.len()
            invariant
                ei <= entries@.len(),
                self.inv(res),
                self.qhead == 0,
                self.visited.entries@.len() >= 1,
                self.visited.spec_get("rolldown:runtime"@) is Some,
                forall|j: int|
                    0 <= j < ei && (#[trigger] spec_resolve(res, entries@[j]@, None)) is Some
                        ==> self.visited.spec_get(
                        spec_resolve(res, entries@[j]@, None)->Some_0.id@,
                    ) is Some,
                (exists|j: int|
                    0 <= j < ei && spec_resolve(res, (#[trigger] entries@[j])@, None) is None)
                    ==> (0 <= res_err_idx < errors@.len() && errors@[res_err_idx].kind
                    == EventKind::ResolutionError),
            decreases entries@.len() - ei,
        {
            let ghost pre_v = self.visited.entries@;
            match resolver.resolve(&entries[ei], None) {
                Some(rid) => {
                    proof {
                        lemma_resolve_in_ids(res, entries@[ei as int]@, None);
                        let j = choose|j: int|
                            0 <= j < spec_resolver_ids(res).len() && spec_resolver_ids(res)[j]
                                == rid.id@;
                        assert(spec_universe(res)[j] == rid.id@);
                    }
                    let ghost this_rid = rid;
                    let idx = self.try_spawn_new_task(rid, true, resolver, sources);
                    entry_points.push(idx);
                    proof {
                        assert(self.visited.entries@.len() >= pre_v.len() && forall|q: int|
                            0 <= q < pre_v.len() ==> #[trigger] self.visited.entries@[q]
                                == pre_v[q]);
                        lemma_map_get_stable(
                            pre_v,
                            self.visited.entries@,
                            "rolldown:runtime"@,
                        );
                        assert forall|j: int|
                            0 <= j < ei + 1 && (#[trigger] spec_resolve(
                                res,
                                entries@[j]@,
                                None,
                            )) is Some implies self.visited.spec_get(
                            spec_resolve(res, entries@[j]@, None)->Some_0.id@,
                        ) is Some by {
                            let rid2 = spec_resolve(res, entries@[j]@, None)->Some_0;
                            if j == ei {
                                assert(rid2 == this_rid);
                            } else {
                                assert(spec_map_get(pre_v, rid2.id@) is Some);
                                lemma_map_get_stable(pre_v, self.visited.entries@, rid2.id@);
                            }
                        }
                    }
                },
                None => {
                    let mut message = String::from_str("cannot resolve entry ");
                    message.append(entries[ei].as_str());
                    errors.push(BuildDiagnostic::new(EventKind::ResolutionError, message));
                    proof {
                        res_err_idx = errors@.len() - 1;
                    }
                },
            }
            ei += 1;
        }

        // the consuming loop
        proof {
            lemma_nodup_within_universe(self.visited.keys(), spec_universe(res));
        }
        while self.remaining > 0
            invariant
                self.inv(res),
                self.visited.entries@.len() >= 1,
                self.visited.entries@.len() <= spec_universe(res).len(),
                self.visited.spec_get("rolldown:runtime"@) is Some,
                forall|j: int|
                    0 <= j < entries@.len() && (#[trigger] spec_resolve(
                        res,
                        entries@[j]@,
                        None,
                    )) is Some ==> self.visited.spec_get(
                        spec_resolve(res, entries@[j]@, None)->Some_0.id@,
                    ) is Some,
                spec_some_entry_unresolvable(entries@, res) ==> (0 <= res_err_idx
                    < errors@.len() && errors@[res_err_idx].kind
                    == EventKind::ResolutionError),
            decreases
                    spec_universe(res).len() - self.visited.entries@.len(),
                    self.remaining,
        {
            let qh = self.qhead;
            let ghost pre_iter = self.visited.entries@;
            let ghost mlen0 = self.inm.modules@.len();
            let ghost v0 = self.visited.entries@.len();
            proof {
                assert(qh < self.queue@.len());
                assert(spec_msg_ok(self.queue@[qh as int], res, mlen0));
            }
            let mut msg = ModuleLoaderMsg::BuildErrors(Vec::new());
            core::mem::swap(&mut msg, &mut self.queue[qh]);
            proof {
                assert(self.queue@.len() == vstd::std_specs::vec::spec_vec_len(&self.queue));
            }
            self.qhead = qh + 1;
            self.remaining = self.remaining - 1;
            let ghost r0 = self.remaining;
            proof {
                assert(spec_msg_ok(msg, res, mlen0));
                assert forall|q: int|
                    self.qhead <= q < self.queue@.len() implies spec_msg_ok(
                    #[trigger] self.queue@[q],
                    res,
                    self.inm.modules@.len(),
                ) by {}
            }
            let fatal = errors.len() > 0;
            if fatal {
                // completions are dropped, but every error batch still
                // joins the propagated set
                match msg {
                    ModuleLoaderMsg::BuildErrors(e) => {
                        let mut e = e;
                        errors.append(&mut e);
                    },
                    _ => {},
                }
            } else {
                match msg {
                    ModuleLoaderMsg::NormalModuleDone(tr) => {
                        let NormalModuleTaskResult {
                            module_idx,
                            resolved_deps,
                            module,
                            raw_import_records,
                            warnings: mut task_warnings,
                            ecma_related,
                        } = tr;
                        all_warnings.append(&mut task_warnings);
                        let mut import_records: Vec<ResolvedImportRecord> = Vec::new();
                        let mut k: usize = 0;
                        while k < raw_import_records.len()
                            invariant
                                self.inv(res),
                                k <= raw_import_records@.len(),
                                raw_import_records@.len() == resolved_deps@.len(),
                                forall|j: int|
                                    0 <= j < resolved_deps@.len() ==> spec_resolver_ids(
                                        res,
                                    ).contains((#[trigger] resolved_deps@[j]).id@),
                                import_records@.len() == k,
                                module_idx < self.inm.modules@.len(),
                                self.visited.entries@.len() >= v0,
                                self.visited.entries@.len() == v0 ==> self.remaining == r0,
                                pre_iter.len() <= self.visited.entries@.len(),
                                forall|q: int|
                                    0 <= q < pre_iter.len()
                                        ==> #[trigger] self.visited.entries@[q] == pre_iter[q],
                            decreases raw_import_records@.len() - k,
                        {
                            let ghost pre_step = self.visited.entries@;
                            let dep = clone_resolved_id(&resolved_deps[k]);
                            proof {
                                let j = choose|j: int|
                                    0 <= j < spec_resolver_ids(res).len() && spec_resolver_ids(
                                        res,
                                    )[j] == dep.id@;
                                assert(spec_universe(res)[j] == dep.id@);
                            }
                            let dep_idx = self.try_spawn_new_task(dep, false, resolver, sources);
                            import_records.push(
                                ResolvedImportRecord {
                                    specifier: raw_import_records[k].specifier.clone(),
                                    kind: raw_import_records[k].kind,
                                    resolved_module: dep_idx,
                                },
                            );
                            k += 1;
                        }
                        match module {
                            Module::Normal(m) => {
                                let mut m = m;
                                m.import_records = import_records;
                                match ecma_related {
                                    Some(er) => {
                                        let EcmaRelated { ast, symbols } = er;
                                        let ghost ast_g = ast;
                                        let ghost pre_asts = self.inm.index_ecma_ast@;
                                        let ast_idx = self.inm.index_ecma_ast.len();
                                        self.inm.index_ecma_ast.push((ast, module_idx));
                                        m.ecma_ast_idx = Some(ast_idx);
                                        proof {
                                            assert(self.symbols.cross_links_below(
                                                module_idx,
                                                symbols@.len(),
                                            ));
                                        }
                                        let ghost pre_sym = self.symbols;
                                        self.symbols.store_local_db(module_idx, symbols);
                                        proof {
                                            assert forall|s: SymbolRef|
                                                self.symbols.valid_ref(s) implies (
                                            #[trigger] self.symbols.spec_link(s)) is None by {
                                                if s.module == module_idx {
                                                    assert(self.symbols.spec_link(s) == symbols@[
                                                        s.symbol as int
                                                    ].link);
                                                } else {
                                                    assert(self.symbols.local@[s.module as int]@
                                                        == pre_sym.entries_or_empty(
                                                        s.module as int,
                                                    ));
                                                    assert(pre_sym.valid_ref(s));
                                                    assert(self.symbols.spec_link(s)
                                                        == pre_sym.spec_link(s));
                                                }
                                            }
                                        }
                                        let ghost pre_mods = self.inm.modules@;
                                        self.inm.modules[module_idx] = Some(Module::Normal(m));
                                        proof {
                                            assert(self.inm.modules@ == pre_mods.update(
                                                module_idx as int,
                                                Some(Module::Normal(m)),
                                            ));
                                            assert(self.inm.index_ecma_ast@ == pre_asts.push(
                                                (ast_g, module_idx),
                                            ));
                                            assert forall|j: int|
                                                0 <= j < self.inm.modules@.len() implies match
                                                #[trigger] self.inm.modules@[j] {
                                                Some(Module::Normal(mm)) => mm.ecma_ast_idx
                                                    matches Some(a) ==> 0 <= a
                                                    < self.inm.index_ecma_ast@.len()
                                                    && self.inm.index_ecma_ast@[a as int].1
                                                    == mm.idx && mm.stmt_infos@.len()
                                                    == self.inm.index_ecma_ast@[
                                                    a as int
                                                ].0.stmts@.len(),
                                                _ => true,
                                            } by {
                                                if j == module_idx {
                                                    assert(self.inm.index_ecma_ast@[
                                                        ast_idx as int
                                                    ] == (ast_g, module_idx));
                                                } else {
                                                    assert(self.inm.modules@[j] == pre_mods[j]);
                                                    match pre_mods[j] {
                                                        Some(Module::Normal(mm)) => {
                                                            if mm.ecma_ast_idx is Some {
                                                                let a = mm.ecma_ast_idx->Some_0;
                                                                assert(self.inm.index_ecma_ast@[
                                                                    a as int
                                                                ] == pre_asts[a as int]);
                                                            }
                                                        },
                                                        _ => {},
                                                    }
                                                }
                                            }
                                            assert(spec_ast_aligned(
                                                self.inm.modules@,
                                                self.inm.index_ecma_ast@,
                                            ));
                                            assert(self.inv(res));
                                        }
                                    },
                                    None => {
                                        let ghost pre_mods = self.inm.modules@;
                                        self.inm.modules[module_idx] = Some(Module::Normal(m));
                                        proof {
                                            assert(self.inm.modules@ == pre_mods.update(
                                                module_idx as int,
                                                Some(Module::Normal(m)),
                                            ));
                                            assert(self.inv(res));
                                        }
                                    },
                                }
                            },
                            Module::External(_) => {
                                proof {
                                    assert(false);
                                }
                            },
                        }
                    },
                    ModuleLoaderMsg::RuntimeNormalModuleDone(tr) => {
                        let RuntimeModuleTaskResult {
                            local_symbol_ref_db,
                            module,
                            runtime,
                            ast,
                            resolved_deps: _,
                            raw_import_records: _,
                        } = tr;
                        let mut m = module;
                        let module_idx = m.idx;
                        let ghost ast_g = ast;
                        let ghost pre_asts = self.inm.index_ecma_ast@;
                        let ast_idx = self.inm.index_ecma_ast.len();
                        self.inm.index_ecma_ast.push((ast, module_idx));
                        m.ecma_ast_idx = Some(ast_idx);
                        proof {
                            assert(self.symbols.cross_links_below(
                                module_idx,
                                local_symbol_ref_db@.len(),
                            ));
                        }
                        let ghost pre_sym = self.symbols;
                        let ghost rt_symbols = local_symbol_ref_db@;
                        self.symbols.store_local_db(module_idx, local_symbol_ref_db);
                        proof {
                            assert forall|s: SymbolRef|
                                self.symbols.valid_ref(s) implies (
                            #[trigger] self.symbols.spec_link(s)) is None by {
                                if s.module == module_idx {
                                    assert(self.symbols.spec_link(s) == rt_symbols[
                                        s.symbol as int
                                    ].link);
                                } else {
                                    assert(self.symbols.local@[s.module as int]@
                                        == pre_sym.entries_or_empty(s.module as int));
                                    assert(pre_sym.valid_ref(s));
                                    assert(self.symbols.spec_link(s) == pre_sym.spec_link(s));
                                }
                            }
                        }
                        runtime_brief = Some(runtime);
                        let ghost pre_mods = self.inm.modules@;
                        self.inm.modules[module_idx] = Some(Module::Normal(m));
                        proof {
                            assert(self.inm.modules@ == pre_mods.update(
                                module_idx as int,
                                Some(Module::Normal(m)),
                            ));
                            assert(self.inm.index_ecma_ast@ == pre_asts.push((ast_g, module_idx)));
                            assert forall|j: int|
                                0 <= j < self.inm.modules@.len() implies match
                                #[trigger] self.inm.modules@[j] {
                                Some(Module::Normal(mm)) => mm.ecma_ast_idx matches Some(a) ==> 0
                                    <= a < self.inm.index_ecma_ast@.len()
                                    && self.inm.index_ecma_ast@[a as int].1 == mm.idx
                                    && mm.stmt_infos@.len() == self.inm.index_ecma_ast@[
                                    a as int
                                ].0.stmts@.len(),
                                _ => true,
                            } by {
                                if j == module_idx {
                                    assert(self.inm.index_ecma_ast@[ast_idx as int] == (
                                        ast_g,
                                        module_idx,
                                    ));
                                } else {
                                    assert(self.inm.modules@[j] == pre_mods[j]);
                                    match pre_mods[j] {
                                        Some(Module::Normal(mm)) => {
                                            if mm.ecma_ast_idx is Some {
                                                let a = mm.ecma_ast_idx->Some_0;
                                                assert(self.inm.index_ecma_ast@[a as int]
                                                    == pre_asts[a as int]);
                                            }
                                        },
                                        _ => {},
                                    }
                                }
                            }
                            assert(spec_ast_aligned(self.inm.modules@, self.inm.index_ecma_ast@));
                            assert(self.inv(res));
                        }
                    },
                    ModuleLoaderMsg::FetchModule(_) => {
                        proof {
                            assert(false);
                        }
                    },
                    ModuleLoaderMsg::BuildErrors(e) => {
                        let mut e = e;
                        errors.append(&mut e);
                    },
                }
            }
            proof {
                lemma_nodup_within_universe(self.visited.keys(), spec_universe(res));
                assert(pre_iter.len() <= self.visited.entries@.len() && forall|q: int|
                    0 <= q < pre_iter.len() ==> #[trigger] self.visited.entries@[q] == pre_iter[
                        q
                    ]);
                lemma_map_get_stable(pre_iter, self.visited.entries@, "rolldown:runtime"@);
                assert forall|j: int|
                    0 <= j < entries@.len() && (#[trigger] spec_resolve(
                        res,
                        entries@[j]@,
                        None,
                    )) is Some implies self.visited.spec_get(
                    spec_resolve(res, entries@[j]@, None)->Some_0.id@,
                ) is Some by {
                    let rid = spec_resolve(res, entries@[j]@, None)->Some_0;
                    assert(spec_map_get(pre_iter, rid.id@) is Some);
                    lemma_map_get_stable(pre_iter, self.visited.entries@, rid.id@);
                }
            }
        }

        if errors.len() > 0 {
            proof {
                if spec_some_entry_unresolvable(entries@, res) {
                    assert(0 <= res_err_idx < errors@.len() && errors@[res_err_idx].kind
                        == EventKind::ResolutionError);
                    assert(spec_errs_have_resolution_error(errors@));
                }
            }
            return Err(errors);
        }
        proof {
            if spec_some_entry_unresolvable(entries@, res) {
                assert(errors@.len() > 0);
                assert(false);
            }
        }

        // every allocated slot must have been filled by its task; an
        // unfilled slot means the channel died under us
        let mut modules: Vec<Module> = Vec::new();
        let n_slots = self.inm.modules.len();
        let mut i: usize = 0;
        while i < n_slots
            invariant
                i <= n_slots,
                n_slots >= 1,
                n_slots == self.inm.modules@.len(),
                modules@.len() == i,
                self.remaining == 0,
                forall|j: int|
                    0 <= j < i ==> (#[trigger] modules@[j]).spec_idx() == j,
                forall|j: int|
                    i <= j < n_slots ==> match #[trigger] self.inm.modules@[j] {
                        Some(mo) => mo.spec_idx() == j,
                        None => true,
                    },
                forall|j: int|
                    0 <= j < i ==> match #[trigger] modules@[j] {
                        Module::Normal(m) => m.ecma_ast_idx matches Some(a) ==> 0 <= a
                            < self.inm.index_ecma_ast@.len() && self.inm.index_ecma_ast@[
                            a as int
                        ].1 == m.idx && m.stmt_infos@.len() == self.inm.index_ecma_ast@[
                            a as int
                        ].0.stmts@.len(),
                        _ => true,
                    },
                forall|j: int|
                    i <= j < n_slots ==> match #[trigger] self.inm.modules@[j] {
                        Some(Module::Normal(m)) => m.ecma_ast_idx matches Some(a) ==> 0 <= a
                            < self.inm.index_ecma_ast@.len() && self.inm.index_ecma_ast@[
                            a as int
                        ].1 == m.idx && m.stmt_infos@.len() == self.inm.index_ecma_ast@[
                            a as int
                        ].0.stmts@.len(),
                        _ => true,
                    },
                self.visited.wf(),
                self.visited.entries@.len() == n_slots,
                forall|j: int|
                    0 <= j < self.visited.vals().len() ==> (#[trigger] self.visited.vals()[j])
                        < n_slots,
                self.symbols.wf(),
                self.visited.spec_get("rolldown:runtime"@) is Some,
                forall|j: int|
                    0 <= j < entries@.len() && (#[trigger] spec_resolve(
                        res,
                        entries@[j]@,
                        None,
                    )) is Some ==> self.visited.spec_get(
                        spec_resolve(res, entries@[j]@, None)->Some_0.id@,
                    ) is Some,
            decreases n_slots - i,
        {
            let mut slot: Option<Module> = None;
            core::mem::swap(&mut slot, &mut self.inm.modules[i]);
            match slot {
                Some(m) => {
                    modules.push(m);
                },
                None => {
                    let mut errs: Vec<BuildDiagnostic> = Vec::new();
                    errs.push(
                        BuildDiagnostic::new(
                            EventKind::ChannelClosed,
                            String::from_str("a module analysis task never completed"),
                        ),
                    );
                    return Err(errs);
                },
            }
            i += 1;
        }

        let runtime = match runtime_brief {
            Some(rb) => rb,
            None => {
                let mut errs: Vec<BuildDiagnostic> = Vec::new();
                errs.push(
                    BuildDiagnostic::new(
                        EventKind::ChannelClosed,
                        String::from_str("the runtime module task never completed"),
                    ),
                );
                return Err(errs);
            },
        };

        let mut visited_out = VisitedMap::new();
        core::mem::swap(&mut visited_out, &mut self.visited);
        let mut symbols_out = SymbolRefDb::new();
        core::mem::swap(&mut symbols_out, &mut self.symbols);
        let mut asts_out: Vec<(EcmaAst, usize)> = Vec::new();
        core::mem::swap(&mut asts_out, &mut self.inm.index_ecma_ast);

        Ok(
            ModuleLoaderOutput {
                module_table: ModuleTable { modules },
                module_id_to_modules: visited_out,
                index_ecma_ast: asts_out,
                symbol_ref_db: symbols_out,
                warnings: all_warnings,
                runtime,
                entry_points,
            },
        )
    }
}

} // verus!
