//! The linker: resolves every import to a concrete exporting binding,
//! rejects re-export cycles, decides statement inclusion for
//! tree-shaking, and assigns collision-free canonical display names.

use vstd::prelude::*;
use vstd::seq_lib::*;

use crate::diagnostics::{BuildDiagnostic, EventKind};
use crate::loader::{lemma_nodup_within_universe, ModuleLoaderOutput, VisitedMap};
use crate::module::{
    EcmaAst, ImportName, Module, ModuleTable, NormalModule, RuntimeModuleBrief,
};
use crate::options::NormalizedBundlerOptions;
use crate::symbols::{SymbolRef, SymbolRefDb};
use crate::util::{lemma_dec_injective, lemma_dec_len, push_char, spec_dec, u64_to_dec};

verus! {

/// The canonical-name table: each canonical representative's final,
/// globally-unique display name.
pub struct CanonicalNames {
    pub entries: Vec<(SymbolRef, String)>,
}

impl CanonicalNames {
    /// The named representatives, in assignment order.
    pub open spec fn keys(&self) -> Seq<SymbolRef> {
        Seq::new(self.entries@.len(), |i: int| self.entries@[i].0)
    }

    /// The display names, in assignment order.
    pub open spec fn names(&self) -> Seq<Seq<char>> {
        Seq::new(self.entries@.len(), |i: int| self.entries@[i].1@)
    }

    /// No representative is named twice, and no display name is
    /// handed to two representatives.
    pub open spec fn wf(&self) -> bool {
        self.keys().no_duplicates() && self.names().no_duplicates()
    }

    /// An empty table.
    pub fn new() -> (r: CanonicalNames)
        ensures
            r.entries@.len() == 0,
            r.wf(),
    {
        proof {
            assert(Seq::<SymbolRef>::empty().no_duplicates());
            assert(Seq::<Seq<char>>::empty().no_duplicates());
        }
        CanonicalNames { entries: Vec::new() }
    }

    /// The name stored for a representative.
    pub fn get(&self, s: SymbolRef) -> (r: Option<&String>)
        ensures
            match r {
                Some(n) => exists|i: int|
                    0 <= i < self.entries@.len() && (#[trigger] self.entries@[i]).0 == s
                        && self.entries@[i].1 == *n,
                None => forall|i: int|
                    0 <= i < self.entries@.len() ==> (#[trigger] self.entries@[i]).0 != s,
            },
    {
        let mut i: usize = 0;
        while i < self.entries.len()
            invariant
                i <= self.entries@.len(),
                forall|j: int| 0 <= j < i ==> (#[trigger] self.entries@[j]).0 != s,
            decreases self.entries@.len() - i,
        {
            if self.entries[i].0.module == s.module && self.entries[i].0.symbol == s.symbol {
                proof {
                    assert(self.entries@[i as int].0 == s);
                }
                return Some(&self.entries[i].1);
            }
            i += 1;
        }
        None
    }

    /// Records a fresh representative's fresh name.
    pub fn insert(&mut self, s: SymbolRef, name: String)
        requires
            old(self).wf(),
            forall|i: int| 0 <= i < old(self).entries@.len() ==> (#[trigger] old(self).entries@[i]).0 != s,
            forall|i: int|
                0 <= i < old(self).entries@.len() ==> (#[trigger] old(self).entries@[i]).1@
                    != name@,
        ensures
            final(self).wf(),
            final(self).entries@ == old(self).entries@.push((s, name)),
            final(self).keys() =~= old(self).keys().push(s),
            final(self).names() =~= old(self).names().push(name@),
    {
        let ghost pre = *self;
        self.entries.push((s, name));
        proof {
            assert(self.keys() =~= pre.keys().push(s));
            assert(self.names() =~= pre.names().push(self.entries@.last().1@));
            assert forall|a: int, b: int|
                0 <= a < b < self.keys().len() implies self.keys()[a] != self.keys()[b] by {
                if b < pre.keys().len() {
                } else {
                    assert(pre.keys()[a] == pre.entries@[a].0);
                }
            }
            assert forall|a: int, b: int|
                0 <= a < b < self.names().len() implies self.names()[a] != self.names()[b] by {
                if b < pre.names().len() {
                } else {
                    assert(pre.names()[a] == pre.entries@[a].1@);
                }
            }
        }
    }
}

/// No two distinct canonical representatives ever share a final
/// display name within one table.
pub proof fn lemma_canonical_names_unique(
    cn: &CanonicalNames,
    i: int,
    j: int,
)
    requires
        cn.wf(),
        0 <= i < cn.entries@.len(),
        0 <= j < cn.entries@.len(),
        cn.entries@[i].0 != cn.entries@[j].0,
    ensures
        cn.entries@[i].1@ != cn.entries@[j].1@,
{
    if i != j {
        if i < j {
            assert(cn.names()[i] != cn.names()[j]);
        } else {
            assert(cn.names()[j] != cn.names()[i]);
        }
    }
}

/// The candidate display name tried at attempt `k`: the base itself,
/// then the base with a numeric suffix.
pub open spec fn spec_candidate(base: Seq<char>, k: nat) -> Seq<char> {
    if k == 0 {
        base
    } else {
        base + seq!['$'] + spec_dec(k)
    }
}

/// Distinct attempts produce distinct candidates.
proof fn lemma_candidates_distinct(base: Seq<char>, a: nat, b: nat)
    requires
        a < b,
    ensures
        spec_candidate(base, a) != spec_candidate(base, b),
{
    lemma_dec_len(b);
    if a == 0 {
        assert(spec_candidate(base, b).len() >= base.len() + 2);
    } else {
        lemma_dec_len(a);
        if spec_candidate(base, a) == spec_candidate(base, b) {
            let sa = spec_candidate(base, a);
            let da = spec_dec(a);
            let db = spec_dec(b);
            assert(da =~= sa.subrange(base.len() as int + 1, base.len() as int + 1 + da.len() as int));
            assert(sa.len() == base.len() + 1 + da.len());
            assert(sa.len() == base.len() + 1 + db.len());
            assert(da.len() == db.len());
            assert(db =~= sa.subrange(base.len() as int + 1, base.len() as int + 1 + db.len() as int));
            assert(da == db);
            lemma_dec_injective(a, b);
        }
    }
}

/// True when some taken name reads the same as `name`.
fn name_taken(used: &Vec<String>, name: &String) -> (r: bool)
    ensures
        r == exists|i: int| 0 <= i < used@.len() && (#[trigger] used@[i])@ == name@,
{
    let mut i: usize = 0;
    while i < used.len()
        invariant
            i <= used@.len(),
            forall|j: int| 0 <= j < i ==> (#[trigger] used@[j])@ != name@,
        decreases used@.len() - i,
    {
        if used[i].eq(name) {
            proof {
                assert(used@[i as int]@ == name@);
            }
            return true;
        }
        i += 1;
    }
    false
}

/// The views of the taken names.
pub open spec fn spec_used_views(used: Seq<String>) -> Seq<Seq<char>> {
    Seq::new(used.len(), |i: int| used[i]@)
}

/// Picks the first free disambiguation of `base`: the base itself, or
/// the base with the smallest numeric suffix not yet taken. Among
/// `used.len() + 1` pairwise-distinct candidates one is always free,
/// so the search always succeeds.
#[verifier::loop_isolation(false)]
fn pick_fresh_name(used: &Vec<String>, base: &String) -> (r: String)
    ensures
        forall|i: int| 0 <= i < used@.len() ==> (#[trigger] used@[i])@ != r@,
        exists|k: nat| r@ == spec_candidate(base@, k),
{
    let n = used.len();
    let mut k: usize = 0;
    loop
        invariant
            k <= n,
            n == used@.len(),
            forall|kk: nat| kk < k ==> spec_used_views(used@).contains(spec_candidate(base@, kk)),
        decreases n - k,
    {
        let candidate = if k == 0 {
            base.clone()
        } else {
            let mut s = base.clone();
            push_char(&mut s, '$');
            let suffix = u64_to_dec(k as u64);
            s.append(suffix.as_str());
            proof {
                assert(s@ =~= spec_candidate(base@, k as nat));
            }
            s
        };
        if !name_taken(used, &candidate) {
            proof {
                assert(candidate@ == spec_candidate(base@, k as nat));
                assert forall|i: int| 0 <= i < used@.len() implies (#[trigger] used@[i])@
                    != candidate@ by {}
            }
            return candidate;
        }
        proof {
            let i = choose|i: int| 0 <= i < used@.len() && (#[trigger] used@[i])@ == candidate@;
            assert(spec_used_views(used@)[i] == candidate@);
            assert(candidate@ == spec_candidate(base@, k as nat));
            assert(spec_used_views(used@).contains(spec_candidate(base@, k as nat)));
        }
        if k == n {
            // pigeonhole: n + 1 distinct candidates cannot all be
            // among n taken names
            proof {
                let cands = Seq::new((n + 1) as nat, |kk: int| spec_candidate(base@, kk as nat));
                assert forall|a: int, b: int|
                    0 <= a < b < cands.len() implies cands[a] != cands[b] by {
                    lemma_candidates_distinct(base@, a as nat, b as nat);
                }
                assert(cands.no_duplicates());
                assert forall|i: int|
                    0 <= i < cands.len() implies spec_used_views(used@).contains(
                    #[trigger] cands[i],
                ) by {
                    assert(cands[i] == spec_candidate(base@, i as nat));
                }
                lemma_nodup_within_universe(cands, spec_used_views(used@));
                assert(false);
            }
        }
        k += 1;
    }
}


/// Decides whether a symbol reference points into the table.
fn check_valid_ref(symbols: &SymbolRefDb, s: SymbolRef) -> (r: bool)
    ensures
        r == symbols.valid_ref(s),
{
    s.module < symbols.local.len() && s.symbol < symbols.local[s.module].len()
}

/// Some record star-re-exports from module `t`.
pub open spec fn spec_record_star_target(
    records: Seq<crate::module::ResolvedImportRecord>,
    t: usize,
) -> bool {
    exists|j: int|
        0 <= j < records.len() && (#[trigger] records[j]).kind
            == crate::module::ImportKind::ExportStar && records[j].resolved_module == t
}

/// One star-export edge of the module graph.
pub open spec fn spec_star_edge(modules: Seq<Module>, a: int, b: usize) -> bool {
    0 <= a < modules.len() && (modules[a] matches Module::Normal(m)
        && spec_record_star_target(m.import_records@, b))
}

/// Module `b` is reachable from `a` over one or more star edges,
/// within `k` steps.
pub open spec fn spec_star_reach(modules: Seq<Module>, a: usize, b: usize, k: nat) -> bool
    decreases k,
{
    k > 0 && (spec_star_edge(modules, a as int, b) || exists|mid: usize|
        #[trigger] spec_star_edge(modules, a as int, mid) && spec_star_reach(
            modules,
            mid,
            b,
            (k - 1) as nat,
        ))
}

/// A re-export cycle: some module star-reaches itself.
pub open spec fn spec_star_cycle(modules: Seq<Module>) -> bool {
    exists|m: usize, k: nat| spec_star_reach(modules, m, m, k)
}

/// A reachable module with an outgoing star edge reaches the edge's
/// target.
proof fn lemma_star_reach_extend(modules: Seq<Module>, a: usize, b: usize, k: nat, c: usize)
    requires
        spec_star_reach(modules, a, b, k),
        spec_star_edge(modules, b as int, c),
    ensures
        spec_star_reach(modules, a, c, k + 1),
    decreases k,
{
    if spec_star_edge(modules, a as int, b) {
        assert(spec_star_reach(modules, b, c, k));
        assert(spec_star_edge(modules, a as int, b) && spec_star_reach(modules, b, c, k));
    } else {
        let mid = choose|mid: usize|
            #[trigger] spec_star_edge(modules, a as int, mid) && spec_star_reach(
                modules,
                mid,
                b,
                (k - 1) as nat,
            );
        lemma_star_reach_extend(modules, mid, b, (k - 1) as nat, c);
    }
}

/// The star-export targets of a module's resolved records: exactly
/// the targets of its star records, in record order.
fn star_targets(m: &NormalModule) -> (r: Vec<usize>)
    ensures
        forall|i: int|
            0 <= i < r@.len() ==> spec_record_star_target(m.import_records@, #[trigger] r@[i]),
        forall|j: int|
            0 <= j < m.import_records@.len() && (#[trigger] m.import_records@[j]).kind
                == crate::module::ImportKind::ExportStar ==> r@.contains(
                m.import_records@[j].resolved_module,
            ),
{
    let mut out: Vec<usize> = Vec::new();
    let mut i: usize = 0;
    while i < m.import_records.len()
        invariant
            i <= m.import_records@.len(),
            forall|k: int|
                0 <= k < out@.len() ==> spec_record_star_target(
                    m.import_records@,
                    #[trigger] out@[k],
                ),
            forall|j: int|
                0 <= j < i && (#[trigger] m.import_records@[j]).kind
                    == crate::module::ImportKind::ExportStar ==> out@.contains(
                    m.import_records@[j].resolved_module,
                ),
        decreases m.import_records@.len() - i,
    {
        let ghost pre_out = out@;
        match m.import_records[i].kind {
            crate::module::ImportKind::ExportStar => {
                let t = m.import_records[i].resolved_module;
                out.push(t);
                proof {
                    assert forall|k: int|
                        0 <= k < out@.len() implies spec_record_star_target(
                        m.import_records@,
                        #[trigger] out@[k],
                    ) by {
                        if k == out@.len() - 1 {
                            assert(m.import_records@[i as int].kind
                                == crate::module::ImportKind::ExportStar && m.import_records@[
                                i as int
                            ].resolved_module == out@[k]);
                        } else {
                            assert(out@[k] == pre_out[k]);
                        }
                    }
                }
            },
            _ => {},
        }
        proof {
            assert forall|j: int|
                0 <= j < i + 1 && (#[trigger] m.import_records@[j]).kind
                    == crate::module::ImportKind::ExportStar implies out@.contains(
                m.import_records@[j].resolved_module,
            ) by {
                if j < i {
                    assert(pre_out.contains(m.import_records@[j].resolved_module));
                    let k = choose|k: int|
                        0 <= k < pre_out.len() && pre_out[k] == m.import_records@[
                            j
                        ].resolved_module;
                    assert(out@[k] == m.import_records@[j].resolved_module);
                } else {
                    assert(out@[out@.len() - 1] == m.import_records@[j].resolved_module);
                }
            }
        }
        i += 1;
    }
    out
}

/// Every star edge out of a settled set stays inside it and never
/// hits `start`; a set with that property traps every star path.
pub open spec fn spec_node_closed(
    modules: Seq<Module>,
    v: usize,
    visited: Seq<usize>,
    start: usize,
) -> bool {
    forall|t: usize|
        #[trigger] spec_star_edge(modules, v as int, t) ==> (t != start && (t < modules.len()
            ==> visited.contains(t)))
}

/// A closed node stays closed when the settled set grows.
proof fn lemma_closed_mono(
    modules: Seq<Module>,
    v: usize,
    visited: Seq<usize>,
    x: usize,
    start: usize,
)
    requires
        spec_node_closed(modules, v, visited, start),
    ensures
        spec_node_closed(modules, v, visited.push(x), start),
{
    assert forall|t: usize| #[trigger]
        spec_star_edge(modules, v as int, t) implies (t != start && (t < modules.len()
        ==> visited.push(x).contains(t))) by {
        if t < modules.len() {
            let k = choose|k: int| 0 <= k < visited.len() && visited[k] == t;
            assert(visited.push(x)[k] == t);
        }
    }
}

/// No star path out of a closed set reaches `start`.
proof fn lemma_no_reach_from_closed(
    modules: Seq<Module>,
    visited: Seq<usize>,
    start: usize,
    a: usize,
    k: nat,
)
    requires
        visited.contains(a),
        forall|p: int|
            0 <= p < visited.len() ==> spec_node_closed(
                modules,
                #[trigger] visited[p],
                visited,
                start,
            ),
    ensures
        !spec_star_reach(modules, a, start, k),
    decreases k,
{
    if spec_star_reach(modules, a, start, k) {
        let pa = choose|p: int| 0 <= p < visited.len() && visited[p] == a;
        assert(spec_node_closed(modules, a, visited, start));
        if spec_star_edge(modules, a as int, start) {
            assert(start != start);
        } else {
            let mid = choose|mid: usize|
                #[trigger] spec_star_edge(modules, a as int, mid) && spec_star_reach(
                    modules,
                    mid,
                    start,
                    (k - 1) as nat,
                );
            assert(mid != start);
            if mid < modules.len() {
                assert(visited.contains(mid));
                lemma_no_reach_from_closed(modules, visited, start, mid, (k - 1) as nat);
            } else {
                lemma_no_reach_out_of_range(modules, mid, start, (k - 1) as nat);
            }
        }
        assert(false);
    }
}

/// An out-of-range index has no outgoing star edge, so nothing is
/// reachable from it.
proof fn lemma_no_reach_out_of_range(modules: Seq<Module>, a: usize, b: usize, k: nat)
    requires
        a >= modules.len(),
    ensures
        !spec_star_reach(modules, a, b, k),
    decreases k,
{
    if spec_star_reach(modules, a, b, k) {
        if spec_star_edge(modules, a as int, b) {
        } else {
            let mid = choose|mid: usize|
                #[trigger] spec_star_edge(modules, a as int, mid) && spec_star_reach(
                    modules,
                    mid,
                    b,
                    (k - 1) as nat,
                );
        }
        assert(false);
    }
}

/// True when the list already holds the index.
fn seen_idx(v: &Vec<usize>, x: usize) -> (r: bool)
    ensures
        r == v@.contains(x),
{
    let mut i: usize = 0;
    while i < v.len()
        invariant
            i <= v@.len(),
            forall|j: int| 0 <= j < i ==> (#[trigger] v@[j]) != x,
        decreases v@.len() - i,
    {
        if v[i] == x {
            proof {
                assert(v@[i as int] == x);
            }
            return true;
        }
        i += 1;
    }
    proof {
        if v@.contains(x) {
            let j = choose|j: int| 0 <= j < v@.len() && v@[j] == x;
        }
    }
    false
}

/// Walks the star-export edges reachable from `start` and reports a
/// re-export cycle when the walk comes back to `start`. The walk
/// deduplicates visits, so it always terminates — a cycle becomes an
/// error, never an endless loop or exhausted stack.
#[verifier::loop_isolation(false)]
fn star_cycle_from(table: &ModuleTable, start: usize) -> (r: Result<(), BuildDiagnostic>)
    requires
        start < table.modules@.len(),
    ensures
        r matches Err(e) ==> e.kind == EventKind::ReExportCycle && spec_star_cycle(
            table.modules@,
        ),
        r is Ok ==> forall|k: nat| !spec_star_reach(table.modules@, start, start, k),
{
    let ghost modules = table.modules@;
    let n = table.modules.len();
    let mut visited: Vec<usize> = Vec::new();
    let mut work: Vec<usize> = Vec::new();
    let ghost mut ks: Seq<nat> = Seq::empty();
    let mut wh: usize = 0;
    match &table.modules[start] {
        Module::Normal(m) => {
            let ts = star_targets(m);
            let mut i: usize = 0;
            while i < ts.len()
                invariant
                    i <= ts@.len(),
                    wh == 0,
                    work@ == visited@,
                    ks.len() == visited@.len(),
                    visited@.len() <= n,
                    forall|j: int| 0 <= j < visited@.len() ==> (#[trigger] visited@[j]) < n,
                    visited@.no_duplicates(),
                    forall|j: int|
                        0 <= j < visited@.len() ==> spec_star_reach(
                            modules,
                            start,
                            #[trigger] visited@[j],
                            ks[j],
                        ),
                    forall|j: int|
                        0 <= j < i ==> ((#[trigger] ts@[j]) != start && (ts@[j] < n
                            ==> visited@.contains(ts@[j]))),
                decreases ts@.len() - i,
            {
                let t = ts[i];
                proof {
                    assert(spec_record_star_target(m.import_records@, ts@[i as int]));
                    assert(spec_star_edge(modules, start as int, t));
                }
                if t == start {
                    proof {
                        assert(spec_star_reach(modules, start, start, 1));
                    }
                    return Err(
                        BuildDiagnostic::new(
                            EventKind::ReExportCycle,
                            String::from_str("star re-exports form a cycle"),
                        ),
                    );
                }
                if t < n && !seen_idx(&visited, t) {
                    proof {
                        assert(visited@.push(t).no_duplicates());
                        lemma_nodup_idx_bound(visited@.push(t), n as nat);
                        assert(spec_star_reach(modules, start, t, 1));
                        ks = ks.push(1);
                    }
                    let ghost pre_v = visited@;
                    visited.push(t);
                    work.push(t);
                    proof {
                        assert forall|j: int|
                            0 <= j < i + 1 implies ((#[trigger] ts@[j]) != start && (ts@[j] < n
                            ==> visited@.contains(ts@[j]))) by {
                            if j < i {
                                if ts@[j] < n {
                                    let q = choose|q: int|
                                        0 <= q < pre_v.len() && pre_v[q] == ts@[j];
                                    assert(visited@[q] == ts@[j]);
                                }
                            } else {
                                assert(visited@[visited@.len() - 1] == t);
                            }
                        }
                    }
                } else {
                    proof {
                        assert forall|j: int|
                            0 <= j < i + 1 implies ((#[trigger] ts@[j]) != start && (ts@[j] < n
                            ==> visited@.contains(ts@[j]))) by {
                            if j == i && t < n {
                                assert(visited@.contains(t));
                            }
                        }
                    }
                }
                i += 1;
            }
            proof {
                assert forall|t: usize| #[trigger]
                    spec_star_edge(modules, start as int, t) implies (t != start && (t < n
                    ==> visited@.contains(t))) by {
                    let rj = choose|rj: int|
                        0 <= rj < m.import_records@.len() && (#[trigger] m.import_records@[
                            rj
                        ]).kind == crate::module::ImportKind::ExportStar && m.import_records@[
                            rj
                        ].resolved_module == t;
                    assert(ts@.contains(t));
                    let j = choose|j: int| 0 <= j < ts@.len() && ts@[j] == t;
                }
                assert(spec_node_closed(modules, start, visited@, start));
            }
        },
        Module::External(_) => {
            proof {
                assert forall|k: nat| !spec_star_reach(modules, start, start, k) by {
                    if spec_star_reach(modules, start, start, k) {
                        if spec_star_edge(modules, start as int, start) {
                        } else {
                            let mid = choose|mid: usize|
                                #[trigger] spec_star_edge(modules, start as int, mid)
                                    && spec_star_reach(modules, mid, start, (k - 1) as nat);
                        }
                        assert(false);
                    }
                }
            }
            return Ok(());
        },
    }
    while wh < work.len()
        invariant
            wh <= work@.len(),
            work@ == visited@,
            ks.len() == visited@.len(),
            visited@.len() <= n,
            forall|j: int| 0 <= j < visited@.len() ==> (#[trigger] visited@[j]) < n,
            visited@.no_duplicates(),
            forall|j: int|
                0 <= j < visited@.len() ==> spec_star_reach(
                    modules,
                    start,
                    #[trigger] visited@[j],
                    ks[j],
                ),
            spec_node_closed(modules, start, visited@, start),
            forall|p: int|
                0 <= p < wh ==> spec_node_closed(modules, #[trigger] work@[p], visited@, start),
        decreases n - wh,
    {
        let cur = work[wh];
        let ghost k0 = ks[wh as int];
        proof {
            assert(spec_star_reach(modules, start, cur, k0));
        }
        match &table.modules[cur] {
            Module::Normal(m) => {
                let ts = star_targets(m);
                let mut i: usize = 0;
                while i < ts.len()
                    invariant
                        i <= ts@.len(),
                        wh < work@.len(),
                        cur == work@[wh as int],
                        spec_star_reach(modules, start, cur, k0),
                        table.modules@[cur as int] matches Module::Normal(mm) && mm == *m,
                        work@ == visited@,
                        ks.len() == visited@.len(),
                        visited@.len() <= n,
                        forall|j: int| 0 <= j < visited@.len() ==> (#[trigger] visited@[j]) < n,
                        visited@.no_duplicates(),
                        forall|j: int|
                            0 <= j < visited@.len() ==> spec_star_reach(
                                modules,
                                start,
                                #[trigger] visited@[j],
                                ks[j],
                            ),
                        spec_node_closed(modules, start, visited@, start),
                        forall|p: int|
                            0 <= p < wh ==> spec_node_closed(
                                modules,
                                #[trigger] work@[p],
                                visited@,
                                start,
                            ),
                        forall|j: int|
                            0 <= j < i ==> ((#[trigger] ts@[j]) != start && (ts@[j] < n
                                ==> visited@.contains(ts@[j]))),
                    decreases ts@.len() - i,
                {
                    let t = ts[i];
                    proof {
                        assert(spec_record_star_target(m.import_records@, ts@[i as int]));
                        assert(spec_star_edge(modules, cur as int, t));
                        lemma_star_reach_extend(modules, start, cur, k0, t);
                    }
                    if t == start {
                        proof {
                            assert(spec_star_reach(modules, start, start, k0 + 1));
                        }
                        return Err(
                            BuildDiagnostic::new(
                                EventKind::ReExportCycle,
                                String::from_str("star re-exports form a cycle"),
                            ),
                        );
                    }
                    if t < n && !seen_idx(&visited, t) {
                        proof {
                            assert(visited@.push(t).no_duplicates());
                            lemma_nodup_idx_bound(visited@.push(t), n as nat);
                            assert(spec_star_reach(modules, start, t, k0 + 1));
                            ks = ks.push((k0 + 1) as nat);
                        }
                        let ghost pre_v = visited@;
                        visited.push(t);
                        work.push(t);
                        proof {
                            lemma_closed_mono(modules, start, pre_v, t, start);
                            assert forall|p: int|
                                0 <= p < wh implies spec_node_closed(
                                modules,
                                #[trigger] work@[p],
                                visited@,
                                start,
                            ) by {
                                assert(work@[p] == pre_v[p]);
                                assert(spec_node_closed(modules, pre_v[p], pre_v, start));
                                lemma_closed_mono(modules, pre_v[p], pre_v, t, start);
                            }
                            assert forall|j: int|
                                0 <= j < i + 1 implies ((#[trigger] ts@[j]) != start && (ts@[j]
                                < n ==> visited@.contains(ts@[j]))) by {
                                if j < i {
                                    if ts@[j] < n {
                                        let q = choose|q: int|
                                            0 <= q < pre_v.len() && pre_v[q] == ts@[j];
                                        assert(visited@[q] == ts@[j]);
                                    }
                                } else {
                                    assert(visited@[visited@.len() - 1] == t);
                                }
                            }
                        }
                    } else {
                        proof {
                            assert forall|j: int|
                                0 <= j < i + 1 implies ((#[trigger] ts@[j]) != start && (ts@[j]
                                < n ==> visited@.contains(ts@[j]))) by {
                                if j == i && t < n {
                                    assert(visited@.contains(t));
                                }
                            }
                        }
                    }
                    i += 1;
                }
                proof {
                    assert forall|t: usize| #[trigger]
                        spec_star_edge(modules, cur as int, t) implies (t != start && (t < n
                        ==> visited@.contains(t))) by {
                        let rj = choose|rj: int|
                            0 <= rj < m.import_records@.len() && (#[trigger] m.import_records@[
                                rj
                            ]).kind == crate::module::ImportKind::ExportStar
                                && m.import_records@[rj].resolved_module == t;
                        assert(ts@.contains(t));
                        let j = choose|j: int| 0 <= j < ts@.len() && ts@[j] == t;
                    }
                    assert(spec_node_closed(modules, cur, visited@, start));
                    assert forall|p: int|
                        0 <= p < wh + 1 implies spec_node_closed(
                        modules,
                        #[trigger] work@[p],
                        visited@,
                        start,
                    ) by {
                        if p == wh {
                            assert(work@[p] == cur);
                        }
                    }
                }
            },
            Module::External(_) => {
                proof {
                    assert forall|t: usize| #[trigger]
                        spec_star_edge(modules, cur as int, t) implies (t != start && (t < n
                        ==> visited@.contains(t))) by {}
                    assert(spec_node_closed(modules, cur, visited@, start));
                    assert forall|p: int|
                        0 <= p < wh + 1 implies spec_node_closed(
                        modules,
                        #[trigger] work@[p],
                        visited@,
                        start,
                    ) by {
                        if p == wh {
                            assert(work@[p] == cur);
                        }
                    }
                }
            },
        }
        wh += 1;
    }
    proof {
        assert forall|k: nat| !spec_star_reach(modules, start, start, k) by {
            if spec_star_reach(modules, start, start, k) {
                if spec_star_edge(modules, start as int, start) {
                    assert(start != start);
                } else {
                    let mid = choose|mid: usize|
                        #[trigger] spec_star_edge(modules, start as int, mid) && spec_star_reach(
                            modules,
                            mid,
                            start,
                            (k - 1) as nat,
                        );
                    assert(mid != start);
                    if mid < n {
                        assert(visited@.contains(mid));
                        lemma_no_reach_from_closed(modules, visited@, start, mid, (k - 1) as nat);
                        assert(!spec_star_reach(modules, mid, start, (k - 1) as nat));
                    } else {
                        lemma_no_reach_out_of_range(modules, mid, start, (k - 1) as nat);
                        assert(!spec_star_reach(modules, mid, start, (k - 1) as nat));
                    }
                }
                assert(false);
            }
        }
    }
    Ok(())
}

/// A duplicate-free list of indices below `n` has at most `n`
/// entries.
proof fn lemma_nodup_idx_bound(v: Seq<usize>, n: nat)
    requires
        v.no_duplicates(),
        n <= usize::MAX,
        forall|j: int| 0 <= j < v.len() ==> (#[trigger] v[j]) < n,
    ensures
        v.len() <= n,
{
    let uni = Seq::new(n, |i: int| i as usize);
    assert forall|j: int| 0 <= j < v.len() implies uni.contains(#[trigger] v[j]) by {
        assert(uni[v[j] as int] == v[j]);
    }
    assert forall|a: int, b: int| 0 <= a < b < uni.len() implies uni[a] != uni[b] by {
        assert(uni[a] == a as usize && uni[b] == b as usize);
    }
    assert(uni.no_duplicates());
    v.unique_seq_to_set();
    uni.lemma_cardinality_of_set();
    assert forall|x: usize| v.to_set().contains(x) implies uni.to_set().contains(x) by {
        assert(v.contains(x));
        let i = choose|i: int| 0 <= i < v.len() && v[i] == x;
        assert(uni.contains(v[i]));
    }
    assert(v.to_set() <= uni.to_set());
    vstd::set_lib::lemma_len_subset(v.to_set(), uni.to_set());
}

/// Rejects any re-export cycle in the table: the walk from every
/// module is bounded, so linking can never spin on a cyclic graph.
pub fn detect_star_cycles(table: &ModuleTable) -> (r: Result<(), BuildDiagnostic>)
    ensures
        r matches Err(e) ==> e.kind == EventKind::ReExportCycle && spec_star_cycle(
            table.modules@,
        ),
        r is Ok ==> !spec_star_cycle(table.modules@),
{
    let mut mi: usize = 0;
    while mi < table.modules.len()
        invariant
            mi <= table.modules@.len(),
            forall|m: usize, k: nat|
                m < mi ==> !(#[trigger] spec_star_reach(table.modules@, m, m, k)),
        decreases table.modules@.len() - mi,
    {
        match star_cycle_from(table, mi) {
            Ok(()) => {},
            Err(e) => {
                return Err(e);
            },
        }
        mi += 1;
    }
    proof {
        assert(!spec_star_cycle(table.modules@)) by {
            if spec_star_cycle(table.modules@) {
                let (m, k): (usize, nat) = choose|m: usize, k: nat|
                    spec_star_reach(table.modules@, m, m, k);
                if m < table.modules@.len() {
                    assert(!spec_star_reach(table.modules@, m, m, k));
                } else {
                    lemma_no_reach_out_of_range(table.modules@, m, m, k);
                }
                assert(false);
            }
        }
    }
    Ok(())
}

/// Looks `name` up among a module's own named exports.
fn find_named_export(m: &NormalModule, name: &String) -> (r: Option<SymbolRef>)
    ensures
        match r {
            Some(sr) => exists|i: int|
                0 <= i < m.named_exports@.len() && (#[trigger] m.named_exports@[i]).exported@
                    == name@ && m.named_exports@[i].referenced == sr,
            None => forall|i: int|
                0 <= i < m.named_exports@.len() ==> (#[trigger] m.named_exports@[i]).exported@
                    != name@,
        },
{
    let mut i: usize = 0;
    while i < m.named_exports.len()
        invariant
            i <= m.named_exports@.len(),
            forall|j: int|
                0 <= j < i ==> (#[trigger] m.named_exports@[j]).exported@ != name@,
        decreases m.named_exports@.len() - i,
    {
        if m.named_exports[i].exported.eq(name) {
            proof {
                assert(m.named_exports@[i as int].exported@ == name@);
            }
            return Some(m.named_exports[i].referenced);
        }
        i += 1;
    }
    None
}

/// Resolves `name` through a module's star-export fan-out: the first
/// module in the breadth-first walk that exports it wins. The walk
/// deduplicates visits and so always terminates.
#[verifier::loop_isolation(false)]
fn find_export_via_stars(table: &ModuleTable, start: usize, name: &String) -> (r: Option<
    SymbolRef,
>)
    requires
        start < table.modules@.len(),
{
    let n = table.modules.len();
    let mut visited: Vec<usize> = Vec::new();
    let mut work: Vec<usize> = Vec::new();
    let mut wh: usize = 0;
    match &table.modules[start] {
        Module::Normal(m) => {
            let ts = star_targets(m);
            let mut i: usize = 0;
            while i < ts.len()
                invariant
                    i <= ts@.len(),
                    wh == 0,
                    visited@.len() == work@.len(),
                    visited@.len() <= n,
                    forall|j: int| 0 <= j < visited@.len() ==> (#[trigger] visited@[j]) < n,
                    forall|j: int| 0 <= j < work@.len() ==> (#[trigger] work@[j]) < n,
                    visited@.no_duplicates(),
                decreases ts@.len() - i,
            {
                let t = ts[i];
                if t < n && t != start && !seen_idx(&visited, t) {
                    proof {
                        assert(visited@.push(t).no_duplicates());
                        lemma_nodup_idx_bound(visited@.push(t), n as nat);
                    }
                    visited.push(t);
                    work.push(t);
                }
                i += 1;
            }
        },
        Module::External(_) => {
            return None;
        },
    }
    while wh < work.len()
        invariant
            wh <= work@.len(),
            work@.len() == visited@.len(),
            visited@.len() <= n,
            forall|j: int| 0 <= j < work@.len() ==> (#[trigger] work@[j]) < n,
            forall|j: int| 0 <= j < visited@.len() ==> (#[trigger] visited@[j]) < n,
            visited@.no_duplicates(),
        decreases n - wh,
    {
        let cur = work[wh];
        match &table.modules[cur] {
            Module::Normal(m) => {
                match find_named_export(m, name) {
                    Some(sr) => {
                        return Some(sr);
                    },
                    None => {},
                }
                let ts = star_targets(m);
                let mut i: usize = 0;
                while i < ts.len()
                    invariant
                        i <= ts@.len(),
                        wh < work@.len(),
                        work@.len() == visited@.len(),
                        visited@.len() <= n,
                        forall|j: int| 0 <= j < work@.len() ==> (#[trigger] work@[j]) < n,
                        forall|j: int| 0 <= j < visited@.len() ==> (#[trigger] visited@[j]) < n,
                        visited@.no_duplicates(),
                    decreases ts@.len() - i,
                {
                    let t = ts[i];
                    if t < n && t != start && !seen_idx(&visited, t) {
                        proof {
                            assert(visited@.push(t).no_duplicates());
                            lemma_nodup_idx_bound(visited@.push(t), n as nat);
                        }
                        visited.push(t);
                        work.push(t);
                    }
                    i += 1;
                }
            },
            Module::External(_) => {},
        }
        wh += 1;
    }
    None
}


/// Resolves every named import of every module to a concrete
/// exporting binding, recording the resolution as a symbol link.
///
/// A name not found directly is chased through the target's
/// star-export fan-out. A name found nowhere is a missing-export
/// finding: an error under strict resolution, otherwise a warning
/// that leaves the reference behind its own local binding. Malformed
/// metadata is reported, never followed.
/// The binding is some module's import local: the only bindings the
/// linker ever merges into an exporting binding.
pub open spec fn spec_is_import_local(modules: Seq<Module>, s: SymbolRef) -> bool {
    exists|mi: int|
        {
            &&& 0 <= mi < modules.len()
            &&& (#[trigger] modules[mi]) matches Module::Normal(m)
            &&& exists|ni: int|
                0 <= ni < m.named_imports@.len() && (#[trigger] m.named_imports@[ni]).local == s
        }
}

#[verifier::loop_isolation(false)]
fn resolve_imports(
    table: &ModuleTable,
    symbols: &mut SymbolRefDb,
    strict: bool,
) -> (r: (Vec<BuildDiagnostic>, Vec<BuildDiagnostic>))
    requires
        old(symbols).wf(),
    ensures
        final(symbols).wf(),
        forall|s: SymbolRef|
            old(symbols).valid_ref(s) ==> (final(symbols).valid_ref(s) && final(symbols).spec_name(s) == old(symbols).spec_name(s) && ((#[trigger] final(symbols).spec_link(
                s,
            )) != old(symbols).spec_link(s) ==> spec_is_import_local(table.modules@, s))),
        forall|i: int|
            0 <= i < r.0@.len() ==> (#[trigger] r.0@[i]).kind == EventKind::MissingExport,
        forall|i: int|
            0 <= i < r.1@.len() ==> ((#[trigger] r.1@[i]).kind == EventKind::MissingExport
                || r.1@[i].kind == EventKind::ParseError),
        strict ==> r.0@.len() == 0,
{
    let mut warnings: Vec<BuildDiagnostic> = Vec::new();
    let mut errors: Vec<BuildDiagnostic> = Vec::new();
    let n = table.modules.len();
    let mut mi: usize = 0;
    while mi < n
        invariant
            mi <= n,
            n == table.modules@.len(),
            symbols.wf(),
            forall|i: int|
                0 <= i < warnings@.len() ==> (#[trigger] warnings@[i]).kind
                    == EventKind::MissingExport,
            forall|i: int|
                0 <= i < errors@.len() ==> ((#[trigger] errors@[i]).kind
                    == EventKind::MissingExport || errors@[i].kind == EventKind::ParseError),
            strict ==> warnings@.len() == 0,
            forall|s: SymbolRef|
                old(symbols).valid_ref(s) ==> (symbols.valid_ref(s) && symbols.spec_name(s)
                    == old(symbols).spec_name(s) && ((#[trigger] symbols.spec_link(s)) != old(symbols).spec_link(s) ==> spec_is_import_local(table.modules@, s))),
        decreases n - mi,
    {
        match &table.modules[mi] {
            Module::External(_) => {},
            Module::Normal(m) => {
                let mut ni: usize = 0;
                while ni < m.named_imports.len()
                    invariant
                        ni <= m.named_imports@.len(),
                        n == table.modules@.len(),
                        mi < n,
                        table.modules@[mi as int] matches Module::Normal(mm) && mm == *m,
                        symbols.wf(),
                        forall|i: int|
                            0 <= i < warnings@.len() ==> (#[trigger] warnings@[i]).kind
                                == EventKind::MissingExport,
                        forall|i: int|
                            0 <= i < errors@.len() ==> ((#[trigger] errors@[i]).kind
                                == EventKind::MissingExport || errors@[i].kind
                                == EventKind::ParseError),
                        strict ==> warnings@.len() == 0,
                        forall|s: SymbolRef|
                            old(symbols).valid_ref(s) ==> (symbols.valid_ref(s)
                                && symbols.spec_name(s) == old(symbols).spec_name(s) && ((
                            #[trigger] symbols.spec_link(s)) != old(symbols).spec_link(s)
                                ==> spec_is_import_local(table.modules@, s))),
                    decreases m.named_imports@.len() - ni,
                {
                    let imp = &m.named_imports[ni];
                    if imp.record_idx >= m.import_records.len() {
                        errors.push(
                            BuildDiagnostic::new(
                                EventKind::ParseError,
                                String::from_str("import clause names a record that does not exist"),
                            ),
                        );
                    } else {
                        let target = m.import_records[imp.record_idx].resolved_module;
                        if target >= n {
                            errors.push(
                                BuildDiagnostic::new(
                                    EventKind::ParseError,
                                    String::from_str("import record targets no module"),
                                ),
                            );
                        } else {
                            let resolved: Option<SymbolRef> = match &table.modules[target] {
                                Module::External(ext) => Some(ext.namespace_ref),
                                Module::Normal(t) => match &imp.imported {
                                    ImportName::Namespace => Some(t.namespace_object_ref),
                                    ImportName::Default => match t.default_export_ref {
                                        Some(d) => Some(d),
                                        None => None,
                                    },
                                    ImportName::Name(name) => match find_named_export(t, name) {
                                        Some(sr) => Some(sr),
                                        None => find_export_via_stars(table, target, name),
                                    },
                                },
                            };
                            match resolved {
                                Some(sr) => {
                                    if check_valid_ref(symbols, imp.local) && check_valid_ref(
                                        symbols,
                                        sr,
                                    ) {
                                        let ghost pre_sym = *symbols;
                                        symbols.link(imp.local, sr);
                                        proof {
                                            assert(0 <= mi < table.modules@.len());
                                            assert({
                                                &&& table.modules@[mi as int] matches
                                                    Module::Normal(mm2)
                                                &&& 0 <= ni < mm2.named_imports@.len()
                                                &&& (mm2.named_imports@[ni as int]).local
                                                    == imp.local
                                            });
                                            assert(spec_is_import_local(
                                                table.modules@,
                                                imp.local,
                                            ));
                                            assert forall|s: SymbolRef|
                                                old(symbols).valid_ref(s) implies (
                                            symbols.valid_ref(s) && symbols.spec_name(s) == old(symbols).spec_name(s) && ((#[trigger] symbols.spec_link(s))
                                                != old(symbols).spec_link(s)
                                                ==> spec_is_import_local(
                                                table.modules@,
                                                s,
                                            ))) by {
                                                if s == imp.local {
                                                } else {
                                                    assert(symbols.spec_link(s)
                                                        == pre_sym.spec_link(s));
                                                }
                                            }
                                        }
                                    } else {
                                        errors.push(
                                            BuildDiagnostic::new(
                                                EventKind::ParseError,
                                                String::from_str(
                                                    "import binding is outside the symbol table",
                                                ),
                                            ),
                                        );
                                    }
                                },
                                None => {
                                    let mut message = String::from_str(
                                        "importer references a missing export",
                                    );
                                    if strict {
                                        errors.push(
                                            BuildDiagnostic::new(
                                                EventKind::MissingExport,
                                                message,
                                            ),
                                        );
                                    } else {
                                        warnings.push(
                                            BuildDiagnostic::new(
                                                EventKind::MissingExport,
                                                message,
                                            ),
                                        );
                                    }
                                },
                            }
                        }
                    }
                    ni += 1;
                }
            },
        }
        mi += 1;
    }
    (warnings, errors)
}

/// Per-module linking metadata the finalizers consume: whether the
/// module is included at all, and which of its statements survive
/// tree-shaking.
pub struct LinkingMetadata {
    pub included: bool,
    pub stmts_included: Vec<bool>,
}

/// Metadata slots sit beside their modules, one flag per statement.
pub open spec fn spec_metadata_aligned(
    modules: Seq<Module>,
    metadata: Seq<LinkingMetadata>,
) -> bool {
    &&& metadata.len() == modules.len()
    &&& forall|i: int|
        0 <= i < modules.len() ==> match #[trigger] modules[i] {
            Module::Normal(m) => metadata[i].stmts_included@.len() == m.stmt_infos@.len(),
            Module::External(_) => true,
        }
}

/// Entry modules and the runtime keep their whole top level.
pub open spec fn spec_seeds_included(
    modules: Seq<Module>,
    metadata: Seq<LinkingMetadata>,
    runtime_idx: usize,
) -> bool {
    forall|i: int|
        0 <= i < modules.len() && i < metadata.len() ==> match #[trigger] modules[i] {
            Module::Normal(m) => (m.is_user_defined_entry || i == runtime_idx) ==> (
            metadata[i].included && forall|j: int|
                0 <= j < metadata[i].stmts_included@.len() ==> (
                #[trigger] metadata[i].stmts_included@[j])),
            Module::External(_) => true,
        }
}

/// Every requested entry point keeps its whole top level, whether or
/// not its module carries the user-entry flag.
pub open spec fn spec_entries_included(
    entry_points: Seq<usize>,
    metadata: Seq<LinkingMetadata>,
) -> bool {
    forall|k: int|
        0 <= k < entry_points.len() && (#[trigger] entry_points[k]) < metadata.len() ==> (
        metadata[entry_points[k] as int].included && forall|j: int|
            0 <= j < metadata[entry_points[k] as int].stmts_included@.len()
                ==> #[trigger] metadata[entry_points[k] as int].stmts_included@[j])
}

/// Growing the flags preserves the entry-point guarantee.
proof fn lemma_entries_monotone(
    entry_points: Seq<usize>,
    a: Seq<LinkingMetadata>,
    b: Seq<LinkingMetadata>,
)
    requires
        spec_entries_included(entry_points, a),
        spec_metadata_monotone(a, b),
    ensures
        spec_entries_included(entry_points, b),
{
    assert forall|k: int|
        0 <= k < entry_points.len() && (#[trigger] entry_points[k]) < b.len() implies (
    b[entry_points[k] as int].included && forall|j: int|
        0 <= j < b[entry_points[k] as int].stmts_included@.len()
            ==> #[trigger] b[entry_points[k] as int].stmts_included@[j]) by {
        let e = entry_points[k] as int;
        assert(a[e].included);
        assert forall|j: int|
            0 <= j < b[e].stmts_included@.len() implies #[trigger] b[e].stmts_included@[j] by {
            assert(a[e].stmts_included@[j]);
        }
    }
}

/// Inclusion only ever grows: a later metadata state keeps every flag
/// an earlier one set.
pub open spec fn spec_metadata_monotone(
    a: Seq<LinkingMetadata>,
    b: Seq<LinkingMetadata>,
) -> bool {
    &&& a.len() == b.len()
    &&& forall|k: int|
        0 <= k < a.len() ==> ((#[trigger] a[k]).included ==> b[k].included)
            && a[k].stmts_included@.len() == b[k].stmts_included@.len() && (forall|j: int|
            0 <= j < a[k].stmts_included@.len() ==> ((#[trigger] a[k].stmts_included@[j])
                ==> b[k].stmts_included@[j]))
}

/// Monotone growth composes.
proof fn lemma_monotone_trans(
    a: Seq<LinkingMetadata>,
    b: Seq<LinkingMetadata>,
    c: Seq<LinkingMetadata>,
)
    requires
        spec_metadata_monotone(a, b),
        spec_metadata_monotone(b, c),
    ensures
        spec_metadata_monotone(a, c),
{
    assert forall|k: int|
        0 <= k < a.len() implies ((#[trigger] a[k]).included ==> c[k].included)
        && a[k].stmts_included@.len() == c[k].stmts_included@.len() && (forall|j: int|
        0 <= j < a[k].stmts_included@.len() ==> ((#[trigger] a[k].stmts_included@[j])
            ==> c[k].stmts_included@[j])) by {
        assert(a[k].included ==> b[k].included);
        assert forall|j: int|
            0 <= j < a[k].stmts_included@.len() implies ((#[trigger] a[k].stmts_included@[j])
            ==> c[k].stmts_included@[j]) by {
            if a[k].stmts_included@[j] {
                assert(b[k].stmts_included@[j]);
            }
        }
    }
}

/// Growing the flags preserves the seed guarantee.
proof fn lemma_seeds_monotone(
    modules: Seq<Module>,
    a: Seq<LinkingMetadata>,
    b: Seq<LinkingMetadata>,
    runtime_idx: usize,
)
    requires
        spec_seeds_included(modules, a, runtime_idx),
        spec_metadata_monotone(a, b),
    ensures
        spec_seeds_included(modules, b, runtime_idx),
{
    assert forall|i: int|
        0 <= i < modules.len() && i < b.len() implies match #[trigger] modules[i] {
        Module::Normal(m) => (m.is_user_defined_entry || i == runtime_idx) ==> (b[i].included
            && forall|j: int|
            0 <= j < b[i].stmts_included@.len() ==> (#[trigger] b[i].stmts_included@[j])),
        Module::External(_) => true,
    } by {
        match modules[i] {
            Module::Normal(m) => {
                if m.is_user_defined_entry || i == runtime_idx {
                    assert(a[i].included);
                    assert forall|j: int|
                        0 <= j < b[i].stmts_included@.len() implies (
                    #[trigger] b[i].stmts_included@[j]) by {
                        assert(a[i].stmts_included@[j]);
                    }
                }
            },
            Module::External(_) => {},
        }
    }
}

/// Computes statement inclusion by a monotone fixed point: an entry
/// module's top level and the runtime are included outright; an
/// included module keeps its side-effecting statements; an included
/// statement pulls in, for every binding it references, the
/// statements declaring that binding's canonical representative.
/// Unreached statements stay dropped.
#[verifier::loop_isolation(false)]
fn tree_shake(
    table: &ModuleTable,
    symbols: &SymbolRefDb,
    entry_points: &Vec<usize>,
    runtime_idx: usize,
) -> (r: Vec<LinkingMetadata>)
    requires
        symbols.wf(),
    ensures
        spec_metadata_aligned(table.modules@, r@),
        spec_seeds_included(table.modules@, r@, runtime_idx),
        spec_entries_included(entry_points@, r@),
{
    let n = table.modules.len();
    let mut metadata: Vec<LinkingMetadata> = Vec::new();
    let mut i: usize = 0;
    while i < n
        invariant
            i <= n,
            n == table.modules@.len(),
            metadata@.len() == i,
            forall|j: int|
                0 <= j < i ==> match #[trigger] table.modules@[j] {
                    Module::Normal(m) => metadata@[j].stmts_included@.len()
                        == m.stmt_infos@.len(),
                    Module::External(_) => true,
                },
            spec_seeds_included(table.modules@, metadata@, runtime_idx),
        decreases n - i,
    {
        let stmts_included: Vec<bool> = match &table.modules[i] {
            Module::Normal(m) => {
                let count = m.stmt_infos.len();
                let mut flags: Vec<bool> = Vec::new();
                let mut j: usize = 0;
                let is_entry = match &table.modules[i] {
                    Module::Normal(mm) => mm.is_user_defined_entry,
                    _ => false,
                };
                while j < count
                    invariant
                        j <= count,
                        flags@.len() == j,
                        forall|jj: int|
                            0 <= jj < j ==> #[trigger] flags@[jj] == (m.is_user_defined_entry
                                || i == runtime_idx),
                    decreases count - j,
                {
                    flags.push(is_entry || i == runtime_idx);
                    j += 1;
                }
                flags
            },
            Module::External(_) => Vec::new(),
        };
        let included = match &table.modules[i] {
            Module::Normal(m) => m.is_user_defined_entry || i == runtime_idx,
            Module::External(_) => false,
        };
        let ghost pre_meta = metadata@;
        metadata.push(LinkingMetadata { included, stmts_included });
        proof {
            assert forall|j: int|
                0 <= j < table.modules@.len() && j < metadata@.len() implies match
                #[trigger] table.modules@[j] {
                Module::Normal(m) => (m.is_user_defined_entry || j == runtime_idx) ==> (
                metadata@[j].included && forall|jj: int|
                    0 <= jj < metadata@[j].stmts_included@.len() ==> (
                    #[trigger] metadata@[j].stmts_included@[jj])),
                Module::External(_) => true,
            } by {
                if j < pre_meta.len() {
                    assert(metadata@[j] == pre_meta[j]);
                }
            }
        }
        i += 1;
    }
    // make every entry point included even when its module is not
    // flagged as a user entry
    let mut e: usize = 0;
    while e < entry_points.len()
        invariant
            e <= entry_points@.len(),
            spec_metadata_aligned(table.modules@, metadata@),
            spec_seeds_included(table.modules@, metadata@, runtime_idx),
            spec_entries_included(entry_points@.subrange(0, e as int), metadata@),
        decreases entry_points@.len() - e,
    {
        let ghost done = entry_points@.subrange(0, e as int);
        let ep = entry_points[e];
        if ep < metadata.len() {
            let ghost pre = metadata@;
            let flags_len = metadata[ep].stmts_included.len();
            let mut flags: Vec<bool> = Vec::new();
            let mut j: usize = 0;
            while j < flags_len
                invariant
                    j <= flags_len,
                    flags@.len() == j,
                    forall|jj: int| 0 <= jj < j ==> #[trigger] flags@[jj],
                decreases flags_len - j,
            {
                flags.push(true);
                j += 1;
            }
            metadata[ep] = LinkingMetadata { included: true, stmts_included: flags };
            proof {
                assert(metadata@ == pre.update(ep as int, metadata@[ep as int]));
                assert(metadata@[ep as int].stmts_included@.len() == pre[
                    ep as int
                ].stmts_included@.len());
                assert(spec_metadata_monotone(pre, metadata@));
                lemma_seeds_monotone(table.modules@, pre, metadata@, runtime_idx);
                lemma_entries_monotone(done, pre, metadata@);
            }
        }
        proof {
            assert(entry_points@.subrange(0, e + 1) == done.push(entry_points@[e as int]));
            assert forall|k: int|
                0 <= k < e + 1 && (#[trigger] entry_points@.subrange(0, e + 1)[k])
                    < metadata@.len() implies (metadata@[entry_points@.subrange(0, e + 1)[
                k
            ] as int].included && forall|j: int|
                0 <= j < metadata@[entry_points@.subrange(0, e + 1)[k] as int].stmts_included@.len()
                    ==> #[trigger] metadata@[entry_points@.subrange(0, e + 1)[
                    k
                ] as int].stmts_included@[j]) by {
                if k < e {
                    assert(entry_points@.subrange(0, e + 1)[k] == done[k]);
                } else {
                    assert(entry_points@.subrange(0, e + 1)[k] == entry_points@[e as int]);
                }
            }
        }
        e += 1;
    }
    proof {
        assert(entry_points@.subrange(0, entry_points@.len() as int) == entry_points@);
    }
    // propagate inclusion to a fixed point; each effective round
    // includes at least one more statement, so the round budget of
    // one round per statement plus one always suffices
    let mut total: u64 = 1;
    let mut ti: usize = 0;
    while ti < n
        invariant
            ti <= n,
            n == table.modules@.len(),
            total >= 1,
            spec_metadata_aligned(table.modules@, metadata@),
        decreases n - ti,
    {
        match &table.modules[ti] {
            Module::Normal(m) => {
                let c = m.stmt_infos.len() as u64;
                if total <= u64::MAX - c {
                    total = total + c;
                }
            },
            Module::External(_) => {},
        }
        ti += 1;
    }
    let mut round: u64 = 0;
    while round < total
        invariant
            round <= total,
            n == table.modules@.len(),
            spec_metadata_aligned(table.modules@, metadata@),
            spec_seeds_included(table.modules@, metadata@, runtime_idx),
            spec_entries_included(entry_points@, metadata@),
        decreases total - round,
    {
        let mut changed = false;
        let mut mi: usize = 0;
        while mi < n
            invariant
                mi <= n,
                n == table.modules@.len(),
                spec_metadata_aligned(table.modules@, metadata@),
                spec_seeds_included(table.modules@, metadata@, runtime_idx),
                spec_entries_included(entry_points@, metadata@),
            decreases n - mi,
        {
            match &table.modules[mi] {
                Module::Normal(m) => {
                    // an included module keeps its side-effecting statements
                    if metadata[mi].included {
                        let mut j: usize = 0;
                        while j < m.stmt_infos.len()
                            invariant
                                j <= m.stmt_infos@.len(),
                                n == table.modules@.len(),
                                mi < n,
                                table.modules@[mi as int] matches Module::Normal(mm) && mm
                                    == *m,
                                spec_metadata_aligned(table.modules@, metadata@),
                                spec_seeds_included(table.modules@, metadata@, runtime_idx),
                                spec_entries_included(entry_points@, metadata@),
                            decreases m.stmt_infos@.len() - j,
                        {
                            if m.stmt_infos[j].side_effects && !metadata[mi].stmts_included[j] {
                                let ghost pre = metadata@;
                                set_stmt_flag(&mut metadata, mi, j);
                                changed = true;
                                proof {
                                    assert(spec_metadata_monotone(pre, metadata@));
                                    lemma_seeds_monotone(
                                        table.modules@,
                                        pre,
                                        metadata@,
                                        runtime_idx,
                                    );
                                    lemma_entries_monotone(entry_points@, pre, metadata@);
                                }
                            }
                            j += 1;
                        }
                    }
                    // an included statement pulls in what it references
                    let mut j: usize = 0;
                    while j < m.stmt_infos.len()
                        invariant
                            j <= m.stmt_infos@.len(),
                            n == table.modules@.len(),
                            mi < n,
                            table.modules@[mi as int] matches Module::Normal(mm) && mm == *m,
                            spec_metadata_aligned(table.modules@, metadata@),
                            spec_seeds_included(table.modules@, metadata@, runtime_idx),
                            spec_entries_included(entry_points@, metadata@),
                        decreases m.stmt_infos@.len() - j,
                    {
                        if metadata[mi].stmts_included[j] {
                            let mut ri: usize = 0;
                            while ri < m.stmt_infos[j].referenced.len()
                                invariant
                                    ri <= m.stmt_infos@[j as int].referenced@.len(),
                                    j < m.stmt_infos@.len(),
                                    n == table.modules@.len(),
                                    mi < n,
                                    table.modules@[mi as int] matches Module::Normal(mm) && mm
                                        == *m,
                                    spec_metadata_aligned(table.modules@, metadata@),
                                    spec_seeds_included(table.modules@, metadata@, runtime_idx),
                                    spec_entries_included(entry_points@, metadata@),
                                decreases m.stmt_infos@[j as int].referenced@.len() - ri,
                            {
                                let sref = m.stmt_infos[j].referenced[ri];
                                if check_valid_ref(symbols, sref) {
                                    match symbols.canonical_ref(sref) {
                                        Ok(c) => {
                                            if c.module < n {
                                                let ghost pre = metadata@;
                                                if include_canonical(
                                                    table,
                                                    symbols,
                                                    &mut metadata,
                                                    c,
                                                ) {
                                                    changed = true;
                                                }
                                                proof {
                                                    lemma_seeds_monotone(
                                                        table.modules@,
                                                        pre,
                                                        metadata@,
                                                        runtime_idx,
                                                    );
                                                    lemma_entries_monotone(
                                                        entry_points@,
                                                        pre,
                                                        metadata@,
                                                    );
                                                }
                                            }
                                        },
                                        Err(_) => {},
                                    }
                                }
                                ri += 1;
                            }
                        }
                        j += 1;
                    }
                },
                Module::External(_) => {},
            }
            mi += 1;
        }
        if !changed {
            return metadata;
        }
        round = round + 1;
    }
    metadata
}

/// Flips one statement flag to included.
fn set_stmt_flag(metadata: &mut Vec<LinkingMetadata>, mi: usize, j: usize)
    requires
        mi < old(metadata)@.len(),
        j < old(metadata)@[mi as int].stmts_included@.len(),
    ensures
        final(metadata)@.len() == old(metadata)@.len(),
        forall|k: int|
            0 <= k < final(metadata)@.len() && k != mi ==> #[trigger] final(metadata)@[k] == old(
                metadata,
            )@[k],
        final(metadata)@[mi as int].included == old(metadata)@[mi as int].included,
        final(metadata)@[mi as int].stmts_included@.len() == old(metadata)@[
            mi as int
        ].stmts_included@.len(),
        spec_metadata_monotone(old(metadata)@, final(metadata)@),
{
    let ghost pre = metadata@;
    metadata[mi].stmts_included[j] = true;
    proof {
        assert forall|k: int|
            0 <= k < metadata@.len() implies ((#[trigger] pre[k]).included
            ==> metadata@[k].included) && pre[k].stmts_included@.len()
            == metadata@[k].stmts_included@.len() && (forall|jj: int|
            0 <= jj < pre[k].stmts_included@.len() ==> ((#[trigger] pre[k].stmts_included@[jj])
                ==> metadata@[k].stmts_included@[jj])) by {
            if k != mi {
                assert(metadata@[k] == pre[k]);
            }
        }
    }
}

/// Includes the module declaring a canonical representative and the
/// statements that declare a binding resolving to it. Reports whether
/// anything new was included.
#[verifier::loop_isolation(false)]
fn include_canonical(
    table: &ModuleTable,
    symbols: &SymbolRefDb,
    metadata: &mut Vec<LinkingMetadata>,
    c: SymbolRef,
) -> (changed: bool)
    requires
        symbols.wf(),
        c.module < table.modules@.len(),
        spec_metadata_aligned(table.modules@, old(metadata)@),
        old(metadata)@.len() == table.modules@.len(),
    ensures
        spec_metadata_aligned(table.modules@, final(metadata)@),
        final(metadata)@.len() == old(metadata)@.len(),
        spec_metadata_monotone(old(metadata)@, final(metadata)@),
{
    let mut changed = false;
    let tm = c.module;
    if !metadata[tm].included {
        let ghost pre = metadata@;
        let flags_len = metadata[tm].stmts_included.len();
        let mut slot = LinkingMetadata { included: true, stmts_included: Vec::new() };
        core::mem::swap(&mut slot, &mut metadata[tm]);
        let LinkingMetadata { included: _, stmts_included } = slot;
        metadata[tm] = LinkingMetadata { included: true, stmts_included };
        changed = true;
        proof {
            assert(metadata@[tm as int].stmts_included@.len() == pre[
                tm as int
            ].stmts_included@.len());
            assert(metadata@[tm as int].stmts_included@ == pre[tm as int].stmts_included@);
            assert forall|k: int|
                0 <= k < pre.len() implies ((#[trigger] pre[k]).included
                ==> metadata@[k].included) && pre[k].stmts_included@.len()
                == metadata@[k].stmts_included@.len() && (forall|jj: int|
                0 <= jj < pre[k].stmts_included@.len() ==> ((
                #[trigger] pre[k].stmts_included@[jj]) ==> metadata@[k].stmts_included@[jj]))
                by {
                if k != tm {
                    assert(metadata@[k] == pre[k]);
                }
            }
            assert(spec_metadata_monotone(pre, metadata@));
        }
    }
    match &table.modules[tm] {
        Module::Normal(m) => {
            let mut j: usize = 0;
            while j < m.stmt_infos.len()
                invariant
                    j <= m.stmt_infos@.len(),
                    tm < table.modules@.len(),
                    table.modules@[tm as int] matches Module::Normal(mm) && mm == *m,
                    symbols.wf(),
                    spec_metadata_aligned(table.modules@, metadata@),
                    metadata@.len() == table.modules@.len(),
                    spec_metadata_monotone(old(metadata)@, metadata@),
                decreases m.stmt_infos@.len() - j,
            {
                let mut di: usize = 0;
                let mut declares = false;
                while di < m.stmt_infos[j].declared.len()
                    invariant
                        di <= m.stmt_infos@[j as int].declared@.len(),
                        j < m.stmt_infos@.len(),
                        symbols.wf(),
                    decreases m.stmt_infos@[j as int].declared@.len() - di,
                {
                    let d = m.stmt_infos[j].declared[di];
                    if check_valid_ref(symbols, d) {
                        match symbols.canonical_ref(d) {
                            Ok(dc) => {
                                if dc.module == c.module && dc.symbol == c.symbol {
                                    declares = true;
                                }
                            },
                            Err(_) => {},
                        }
                    }
                    di += 1;
                }
                if declares {
                    if !metadata[tm].stmts_included[j] {
                        let ghost pre_step = metadata@;
                        set_stmt_flag(metadata, tm, j);
                        changed = true;
                        proof {
                            lemma_monotone_trans(old(metadata)@, pre_step, metadata@);
                        }
                    }
                }
                j += 1;
            }
        },
        Module::External(_) => {},
    }
    changed
}


/// Assigns one globally-unique display name to every canonical
/// representative, walking modules in table order and bindings in
/// declaration order so the assignment is reproducible. A colliding
/// base name is disambiguated with the smallest free numeric suffix;
/// the reserved runtime identifiers are never handed out.
#[verifier::loop_isolation(false)]
pub fn assign_canonical_names(symbols: &SymbolRefDb) -> (r: Result<
    CanonicalNames,
    Vec<BuildDiagnostic>,
>)
    requires
        symbols.wf(),
    ensures
        match r {
            Ok(cn) => {
                &&& cn.wf()
                &&& forall|i: int|
                    0 <= i < cn.names().len() ==> (#[trigger] cn.names()[i]) != "require"@
                        && cn.names()[i] != "module"@ && cn.names()[i] != "exports"@
                &&& forall|sr: SymbolRef|
                    #[trigger] symbols.valid_ref(sr) ==> exists|c: SymbolRef|
                        symbols.canonical_of(sr, c) && cn.keys().contains(c)
            },
            Err(errs) => errs@.len() >= 1 && forall|i: int|
                0 <= i < errs@.len() ==> (#[trigger] errs@[i]).kind == EventKind::ReExportCycle,
        },
{
    let ghost mut canon: Map<SymbolRef, SymbolRef> = Map::empty();
    let mut used: Vec<String> = Vec::new();
    used.push(String::from_str("require"));
    used.push(String::from_str("module"));
    used.push(String::from_str("exports"));
    let ghost seeds = spec_used_views(used@);
    let mut cn = CanonicalNames::new();
    let mut mi: usize = 0;
    while mi < symbols.local.len()
        invariant
            mi <= symbols.local@.len(),
            symbols.wf(),
            cn.wf(),
            spec_used_views(used@) =~= seeds + cn.names(),
            seeds.len() == 3,
            seeds[0] == "require"@,
            seeds[1] == "module"@,
            seeds[2] == "exports"@,
            forall|i: int|
                0 <= i < cn.names().len() ==> (#[trigger] cn.names()[i]) != "require"@
                    && cn.names()[i] != "module"@ && cn.names()[i] != "exports"@,
            forall|sr: SymbolRef|
                sr.module < mi && #[trigger] symbols.valid_ref(sr) ==> (canon.dom().contains(sr)
                    && symbols.canonical_of(sr, canon[sr]) && cn.keys().contains(canon[sr])),
        decreases symbols.local@.len() - mi,
    {
        let mut si: usize = 0;
        while si < symbols.local[mi].len()
            invariant
                si <= symbols.local@[mi as int]@.len(),
                mi < symbols.local@.len(),
                symbols.wf(),
                cn.wf(),
                spec_used_views(used@) =~= seeds + cn.names(),
                seeds.len() == 3,
                seeds[0] == "require"@,
                seeds[1] == "module"@,
                seeds[2] == "exports"@,
                forall|i: int|
                    0 <= i < cn.names().len() ==> (#[trigger] cn.names()[i]) != "require"@
                        && cn.names()[i] != "module"@ && cn.names()[i] != "exports"@,
                forall|sr: SymbolRef|
                    (sr.module < mi || (sr.module == mi && sr.symbol < si))
                        && #[trigger] symbols.valid_ref(sr) ==> (canon.dom().contains(sr)
                        && symbols.canonical_of(sr, canon[sr]) && cn.keys().contains(
                        canon[sr],
                    )),
            decreases symbols.local@[mi as int]@.len() - si,
        {
            let s = SymbolRef { module: mi, symbol: si };
            proof {
                assert(symbols.valid_ref(s));
            }
            let c = match symbols.canonical_ref(s) {
                Ok(c) => c,
                Err(e) => {
                    let mut errs: Vec<BuildDiagnostic> = Vec::new();
                    errs.push(e);
                    return Err(errs);
                },
            };
            let already = match cn.get(c) {
                Some(_) => true,
                None => false,
            };
            let ghost pre_cn_entries = cn.entries@;
            if already {
                proof {
                    let i = choose|i: int|
                        0 <= i < cn.entries@.len() && (#[trigger] cn.entries@[i]).0 == c;
                    assert(cn.keys()[i] == c);
                    assert(cn.keys().contains(c));
                    canon = canon.insert(s, c);
                    assert forall|sr: SymbolRef|
                        (sr.module < mi || (sr.module == mi && sr.symbol < si + 1))
                            && #[trigger] symbols.valid_ref(sr) implies (canon.dom().contains(
                        sr,
                    ) && symbols.canonical_of(sr, canon[sr]) && cn.keys().contains(canon[sr]))
                        by {
                        if sr == s {
                        }
                    }
                }
            }
            if !already {
                let raw = symbols.local[c.module][c.symbol].name.clone();
                let mut base = crate::util::legitimize_identifier_name(raw.as_str());
                if base.as_str().unicode_len() == 0 {
                    base = String::from_str("_");
                }
                let name = pick_fresh_name(&used, &base);
                proof {
                    assert forall|i: int|
                        0 <= i < cn.entries@.len() implies (#[trigger] cn.entries@[i]).1@
                        != name@ by {
                        assert(cn.names()[i] == cn.entries@[i].1@);
                        assert(spec_used_views(used@)[seeds.len() + i] == cn.names()[i]);
                        assert(used@[seeds.len() + i]@ == cn.names()[i]);
                    }
                    assert(spec_used_views(used@) == seeds + cn.names());
                    assert(used@.len() == seeds.len() + cn.names().len());
                    assert(spec_used_views(used@)[0] == used@[0]@);
                    assert(spec_used_views(used@)[1] == used@[1]@);
                    assert(spec_used_views(used@)[2] == used@[2]@);
                    assert((seeds + cn.names())[0] == seeds[0]);
                    assert((seeds + cn.names())[1] == seeds[1]);
                    assert((seeds + cn.names())[2] == seeds[2]);
                    assert(used@[0]@ == "require"@ && used@[1]@ == "module"@ && used@[2]@
                        == "exports"@);
                }
                let ghost pre_used = used@;
                let ghost pre_names = cn.names();
                cn.insert(c, name.clone());
                used.push(name);
                proof {
                    assert(spec_used_views(used@) =~= seeds + cn.names()) by {
                        assert(cn.names() =~= pre_names.push(used@.last()@));
                        assert(spec_used_views(used@) =~= spec_used_views(pre_used).push(
                            used@.last()@,
                        ));
                    }
                    assert forall|i: int|
                        0 <= i < cn.names().len() implies (#[trigger] cn.names()[i])
                        != "require"@ && cn.names()[i] != "module"@ && cn.names()[i]
                        != "exports"@ by {
                        if i < pre_names.len() {
                            assert(cn.names()[i] == pre_names[i]);
                        } else {
                            assert(cn.names()[i] == used@.last()@);
                            assert(pre_used[0]@ == "require"@ && pre_used[1]@ == "module"@
                                && pre_used[2]@ == "exports"@);
                        }
                    }
                    canon = canon.insert(s, c);
                    assert(cn.keys()[cn.keys().len() - 1] == c);
                    assert(cn.keys().contains(c));
                    assert forall|sr: SymbolRef|
                        (sr.module < mi || (sr.module == mi && sr.symbol < si + 1))
                            && #[trigger] symbols.valid_ref(sr) implies (canon.dom().contains(
                        sr,
                    ) && symbols.canonical_of(sr, canon[sr]) && cn.keys().contains(canon[sr]))
                        by {
                        if sr == s {
                        } else {
                            let q = choose|q: int|
                                0 <= q < pre_cn_entries.len() && (#[trigger] pre_cn_entries[
                                    q
                                ]).0 == canon[sr];
                            assert(cn.keys()[q] == canon[sr]);
                        }
                    }
                }
            }
            si += 1;
        }
        mi += 1;
    }
    proof {
        assert forall|sr: SymbolRef| #[trigger] symbols.valid_ref(sr) implies exists|c: SymbolRef|
            symbols.canonical_of(sr, c) && cn.keys().contains(c) by {
            assert(canon.dom().contains(sr) && symbols.canonical_of(sr, canon[sr])
                && cn.keys().contains(canon[sr]));
        }
    }
    Ok(cn)
}

/// Two tables share their star-export shape: the same slots are
/// normal, with the same resolved records.
pub open spec fn spec_same_star_shape(a: Seq<Module>, b: Seq<Module>) -> bool {
    &&& a.len() == b.len()
    &&& forall|j: int|
        0 <= j < a.len() ==> match (#[trigger] a[j], #[trigger] b[j]) {
            (Module::Normal(x), Module::Normal(y)) => x.import_records == y.import_records,
            (Module::External(_), Module::External(_)) => true,
            _ => false,
        }
}

/// Same shape, same star reachability.
proof fn lemma_same_shape_reach(a: Seq<Module>, b: Seq<Module>, x: usize, y: usize, k: nat)
    requires
        spec_same_star_shape(a, b),
        spec_star_reach(a, x, y, k),
    ensures
        spec_star_reach(b, x, y, k),
    decreases k,
{
    if spec_star_edge(a, x as int, y) {
        assert(spec_star_edge(b, x as int, y));
    } else {
        let mid = choose|mid: usize|
            #[trigger] spec_star_edge(a, x as int, mid) && spec_star_reach(
                a,
                mid,
                y,
                (k - 1) as nat,
            );
        assert(spec_star_edge(b, x as int, mid));
        lemma_same_shape_reach(a, b, mid, y, (k - 1) as nat);
    }
}

/// Same shape, same cycles.
proof fn lemma_same_shape_cycle(a: Seq<Module>, b: Seq<Module>)
    requires
        spec_same_star_shape(a, b),
        spec_star_cycle(a),
    ensures
        spec_star_cycle(b),
{
    let (m, k): (usize, nat) = choose|m: usize, k: nat| spec_star_reach(a, m, m, k);
    lemma_same_shape_reach(a, b, m, m, k);
}

/// What the linker hands forward: the table with execution order and
/// inclusion settled, the fully resolved symbol store, per-module
/// linking metadata and the canonical-name table.
pub struct LinkStageOutput {
    pub module_table: ModuleTable,
    pub module_id_to_modules: VisitedMap,
    pub ast_table: Vec<(EcmaAst, usize)>,
    pub symbol_db: SymbolRefDb,
    pub metadata: Vec<LinkingMetadata>,
    pub canonical_names: CanonicalNames,
    pub warnings: Vec<BuildDiagnostic>,
    pub runtime: RuntimeModuleBrief,
    pub entry_points: Vec<usize>,
}

/// The linker, consuming a completed load.
pub struct LinkStage {
    pub input: ModuleLoaderOutput,
}

impl LinkStage {
    /// Wraps a completed load for linking.
    pub fn new(input: ModuleLoaderOutput) -> (r: LinkStage)
        ensures
            r.input == input,
    {
        LinkStage { input }
    }

    /// Runs the whole link: re-export cycles are rejected first, then
    /// every import is bound, statement inclusion is computed, and
    /// canonical names are assigned collision-free.
    #[verifier::loop_isolation(false)]
    pub fn link(self, options: &NormalizedBundlerOptions) -> (r: Result<
        LinkStageOutput,
        Vec<BuildDiagnostic>,
    >)
        requires
            self.input.module_table.wf(),
            self.input.symbol_ref_db.wf(),
            crate::loader::spec_table_ast_aligned(
                self.input.module_table.modules@,
                self.input.index_ecma_ast@,
            ),
        ensures
            match r {
                Ok(out) => {
                    &&& out.canonical_names.wf()
                    &&& spec_metadata_aligned(out.module_table.modules@, out.metadata@)
                    &&& spec_seeds_included(
                        out.module_table.modules@,
                        out.metadata@,
                        out.runtime.idx,
                    )
                    &&& spec_entries_included(out.entry_points@, out.metadata@)
                    &&& out.module_table.wf()
                    &&& out.symbol_db.wf()
                    &&& out.module_table.modules@.len() == self.input.module_table.modules@.len()
                    &&& out.module_id_to_modules == self.input.module_id_to_modules
                    &&& out.ast_table == self.input.index_ecma_ast
                    &&& crate::loader::spec_table_ast_aligned(
                        out.module_table.modules@,
                        out.ast_table@,
                    )
                    &&& forall|s: SymbolRef|
                        self.input.symbol_ref_db.valid_ref(s) ==> (out.symbol_db.valid_ref(s)
                            && out.symbol_db.spec_name(s) == self.input.symbol_ref_db.spec_name(
                            s,
                        ) && ((#[trigger] out.symbol_db.spec_link(s))
                            != self.input.symbol_ref_db.spec_link(s) ==> spec_is_import_local(
                            self.input.module_table.modules@,
                            s,
                        )))
                },
                Err(errs) => errs@.len() >= 1,
            },
            spec_star_cycle(self.input.module_table.modules@) ==> (r matches Err(errs)
                && errs@.len() == 1 && errs@[0].kind == EventKind::ReExportCycle),
            r matches Ok(out) ==> !spec_star_cycle(out.module_table.modules@),
    {
        let LinkStage { input } = self;
        let ModuleLoaderOutput {
            module_table,
            module_id_to_modules,
            index_ecma_ast,
            symbol_ref_db,
            warnings,
            runtime,
            entry_points,
        } = input;
        let mut table = module_table;
        let mut symbols = symbol_ref_db;
        let mut all_warnings = warnings;

        match detect_star_cycles(&table) {
            Ok(()) => {},
            Err(e) => {
                let mut errs: Vec<BuildDiagnostic> = Vec::new();
                errs.push(e);
                return Err(errs);
            },
        }

        let (mut link_warnings, link_errors) = resolve_imports(
            &table,
            &mut symbols,
            options.strict_missing_exports,
        );
        if link_errors.len() > 0 {
            return Err(link_errors);
        }
        all_warnings.append(&mut link_warnings);

        let metadata = tree_shake(&table, &symbols, &entry_points, runtime.idx);

        let canonical_names = match assign_canonical_names(&symbols) {
            Ok(cn) => cn,
            Err(errs) => {
                return Err(errs);
            },
        };

        // settle execution order and module inclusion on the table
        let ghost pre_settle = table.modules@;
        let n = table.modules.len();
        let mut i: usize = 0;
        while i < n
            invariant
                i <= n,
                n == table.modules@.len(),
                table.wf(),
                spec_metadata_aligned(table.modules@, metadata@),
                spec_seeds_included(table.modules@, metadata@, runtime.idx),
                metadata@.len() == n,
                crate::loader::spec_table_ast_aligned(table.modules@, index_ecma_ast@),
                spec_same_star_shape(pre_settle, table.modules@),
            decreases n - i,
        {
            let ghost pre_mods = table.modules@;
            let mut slot = Module::External(
                crate::module::ExternalModule::new(
                    i,
                    String::new(),
                    crate::module::DeterminedSideEffects::UserDefined(false),
                    SymbolRef { module: 0, symbol: 0 },
                ),
            );
            core::mem::swap(&mut slot, &mut table.modules[i]);
            let slot = match slot {
                Module::Normal(m) => {
                    let mut m = m;
                    m.exec_order = if i <= u32::MAX as usize {
                        i as u32
                    } else {
                        u32::MAX
                    };
                    m.included = metadata[i].included;
                    Module::Normal(m)
                },
                Module::External(e) => Module::External(e),
            };
            table.modules[i] = slot;
            proof {
                assert(table.modules@ == pre_mods.update(i as int, table.modules@[i as int]));
                assert(table.modules@[i as int].spec_idx() == i);
                assert forall|j: int|
                    0 <= j < n implies (#[trigger] table.modules@[j]).spec_idx() == j by {
                    if j != i {
                        assert(table.modules@[j] == pre_mods[j]);
                    }
                }
                assert forall|j: int|
                    0 <= j < n implies match #[trigger] table.modules@[j] {
                    Module::Normal(m) => metadata@[j].stmts_included@.len()
                        == m.stmt_infos@.len(),
                    Module::External(_) => true,
                } by {
                    if j != i {
                        assert(table.modules@[j] == pre_mods[j]);
                    }
                }
                assert forall|j: int|
                    0 <= j < n implies match #[trigger] table.modules@[j] {
                    Module::Normal(m) => m.ecma_ast_idx matches Some(a) ==> 0 <= a
                        < index_ecma_ast@.len() && index_ecma_ast@[a as int].1 == m.idx
                        && m.stmt_infos@.len() == index_ecma_ast@[a as int].0.stmts@.len(),
                    _ => true,
                } by {
                    if j != i {
                        assert(table.modules@[j] == pre_mods[j]);
                    }
                }
                assert forall|j: int|
                    0 <= j < n implies match (#[trigger] pre_settle[j], #[trigger] table.modules@[
                    j
                ]) {
                    (Module::Normal(x), Module::Normal(y)) => x.import_records
                        == y.import_records,
                    (Module::External(_), Module::External(_)) => true,
                    _ => false,
                } by {
                    if j != i {
                        assert(table.modules@[j] == pre_mods[j]);
                    }
                }
                assert forall|j: int|
                    0 <= j < n && j < metadata@.len() implies match #[trigger] table.modules@[j] {
                    Module::Normal(m) => (m.is_user_defined_entry || j == runtime.idx) ==> (
                    metadata@[j].included && forall|jj: int|
                        0 <= jj < metadata@[j].stmts_included@.len() ==> (
                        #[trigger] metadata@[j].stmts_included@[jj])),
                    Module::External(_) => true,
                } by {
                    if j != i {
                        assert(table.modules@[j] == pre_mods[j]);
                    }
                }
            }
            i += 1;
        }

        proof {
            if spec_star_cycle(table.modules@) {
                assert(spec_same_star_shape(table.modules@, pre_settle)) by {
                    assert forall|j: int|
                        0 <= j < table.modules@.len() implies match (
                    #[trigger] table.modules@[j], #[trigger] pre_settle[j]) {
                        (Module::Normal(x), Module::Normal(y)) => x.import_records
                            == y.import_records,
                        (Module::External(_), Module::External(_)) => true,
                        _ => false,
                    } by {}
                }
                lemma_same_shape_cycle(table.modules@, pre_settle);
                assert(false);
            }
        }
        Ok(
            LinkStageOutput {
                module_table: table,
                module_id_to_modules,
                ast_table: index_ecma_ast,
                symbol_db: symbols,
                metadata,
                canonical_names,
                warnings: all_warnings,
                runtime,
                entry_points,
            },
        )
    }
}

} // verus!
