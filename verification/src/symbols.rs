//! The symbol resolution table: a process-wide store that maps a
//! (module, local binding) pair to its canonical representative.
//!
//! Links collapse transitively; resolution follows them with an explicit
//! step budget, so a cyclic chain is reported as a hard error instead of
//! looping forever.

use vstd::prelude::*;

use crate::diagnostics::{BuildDiagnostic, EventKind};

verus! {

/// One binding: the module that declares it and its local symbol id.
/// Never compared across modules except through the resolution table.
#[derive(Clone, Copy, PartialEq, Eq, Structural, Debug)]
pub struct SymbolRef {
    pub module: usize,
    pub symbol: usize,
}

/// One local binding's entry: its original name and, once linked, the
/// reference it was merged into.
#[derive(Clone, PartialEq, Eq, Debug)]
pub struct SymbolEntry {
    pub name: String,
    pub link: Option<SymbolRef>,
}

/// The table itself: per module, the entries of its local bindings.
pub struct SymbolRefDb {
    pub local: Vec<Vec<SymbolEntry>>,
}

impl SymbolRefDb {
    /// True when the reference points at an entry of the table.
    pub open spec fn valid_ref(&self, s: SymbolRef) -> bool {
        s.module < self.local@.len() && s.symbol < self.local@[s.module as int]@.len()
    }

    /// The link of a binding, if it has been merged into another.
    pub open spec fn spec_link(&self, s: SymbolRef) -> Option<SymbolRef> {
        self.local@[s.module as int]@[s.symbol as int].link
    }

    /// The original name of a binding.
    pub open spec fn spec_name(&self, s: SymbolRef) -> Seq<char> {
        self.local@[s.module as int]@[s.symbol as int].name@
    }

    /// A root: a binding that has not been merged into any other, so it
    /// is its own canonical representative.
    pub open spec fn is_root(&self, s: SymbolRef) -> bool {
        self.spec_link(s) is None
    }

    /// Every link in the table points at an entry of the table.
    pub open spec fn wf(&self) -> bool {
        forall|s: SymbolRef|
            self.valid_ref(s) && (#[trigger] self.spec_link(s)) is Some ==> self.valid_ref(
                self.spec_link(s)->Some_0,
            )
    }

    /// `r` is reachable from `s` by following at most `k` links.
    pub open spec fn reaches_in(&self, s: SymbolRef, r: SymbolRef, k: nat) -> bool
        decreases k,
    {
        s == r || (k > 0 && self.valid_ref(s) && self.spec_link(s) is Some && self.reaches_in(
            self.spec_link(s)->Some_0,
            r,
            (k - 1) as nat,
        ))
    }

    /// `r` is the canonical representative of `s`: a root that the link
    /// chain starting at `s` reaches.
    pub open spec fn canonical_of(&self, s: SymbolRef, r: SymbolRef) -> bool {
        &&& exists|k: nat| self.reaches_in(s, r, k)
        &&& self.valid_ref(r)
        &&& self.is_root(r)
    }

    /// An empty table.
    pub fn new() -> (r: SymbolRefDb)
        ensures
            r.local@.len() == 0,
            r.wf(),
    {
        SymbolRefDb { local: Vec::new() }
    }

    /// Grows the table so that `module` indexes a (possibly empty)
    /// symbol list; modules already present are untouched.
    pub fn ensure_module(&mut self, module: usize)
        requires
            old(self).wf(),
        ensures
            final(self).wf(),
            final(self).local@.len() > module,
            final(self).local@.len() >= old(self).local@.len(),
            forall|m: int|
                0 <= m < old(self).local@.len() ==> final(self).local@[m] == old(self).local@[m],
            forall|m: int|
                old(self).local@.len() <= m < final(self).local@.len() ==> (#[trigger] final(self).local@[m])@ =~= Seq::<SymbolEntry>::empty(),
    {
        while self.local.len() <= module
            invariant
                self.local@.len() >= old(self).local@.len(),
                forall|m: int|
                    0 <= m < old(self).local@.len() ==> self.local@[m] == old(self).local@[m],
                forall|m: int|
                    old(self).local@.len() <= m < self.local@.len() ==> (
                    #[trigger] self.local@[m])@ =~= Seq::<SymbolEntry>::empty(),
            decreases module + 1 - self.local@.len(),
        {
            self.local.push(Vec::new());
        }
        proof {
            assert forall|s: SymbolRef|
                self.valid_ref(s) && (#[trigger] self.spec_link(s)) is Some implies self.valid_ref(
                self.spec_link(s)->Some_0,
            ) by {
                if (s.module as int) < old(self).local@.len() {
                    assert(self.local@[s.module as int] == old(self).local@[s.module as int]);
                    assert(old(self).valid_ref(s));
                    assert(old(self).spec_link(s) == self.spec_link(s));
                    let t = self.spec_link(s)->Some_0;
                    assert(old(self).valid_ref(t));
                    assert(self.local@[t.module as int] == old(self).local@[t.module as int]);
                } else {
                    assert(self.local@[s.module as int]@.len() == 0);
                }
            }
        }
    }

    /// The entries of module `m`, or the empty list where the table has
    /// not grown that far yet.
    pub open spec fn entries_or_empty(&self, m: int) -> Seq<SymbolEntry> {
        if 0 <= m < self.local@.len() {
            self.local@[m]@
        } else {
            Seq::<SymbolEntry>::empty()
        }
    }

    /// True when every link from some other module into `module` stays
    /// below `len`: replacing that module's entries with `len` of them
    /// then dangles nothing.
    pub open spec fn cross_links_below(&self, module: usize, len: nat) -> bool {
        forall|s: SymbolRef|
            self.valid_ref(s) && s.module != module && (#[trigger] self.spec_link(s)) is Some
                && self.spec_link(s)->Some_0.module == module ==> self.spec_link(
                s,
            )->Some_0.symbol < len
    }

    /// Decides `cross_links_below`, so a caller can refuse a shrinking
    /// replacement instead of assuming it cannot happen.
    pub fn check_cross_links_below(&self, module: usize, len: usize) -> (r: bool)
        ensures
            r == self.cross_links_below(module, len as nat),
    {
        let mut m: usize = 0;
        while m < self.local.len()
            invariant
                m <= self.local@.len(),
                forall|s: SymbolRef|
                    self.valid_ref(s) && s.module < m && s.module != module && (
                    #[trigger] self.spec_link(s)) is Some && self.spec_link(s)->Some_0.module
                        == module ==> self.spec_link(s)->Some_0.symbol < len,
            decreases self.local@.len() - m,
        {
            if m != module {
                let mut i: usize = 0;
                while i < self.local[m].len()
                    invariant
                        m < self.local@.len(),
                        m != module,
                        i <= self.local@[m as int]@.len(),
                        forall|s: SymbolRef|
                            self.valid_ref(s) && s.module < m && s.module != module && (
                            #[trigger] self.spec_link(s)) is Some && self.spec_link(
                                s,
                            )->Some_0.module == module ==> self.spec_link(s)->Some_0.symbol < len,
                        forall|s: SymbolRef|
                            self.valid_ref(s) && s.module == m && s.symbol < i && (
                            #[trigger] self.spec_link(s)) is Some && self.spec_link(
                                s,
                            )->Some_0.module == module ==> self.spec_link(s)->Some_0.symbol < len,
                    decreases self.local@[m as int]@.len() - i,
                {
                    match self.local[m][i].link {
                        Some(t) => {
                            if t.module == module && t.symbol >= len {
                                proof {
                                    let s = SymbolRef { module: m, symbol: i };
                                    assert(self.valid_ref(s));
                                    assert(self.spec_link(s) == Some(t));
                                }
                                return false;
                            }
                        },
                        None => {},
                    }
                    i += 1;
                }
            }
            m += 1;
        }
        true
    }

    /// Installs the local symbol entries that a module's scan produced.
    /// Every link they carry must stay inside that module's own list,
    /// and no other module may link past the new list's end.
    pub fn store_local_db(&mut self, module: usize, symbols: Vec<SymbolEntry>)
        requires
            old(self).wf(),
            forall|i: int|
                0 <= i < symbols@.len() && (#[trigger] symbols@[i].link) is Some ==> {
                    &&& symbols@[i].link->Some_0.module == module
                    &&& symbols@[i].link->Some_0.symbol < symbols@.len()
                },
            old(self).cross_links_below(module, symbols@.len()),
        ensures
            final(self).wf(),
            final(self).local@.len() > module,
            final(self).local@[module as int] == symbols,
            forall|m: int|
                0 <= m < final(self).local@.len() && m != module ==> (#[trigger] final(self).local@[m])@ == old(self).entries_or_empty(m),
    {
        self.ensure_module(module);
        let ghost pre = *self;
        self.local[module] = symbols;
        proof {
            assert(self.local@ == pre.local@.update(module as int, symbols));
            assert forall|s: SymbolRef|
                self.valid_ref(s) && (#[trigger] self.spec_link(s)) is Some implies self.valid_ref(
                self.spec_link(s)->Some_0,
            ) by {
                if s.module == module {
                    assert(self.spec_link(s) == symbols@[s.symbol as int].link);
                    assert((symbols@[s.symbol as int].link) is Some);
                    let t = symbols@[s.symbol as int].link->Some_0;
                    assert(t.module == module && t.symbol < symbols@.len());
                    assert(self.local@[module as int]@.len() == symbols@.len());
                } else {
                    assert(self.local@[s.module as int] == pre.local@[s.module as int]);
                    assert(pre.valid_ref(s));
                    assert(pre.spec_link(s) == self.spec_link(s));
                    let t = self.spec_link(s)->Some_0;
                    assert(pre.valid_ref(t));
                    if t.module != module {
                        assert(self.local@[t.module as int] == pre.local@[t.module as int]);
                    } else {
                        // the entry survives ensure_module, so the old table
                        // already bounded this cross-module link
                        assert((s.module as int) < old(self).local@.len());
                        assert(pre.local@[s.module as int] == old(self).local@[s.module as int]);
                        assert(old(self).valid_ref(s));
                        assert(old(self).spec_link(s) == self.spec_link(s));
                        assert(t.symbol < symbols@.len());
                    }
                }
            }
        }
    }

    /// Creates the facade binding that stands for an external module's
    /// namespace, so that imports of it link like internal ones.
    pub fn create_facade_root_symbol_ref(&mut self, module: usize, name: String) -> (r: SymbolRef)
        requires
            old(self).wf(),
        ensures
            final(self).wf(),
            final(self).valid_ref(r),
            final(self).is_root(r),
            r.module == module,
            final(self).spec_name(r) == name@,
            final(self).local@.len() > module,
            forall|s: SymbolRef|
                old(self).valid_ref(s) ==> final(self).valid_ref(s) && final(self).spec_link(s)
                    == old(self).spec_link(s) && final(self).spec_name(s) == old(self).spec_name(s),
            forall|s: SymbolRef|
                final(self).valid_ref(s) && s != r ==> old(self).valid_ref(s),
    {
        self.ensure_module(module);
        let ghost pre = *self;
        let symbol = self.local[module].len();
        self.local[module].push(SymbolEntry { name, link: None });
        let r = SymbolRef { module, symbol };
        proof {
            assert forall|s: SymbolRef| self.valid_ref(s) && s != r implies old(self).valid_ref(
                s,
            ) by {
                if s.module == module {
                    assert(s.symbol < pre.local@[module as int]@.len() + 1);
                    assert(s.symbol != symbol);
                    assert(pre.valid_ref(s));
                    if (s.module as int) < old(self).local@.len() {
                        assert(pre.local@[s.module as int] == old(self).local@[s.module as int]);
                    } else {
                        assert(pre.local@[s.module as int]@.len() == 0);
                    }
                } else {
                    assert(self.local@[s.module as int] == pre.local@[s.module as int]);
                    assert(pre.valid_ref(s));
                    if (s.module as int) < old(self).local@.len() {
                        assert(pre.local@[s.module as int] == old(self).local@[s.module as int]);
                    } else {
                        assert(pre.local@[s.module as int]@.len() == 0);
                    }
                }
            }
            assert(self.local@[module as int]@ == pre.local@[module as int]@.push(
                self.local@[module as int]@.last(),
            ));
            assert forall|s: SymbolRef|
                pre.valid_ref(s) implies self.valid_ref(s) && self.spec_link(s) == pre.spec_link(s)
                && self.spec_name(s) == pre.spec_name(s) by {
                if s.module == module {
                    assert(self.local@[s.module as int]@[s.symbol as int] == pre.local@[s.module
                        as int]@[s.symbol as int]);
                } else {
                    assert(self.local@[s.module as int] == pre.local@[s.module as int]);
                }
            }
            assert forall|s: SymbolRef|
                self.valid_ref(s) && (#[trigger] self.spec_link(s)) is Some implies self.valid_ref(
                self.spec_link(s)->Some_0,
            ) by {
                if s.module == module && s.symbol == symbol {
                    assert(self.spec_link(s) is None);
                } else {
                    assert(pre.valid_ref(s));
                    assert(self.spec_link(s) == pre.spec_link(s));
                    let t = self.spec_link(s)->Some_0;
                    assert(pre.valid_ref(t));
                }
            }
        }
        r
    }

    /// Merges `from` into `to`: from now on `from` resolves through
    /// `to`. Nothing here prevents a cycle; `canonical_ref` detects one
    /// and reports it instead of diverging.
    pub fn link(&mut self, from: SymbolRef, to: SymbolRef)
        requires
            old(self).wf(),
            old(self).valid_ref(from),
            old(self).valid_ref(to),
        ensures
            final(self).wf(),
            final(self).spec_link(from) == Some(to),
            final(self).local@.len() == old(self).local@.len(),
            forall|s: SymbolRef|
                old(self).valid_ref(s) ==> final(self).valid_ref(s) && final(self).spec_name(s)
                    == old(self).spec_name(s),
            forall|s: SymbolRef|
                old(self).valid_ref(s) && s != from ==> final(self).spec_link(s) == old(self).spec_link(s),
    {
        let ghost pre = *self;
        let name = self.local[from.module][from.symbol].name.clone();
        self.local[from.module][from.symbol] = SymbolEntry { name, link: Some(to) };
        proof {
            assert(self.local@[from.module as int]@[from.symbol as int].link == Some(to));
            assert forall|s: SymbolRef|
                pre.valid_ref(s) implies self.valid_ref(s) && self.spec_name(s) == pre.spec_name(s)
                by {
                if s.module == from.module {
                    if s.symbol != from.symbol {
                        assert(self.local@[s.module as int]@[s.symbol as int] == pre.local@[s.module
                            as int]@[s.symbol as int]);
                    }
                } else {
                    assert(self.local@[s.module as int] == pre.local@[s.module as int]);
                }
            }
            assert forall|s: SymbolRef|
                self.valid_ref(s) && (#[trigger] self.spec_link(s)) is Some implies self.valid_ref(
                self.spec_link(s)->Some_0,
            ) by {
                assert(pre.valid_ref(s));
                if s == from {
                    assert(self.spec_link(s) == Some(to));
                    assert(pre.valid_ref(to));
                } else {
                    if s.module == from.module {
                        assert(self.local@[s.module as int]@[s.symbol as int] == pre.local@[s.module
                            as int]@[s.symbol as int]);
                    } else {
                        assert(self.local@[s.module as int] == pre.local@[s.module as int]);
                    }
                    assert(self.spec_link(s) == pre.spec_link(s));
                    let t = self.spec_link(s)->Some_0;
                    assert(pre.valid_ref(t));
                    if t.module != from.module {
                        assert(self.local@[t.module as int] == pre.local@[t.module as int]);
                    }
                }
            }
        }
    }

    /// The number of binding entries in the first `n` modules.
    pub open spec fn spec_total_symbols(&self, n: int) -> nat
        decreases n,
    {
        if n <= 0 {
            0
        } else {
            self.spec_total_symbols(n - 1) + self.local@[n - 1]@.len()
        }
    }

    /// `r` is a root that the chain from `s` reaches within as many
    /// steps as the table holds entries — the acyclic case, in which
    /// resolution is owed a success.
    pub open spec fn spec_resolvable(&self, s: SymbolRef) -> bool {
        exists|rt: SymbolRef, k: nat|
            k <= self.spec_total_symbols(self.local@.len() as int) && #[trigger] self.reaches_in(
                s,
                rt,
                k,
            ) && self.is_root(rt) && self.valid_ref(rt)
    }

    /// The number of entries over all modules, plus one: a budget that
    /// any acyclic link chain's length stays under.
    fn step_budget(&self) -> (r: u128)
        ensures
            r >= 1,
            r as nat == 1 + self.spec_total_symbols(self.local@.len() as int),
    {
        let mut total: u128 = 1;
        let mut m: usize = 0;
        while m < self.local.len()
            invariant
                total >= 1,
                total <= 1 + (m as u128) * 0xFFFF_FFFF_FFFF_FFFFu128,
                m <= self.local@.len(),
                total as nat == 1 + self.spec_total_symbols(m as int),
            decreases self.local@.len() - m,
        {
            let len = self.local[m].len();
            proof {
                assert(len as u128 <= 0xFFFF_FFFF_FFFF_FFFFu128);
                assert(total + len as u128 <= 1 + (m as u128 + 1) * 0xFFFF_FFFF_FFFF_FFFFu128)
                    by (nonlinear_arith)
                    requires
                        total <= 1 + (m as u128) * 0xFFFF_FFFF_FFFF_FFFFu128,
                        len as u128 <= 0xFFFF_FFFF_FFFF_FFFFu128,
                ;
                assert((m as u128 + 1) * 0xFFFF_FFFF_FFFF_FFFFu128 < u128::MAX - 1)
                    by (nonlinear_arith)
                    requires
                        m as u128 <= 0xFFFF_FFFF_FFFF_FFFFu128,
                ;
            }
            total = total + len as u128;
            m += 1;
        }
        total
    }

    /// Follows the link chain from `s` to its canonical representative.
    /// A chain longer than the table itself can only be a cycle, which
    /// is reported as a re-export-cycle error, never an endless loop.
    pub fn canonical_ref(&self, s: SymbolRef) -> (r: Result<SymbolRef, BuildDiagnostic>)
        requires
            self.wf(),
            self.valid_ref(s),
        ensures
            match r {
                Ok(c) => self.canonical_of(s, c),
                Err(e) => e.kind == EventKind::ReExportCycle,
            },
            self.spec_resolvable(s) ==> r is Ok,
    {
        let budget = self.step_budget();
        let ghost total = self.spec_total_symbols(self.local@.len() as int);
        let ghost has_root = self.spec_resolvable(s);
        let ghost (tr, tk): (SymbolRef, nat) = if has_root {
            choose|rt: SymbolRef, k: nat|
                k <= total && #[trigger] self.reaches_in(s, rt, k) && self.is_root(rt)
                    && self.valid_ref(rt)
        } else {
            (s, 0)
        };
        let ghost mut tk2 = tk;
        let mut cur = s;
        let mut steps: u128 = 0;
        proof {
            assert(self.reaches_in(s, s, 0));
        }
        loop
            invariant
                self.wf(),
                self.valid_ref(cur),
                steps <= budget,
                exists|k: nat| self.reaches_in(s, cur, k),
                has_root == self.spec_resolvable(s),
                has_root ==> (self.reaches_in(cur, tr, tk2) && self.is_root(tr)
                    && self.valid_ref(tr) && tk2 + steps <= total),
                budget as nat == 1 + total,
            decreases budget - steps,
        {
            let entry_link = self.local[cur.module][cur.symbol].link;
            match entry_link {
                None => {
                    proof {
                        let k = choose|k: nat| self.reaches_in(s, cur, k);
                        assert(self.canonical_of(s, cur));
                    }
                    return Ok(cur);
                },
                Some(next) => {
                    if steps >= budget {
                        proof {
                            if has_root {
                                assert(false);
                            }
                        }
                        return Err(
                            BuildDiagnostic::new(
                                EventKind::ReExportCycle,
                                String::from_str("symbol link chain does not terminate"),
                            ),
                        );
                    }
                    proof {
                        let k = choose|k: nat| self.reaches_in(s, cur, k);
                        lemma_reaches_extend(self, s, cur, k, next);
                        if has_root {
                            // the target is a root, so the chain has not
                            // reached it yet and one step remains owed
                            assert(cur != tr);
                            assert(tk2 > 0 && self.reaches_in(next, tr, (tk2 - 1) as nat));
                            tk2 = (tk2 - 1) as nat;
                        }
                    }
                    cur = next;
                    steps = steps + 1;
                },
            }
        }
    }

    /// The canonical representative's original name, for a binding that
    /// resolves; used when a display name has to be derived.
    pub fn canonical_name_base(&self, s: SymbolRef) -> (r: Result<String, BuildDiagnostic>)
        requires
            self.wf(),
            self.valid_ref(s),
        ensures
            match r {
                Ok(n) => exists|c: SymbolRef| self.canonical_of(s, c) && n@ == self.spec_name(c),
                Err(e) => e.kind == EventKind::ReExportCycle,
            },
            self.spec_resolvable(s) ==> r is Ok,
    {
        match self.canonical_ref(s) {
            Ok(c) => {
                let n = self.local[c.module][c.symbol].name.clone();
                proof {
                    assert(self.canonical_of(s, c) && n@ == self.spec_name(c));
                }
                Ok(n)
            },
            Err(e) => Err(e),
        }
    }
}

/// Reaching `mid` and stepping one link further reaches the link's
/// target.
proof fn lemma_reaches_extend(
    db: &SymbolRefDb,
    s: SymbolRef,
    mid: SymbolRef,
    k: nat,
    next: SymbolRef,
)
    requires
        db.reaches_in(s, mid, k),
        db.valid_ref(mid),
        db.spec_link(mid) == Some(next),
    ensures
        db.reaches_in(s, next, k + 1),
    decreases k,
{
    if s == mid {
        assert(db.reaches_in(next, next, 0));
        lemma_reaches_mono(db, s, next, 1, k + 1);
    } else {
        let t = db.spec_link(s)->Some_0;
        lemma_reaches_extend(db, t, mid, (k - 1) as nat, next);
    }
}

/// More budget never hurts: reachability within `k` steps implies
/// reachability within any larger budget.
proof fn lemma_reaches_mono(db: &SymbolRefDb, s: SymbolRef, r: SymbolRef, k: nat, k2: nat)
    requires
        db.reaches_in(s, r, k),
        k <= k2,
    ensures
        db.reaches_in(s, r, k2),
    decreases k,
{
    if s == r {
    } else {
        let t = db.spec_link(s)->Some_0;
        lemma_reaches_mono(db, t, r, (k - 1) as nat, (k2 - 1) as nat);
    }
}

} // verus!
