//! The scope-hoisting finalizers: rewrite one module's tree in place
//! using the linker's output.
//!
//! The flattening variant prepares every included module for one
//! shared top-level scope: import and export wiring disappears, and
//! every binding reference is rendered under its canonical display
//! name, so collisions are impossible once canonicalization has made
//! those names globally unique. The isolating variant keeps each
//! module inside its own registered closure for hot patching: imports
//! become `require` calls against the runtime's registry and exports
//! become assignments onto the closure's `exports` object.

use vstd::prelude::*;

use crate::linker::CanonicalNames;
use crate::module::{AstStmt, EcmaAst, ModuleTable, NormalModule, RuntimeModuleBrief, StmtKind, StmtPart};
use crate::options::NormalizedBundlerOptions;
use crate::symbols::{SymbolRef, SymbolRefDb};
use crate::util::push_char;

verus! {

/// Everything a scope-hoisting rewrite reads: the module's position,
/// the shared read-only tables, and the build options.
pub struct ScopeHoistingFinalizerContext<'me> {
    pub id: usize,
    pub modules: &'me ModuleTable,
    pub symbol_db: &'me SymbolRefDb,
    pub canonical_names: &'me CanonicalNames,
    pub runtime: &'me RuntimeModuleBrief,
    pub options: &'me NormalizedBundlerOptions,
}

/// True when a statement is import or export syntax.
pub open spec fn spec_is_module_syntax(kind: StmtKind) -> bool {
    match kind {
        StmtKind::Import { .. } => true,
        StmtKind::ExportStar { .. } => true,
        StmtKind::ExportNamed { .. } => true,
        StmtKind::ExportDefault { .. } => true,
        _ => false,
    }
}

/// True when every body part is plain text: nothing left for a
/// renamer to substitute.
pub open spec fn spec_all_text(parts: Seq<StmtPart>) -> bool {
    forall|i: int| 0 <= i < parts.len() ==> (#[trigger] parts[i]) is Text
}

/// The text a canonical representative renders under: its assigned
/// display name, or its own source name where the name table holds no
/// entry for it.
pub open spec fn spec_display_for(
    symbols: &SymbolRefDb,
    cn: &CanonicalNames,
    c: SymbolRef,
    v: Seq<char>,
) -> bool {
    ||| exists|i: int|
        0 <= i < cn.entries@.len() && (#[trigger] cn.entries@[i]).0 == c && cn.entries@[i].1@ == v
    ||| (forall|i: int| 0 <= i < cn.entries@.len() ==> (#[trigger] cn.entries@[i]).0 != c) && v
        == symbols.spec_name(c)
}

/// What a reference may render as in the flat scope: empty for a
/// binding outside the table; otherwise a canonical representative's
/// display text, or the binding's own name where the chain does not
/// resolve.
pub open spec fn spec_display_choice(
    symbols: &SymbolRefDb,
    cn: &CanonicalNames,
    module: usize,
    local: usize,
    v: Seq<char>,
) -> bool {
    let s = SymbolRef { module, symbol: local };
    &&& !symbols.valid_ref(s) ==> v == Seq::<char>::empty()
    &&& symbols.valid_ref(s) ==> ((exists|c: SymbolRef|
        #[trigger] symbols.canonical_of(s, c) && spec_display_for(symbols, cn, c, v)) || v
        == symbols.spec_name(s))
}

/// The source-local text of a reference: the binding's own name, or
/// empty for one outside the table.
pub open spec fn spec_local_display(symbols: &SymbolRefDb, module: usize, local: usize) -> Seq<
    char,
> {
    let s = SymbolRef { module, symbol: local };
    if symbols.valid_ref(s) {
        symbols.spec_name(s)
    } else {
        Seq::empty()
    }
}

/// The display name a local binding renders under in the flat scope:
/// its canonical representative's assigned name; the binding's own
/// name where no name was assigned or the chain does not resolve; and
/// empty text for a binding outside the table.
fn canonical_display(
    symbols: &SymbolRefDb,
    cn: &CanonicalNames,
    module: usize,
    local: usize,
) -> (r: String)
    requires
        symbols.wf(),
    ensures
        spec_display_choice(symbols, cn, module, local, r@),
{
    let s = SymbolRef { module, symbol: local };
    if s.module < symbols.local.len() && s.symbol < symbols.local[s.module].len() {
        match symbols.canonical_ref(s) {
            Ok(c) => {
                match cn.get(c) {
                    Some(n) => {
                        let r = n.clone();
                        proof {
                            assert(symbols.canonical_of(s, c) && spec_display_for(
                                symbols,
                                cn,
                                c,
                                r@,
                            ));
                        }
                        r
                    },
                    None => {
                        let r = symbols.local[c.module][c.symbol].name.clone();
                        proof {
                            assert(symbols.canonical_of(s, c) && spec_display_for(
                                symbols,
                                cn,
                                c,
                                r@,
                            ));
                        }
                        r
                    },
                }
            },
            Err(_) => symbols.local[s.module][s.symbol].name.clone(),
        }
    } else {
        String::new()
    }
}

/// The local source name of a binding, for the isolating variant.
fn local_display(symbols: &SymbolRefDb, module: usize, local: usize) -> (r: String)
    ensures
        r@ == spec_local_display(symbols, module, local),
{
    if module < symbols.local.len() && local < symbols.local[module].len() {
        symbols.local[module][local].name.clone()
    } else {
        String::new()
    }
}

/// Renders a statement body to text, substituting each binding
/// reference through `name_of` results already computed: the caller
/// passes the replacement for every part.
fn parts_to_text(parts: &Vec<StmtPart>, names: &Vec<String>) -> (r: Vec<StmtPart>)
    requires
        names@.len() == parts@.len(),
    ensures
        spec_all_text(r@),
        r@.len() == parts@.len(),
        forall|i: int|
            0 <= i < parts@.len() ==> (((#[trigger] parts@[i]) matches StmtPart::Text(t) ==> r@[i]
                == parts@[i]) && (parts@[i] matches StmtPart::Sym(l) ==> r@[i] == StmtPart::Text(
                names@[i],
            ))),
{
    let mut out: Vec<StmtPart> = Vec::new();
    let mut i: usize = 0;
    while i < parts.len()
        invariant
            i <= parts@.len(),
            names@.len() == parts@.len(),
            out@.len() == i,
            spec_all_text(out@),
            forall|j: int|
                0 <= j < i ==> (((#[trigger] parts@[j]) matches StmtPart::Text(t) ==> out@[j]
                    == parts@[j]) && (parts@[j] matches StmtPart::Sym(l) ==> out@[j]
                    == StmtPart::Text(names@[j]))),
        decreases parts@.len() - i,
    {
        match &parts[i] {
            StmtPart::Text(t) => {
                out.push(StmtPart::Text(t.clone()));
            },
            StmtPart::Sym(_) => {
                out.push(StmtPart::Text(names[i].clone()));
            },
        }
        proof {
            assert(out@.last() is Text);
        }
        i += 1;
    }
    out
}

/// Computes, for each body part, the text a reference renders under:
/// canonical names for the flat scope, source-local names for the
/// isolating closure.
fn part_names(
    parts: &Vec<StmtPart>,
    symbols: &SymbolRefDb,
    cn: &CanonicalNames,
    module: usize,
    canonical: bool,
) -> (r: Vec<String>)
    requires
        symbols.wf(),
    ensures
        r@.len() == parts@.len(),
        forall|i: int|
            0 <= i < parts@.len() ==> ((#[trigger] parts@[i]) matches StmtPart::Sym(l) ==> (
            (canonical ==> spec_display_choice(symbols, cn, module, l, r@[i]@)) && (!canonical
                ==> r@[i]@ == spec_local_display(symbols, module, l)))),
{
    let mut out: Vec<String> = Vec::new();
    let mut i: usize = 0;
    while i < parts.len()
        invariant
            i <= parts@.len(),
            out@.len() == i,
            symbols.wf(),
            forall|j: int|
                0 <= j < i ==> ((#[trigger] parts@[j]) matches StmtPart::Sym(l) ==> ((canonical
                    ==> spec_display_choice(symbols, cn, module, l, out@[j]@)) && (!canonical
                    ==> out@[j]@ == spec_local_display(symbols, module, l)))),
        decreases parts@.len() - i,
    {
        match &parts[i] {
            StmtPart::Text(_) => {
                out.push(String::new());
            },
            StmtPart::Sym(l) => {
                if canonical {
                    out.push(canonical_display(symbols, cn, module, *l));
                } else {
                    out.push(local_display(symbols, module, *l));
                }
            },
        }
        i += 1;
    }
    out
}

/// The output body is the input body with every reference rendered
/// under its source-local name: text runs survive unchanged.
pub open spec fn spec_parts_substituted_local(
    symbols: &SymbolRefDb,
    module: usize,
    inp: Seq<StmtPart>,
    outp: Seq<StmtPart>,
) -> bool {
    &&& outp.len() == inp.len()
    &&& forall|p: int|
        0 <= p < inp.len() ==> (((#[trigger] inp[p]) matches StmtPart::Text(t) ==> outp[p]
            == inp[p]) && (inp[p] matches StmtPart::Sym(l) ==> (outp[p] matches StmtPart::Text(
            nm,
        ) && nm@ == spec_local_display(symbols, module, l))))
}

/// Appends a quoted JavaScript string literal for a specifier; the
/// specifier's own quotes and backslashes are escaped.
/// A string's characters with every double quote and backslash given
/// a preceding backslash, over the first `n` characters.
pub open spec fn spec_escaped(s: Seq<char>, n: int) -> Seq<char>
    decreases n,
{
    if n <= 0 {
        Seq::empty()
    } else {
        spec_escaped(s, n - 1) + (if s[n - 1] == '"' || s[n - 1] == '\\' {
            seq!['\\', s[n - 1]]
        } else {
            seq![s[n - 1]]
        })
    }
}

/// The quoted form of a string: its escaped characters between double
/// quotes.
pub open spec fn spec_quoted(s: Seq<char>) -> Seq<char> {
    seq!['"'] + spec_escaped(s, s.len() as int) + seq!['"']
}

fn push_quoted(out: &mut String, s: &String)
    ensures
        final(out)@ == old(out)@ + spec_quoted(s@),
{
    push_char(out, '"');
    let n = s.as_str().unicode_len();
    let mut i: usize = 0;
    while i < n
        invariant
            n == s@.len(),
            i <= n,
            out@ == old(out)@ + seq!['"'] + spec_escaped(s@, i as int),
        decreases n - i,
    {
        let c = s.as_str().get_char(i);
        if c == '"' || c == '\\' {
            push_char(out, '\\');
        }
        push_char(out, c);
        proof {
            assert(out@ =~= old(out)@ + seq!['"'] + spec_escaped(s@, i + 1));
        }
        i += 1;
    }
    push_char(out, '"');
    proof {
        assert(out@ =~= old(out)@ + spec_quoted(s@));
    }
}

/// True when a statement survives into the flat output at all:
/// import and export wiring disappears, but a default export lives on
/// as a plain declaration.
pub open spec fn spec_keeps_output(kind: StmtKind) -> bool {
    match kind {
        StmtKind::Import { .. } => false,
        StmtKind::ExportStar { .. } => false,
        StmtKind::ExportNamed { .. } => false,
        _ => true,
    }
}

/// How many of the first `n` statements the flat output keeps: those
/// tree-shaking included and whose kind survives.
pub open spec fn spec_kept_count(stmts: Seq<AstStmt>, inc: Seq<bool>, n: int) -> nat
    decreases n,
{
    if n <= 0 {
        0
    } else {
        spec_kept_count(stmts, inc, n - 1) + (if inc[n - 1] && spec_keeps_output(
            stmts[n - 1].kind,
        ) {
            1nat
        } else {
            0nat
        })
    }
}

/// Rewrites one module's tree for the flat shared scope: statements
/// dropped by tree-shaking or carrying import/export wiring are
/// stripped (a default export survives as a plain declaration), and
/// every kept reference is rendered under its canonical name. The
/// result carries no import/export syntax and nothing left to rename.
#[verifier::loop_isolation(false)]
pub fn finalize_module_flat(
    m: &NormalModule,
    ast: &EcmaAst,
    stmts_included: &Vec<bool>,
    symbols: &SymbolRefDb,
    cn: &CanonicalNames,
) -> (r: Vec<AstStmt>)
    requires
        symbols.wf(),
        stmts_included@.len() == ast.stmts@.len(),
    ensures
        forall|i: int| 0 <= i < r@.len() ==> !spec_is_module_syntax((#[trigger] r@[i]).kind),
        forall|i: int| 0 <= i < r@.len() ==> spec_all_text((#[trigger] r@[i]).parts@),
        r@.len() == spec_kept_count(ast.stmts@, stmts_included@, ast.stmts@.len() as int),
{
    let mut out: Vec<AstStmt> = Vec::new();
    let mut i: usize = 0;
    while i < ast.stmts.len()
        invariant
            i <= ast.stmts@.len(),
            stmts_included@.len() == ast.stmts@.len(),
            symbols.wf(),
            forall|k: int|
                0 <= k < out@.len() ==> !spec_is_module_syntax((#[trigger] out@[k]).kind),
            forall|k: int| 0 <= k < out@.len() ==> spec_all_text((#[trigger] out@[k]).parts@),
            out@.len() == spec_kept_count(ast.stmts@, stmts_included@, i as int),
        decreases ast.stmts@.len() - i,
    {
        if stmts_included[i] {
            let stmt = &ast.stmts[i];
            match &stmt.kind {
                StmtKind::Import { .. } => {},
                StmtKind::ExportStar { .. } => {},
                StmtKind::ExportNamed { .. } => {},
                StmtKind::ExportDefault { local } => {
                    // `export default <expr>` becomes a plain declaration
                    // of the default binding's canonical name
                    let mut parts: Vec<StmtPart> = Vec::new();
                    let mut head = String::from_str("var ");
                    head.append(canonical_display(symbols, cn, m.idx, *local).as_str());
                    head.append(" = ");
                    parts.push(StmtPart::Text(head));
                    let names = part_names(&stmt.parts, symbols, cn, m.idx, true);
                    let mut body = parts_to_text(&stmt.parts, &names);
                    parts.append(&mut body);
                    parts.push(StmtPart::Text(String::from_str(";")));
                    let mut declared: Vec<usize> = Vec::new();
                    declared.push(*local);
                    proof {
                        assert forall|k: int|
                            0 <= k < parts@.len() implies (#[trigger] parts@[k]) is Text by {}
                    }
                    out.push(
                        AstStmt {
                            kind: StmtKind::Decl { declared },
                            parts,
                            side_effects: stmt.side_effects,
                        },
                    );
                },
                _ => {
                    let names = part_names(&stmt.parts, symbols, cn, m.idx, true);
                    let parts = parts_to_text(&stmt.parts, &names);
                    let kind = match &stmt.kind {
                        StmtKind::Decl { declared } => {
                            let mut d: Vec<usize> = Vec::new();
                            let mut k: usize = 0;
                            while k < declared.len()
                                invariant
                                    k <= declared@.len(),
                                decreases declared@.len() - k,
                            {
                                d.push(declared[k]);
                                k += 1;
                            }
                            StmtKind::Decl { declared: d }
                        },
                        _ => StmtKind::Other,
                    };
                    out.push(AstStmt { kind, parts, side_effects: stmt.side_effects });
                },
            }
        }
        i += 1;
    }
    out
}

/// Rewrites one module's tree into its isolated closure body for a
/// hot patch: imports become `require` calls, exports become
/// assignments on the closure's `exports`, and references keep their
/// source-local names. The result carries no import/export syntax.
#[verifier::loop_isolation(false)]
pub fn finalize_module_isolating(
    m: &NormalModule,
    ast: &EcmaAst,
    symbols: &SymbolRefDb,
) -> (r: Vec<AstStmt>)
    requires
        symbols.wf(),
    ensures
        forall|i: int| 0 <= i < r@.len() ==> !spec_is_module_syntax((#[trigger] r@[i]).kind),
        forall|i: int| 0 <= i < r@.len() ==> spec_all_text((#[trigger] r@[i]).parts@),
        r@.len() == ast.stmts@.len(),
        forall|i: int|
            0 <= i < r@.len() ==> (#[trigger] r@[i]).side_effects == ast.stmts@[i].side_effects,
        forall|i: int|
            0 <= i < r@.len() ==> (!spec_is_module_syntax(ast.stmts@[i].kind)
                ==> spec_parts_substituted_local(
                symbols,
                m.idx,
                ast.stmts@[i].parts@,
                (#[trigger] r@[i]).parts@,
            )),
{
    let cn = CanonicalNames::new();
    let mut out: Vec<AstStmt> = Vec::new();
    let mut i: usize = 0;
    while i < ast.stmts.len()
        invariant
            i <= ast.stmts@.len(),
            symbols.wf(),
            forall|k: int|
                0 <= k < out@.len() ==> !spec_is_module_syntax((#[trigger] out@[k]).kind),
            forall|k: int| 0 <= k < out@.len() ==> spec_all_text((#[trigger] out@[k]).parts@),
            out@.len() == i,
            forall|k: int|
                0 <= k < out@.len() ==> (#[trigger] out@[k]).side_effects == ast.stmts@[
                    k
                ].side_effects,
            forall|k: int|
                0 <= k < out@.len() ==> (!spec_is_module_syntax(ast.stmts@[k].kind)
                    ==> spec_parts_substituted_local(
                    symbols,
                    m.idx,
                    ast.stmts@[k].parts@,
                    (#[trigger] out@[k]).parts@,
                )),
        decreases ast.stmts@.len() - i,
    {
        let stmt = &ast.stmts[i];
        match &stmt.kind {
            StmtKind::Import { specifier, items } => {
                let mut text = String::new();
                let mut j: usize = 0;
                while j < items.len()
                    invariant
                        j <= items@.len(),
                        symbols.wf(),
                    decreases items@.len() - j,
                {
                    text.append("var ");
                    text.append(local_display(symbols, m.idx, items[j].local).as_str());
                    text.append(" = require(");
                    push_quoted(&mut text, specifier);
                    text.append(")");
                    match &items[j].imported {
                        crate::module::ImportName::Name(n) => {
                            text.append(".");
                            text.append(n.as_str());
                        },
                        crate::module::ImportName::Default => {
                            text.append(".default");
                        },
                        crate::module::ImportName::Namespace => {},
                    }
                    text.append("; ");
                    j += 1;
                }
                let mut parts: Vec<StmtPart> = Vec::new();
                parts.push(StmtPart::Text(text));
                proof {
                    assert(spec_all_text(parts@));
                }
                out.push(
                    AstStmt { kind: StmtKind::Other, parts, side_effects: stmt.side_effects },
                );
            },
            StmtKind::ExportStar { specifier } => {
                let mut text = String::from_str("Object.assign(exports, require(");
                push_quoted(&mut text, specifier);
                text.append("));");
                let mut parts: Vec<StmtPart> = Vec::new();
                parts.push(StmtPart::Text(text));
                proof {
                    assert(spec_all_text(parts@));
                }
                out.push(
                    AstStmt { kind: StmtKind::Other, parts, side_effects: stmt.side_effects },
                );
            },
            StmtKind::ExportNamed { items } => {
                let mut text = String::new();
                let mut j: usize = 0;
                while j < items.len()
                    invariant
                        j <= items@.len(),
                        symbols.wf(),
                    decreases items@.len() - j,
                {
                    text.append("exports.");
                    text.append(items[j].0.as_str());
                    text.append(" = ");
                    text.append(local_display(symbols, m.idx, items[j].1).as_str());
                    text.append("; ");
                    j += 1;
                }
                let mut parts: Vec<StmtPart> = Vec::new();
                parts.push(StmtPart::Text(text));
                proof {
                    assert(spec_all_text(parts@));
                }
                out.push(
                    AstStmt { kind: StmtKind::Other, parts, side_effects: stmt.side_effects },
                );
            },
            StmtKind::ExportDefault { local } => {
                let mut parts: Vec<StmtPart> = Vec::new();
                parts.push(StmtPart::Text(String::from_str("exports.default = ")));
                let names = part_names(&stmt.parts, symbols, &cn, m.idx, false);
                let mut body = parts_to_text(&stmt.parts, &names);
                parts.append(&mut body);
                parts.push(StmtPart::Text(String::from_str(";")));
                proof {
                    assert forall|k: int|
                        0 <= k < parts@.len() implies (#[trigger] parts@[k]) is Text by {}
                }
                out.push(
                    AstStmt { kind: StmtKind::Other, parts, side_effects: stmt.side_effects },
                );
            },
            _ => {
                let names = part_names(&stmt.parts, symbols, &cn, m.idx, false);
                let parts = parts_to_text(&stmt.parts, &names);
                out.push(AstStmt { kind: StmtKind::Other, parts, side_effects: stmt.side_effects });
            },
        }
        i += 1;
    }
    out
}

} // verus!
