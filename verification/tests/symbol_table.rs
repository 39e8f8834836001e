//! The symbol resolution table: canonical resolution, facade
//! bindings, and cyclic-chain detection.

use rolldown::diagnostics::EventKind;
use rolldown::symbols::{SymbolEntry, SymbolRef, SymbolRefDb};

fn entry(name: &str, link: Option<SymbolRef>) -> SymbolEntry {
    SymbolEntry { name: name.to_string(), link }
}

#[test]
fn canonical_follows_links_to_root() {
    let mut db = SymbolRefDb::new();
    db.store_local_db(0, vec![entry("local_alias", None), entry("root_binding", None)]);
    db.link(
        SymbolRef { module: 0, symbol: 0 },
        SymbolRef { module: 0, symbol: 1 },
    );
    let c = db.canonical_ref(SymbolRef { module: 0, symbol: 0 }).unwrap();
    assert_eq!(c, SymbolRef { module: 0, symbol: 1 });
    let base = db.canonical_name_base(SymbolRef { module: 0, symbol: 0 }).unwrap();
    assert_eq!(base, "root_binding");
}

#[test]
fn cyclic_chain_is_reported_not_followed_forever() {
    let mut db = SymbolRefDb::new();
    db.store_local_db(0, vec![entry("a", None), entry("b", None)]);
    db.link(
        SymbolRef { module: 0, symbol: 0 },
        SymbolRef { module: 0, symbol: 1 },
    );
    db.link(
        SymbolRef { module: 0, symbol: 1 },
        SymbolRef { module: 0, symbol: 0 },
    );
    let err = db.canonical_ref(SymbolRef { module: 0, symbol: 0 }).unwrap_err();
    assert_eq!(err.kind, EventKind::ReExportCycle);
}

#[test]
fn facade_binding_is_a_fresh_root() {
    let mut db = SymbolRefDb::new();
    let r = db.create_facade_root_symbol_ref(2, "pkg_ns".to_string());
    assert_eq!(r.module, 2);
    let c = db.canonical_ref(r).unwrap();
    assert_eq!(c, r);
    assert_eq!(db.canonical_name_base(r).unwrap(), "pkg_ns");
}
