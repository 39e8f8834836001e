//! Incremental rebuilds: the seeded loader, the empty-change fast
//! path, and the hot-patch output.

use rolldown::bundler::Bundler;
use rolldown::hmr_loader::HmrModuleLoader;
use rolldown::loader::{ModuleSource, Resolver, ResolverEntry, SourceTable};
use rolldown::module::{
    AstStmt, ImportItem, ImportName, ModuleDefFormat, ModuleInput, ResolvedId, StmtKind, StmtPart,
};
use rolldown::options::NormalizedBundlerOptions;

fn internal(id: &str) -> ResolvedId {
    ResolvedId {
        id: id.to_string(),
        ignored: false,
        module_def_format: ModuleDefFormat::EsmMjs,
        is_external: false,
        side_effects: None,
        is_external_without_side_effects: false,
    }
}

fn source(id: &str, stmts: Vec<AstStmt>, local_names: &[&str]) -> ModuleSource {
    ModuleSource {
        id: id.to_string(),
        input: Some(ModuleInput {
            stmts,
            local_names: local_names.iter().map(|s| s.to_string()).collect(),
            interop_sites: Vec::new(),
            has_eval: false,
        }),
    }
}

fn world() -> (Vec<String>, Resolver, SourceTable) {
    let entries = vec!["main.js".to_string()];
    let resolver = Resolver {
        entries: vec![
            ResolverEntry {
                importer: None,
                specifier: "main.js".to_string(),
                resolved: internal("main.js"),
            },
            ResolverEntry {
                importer: Some("main.js".to_string()),
                specifier: "./lib.js".to_string(),
                resolved: internal("lib.js"),
            },
        ],
    };
    let sources = SourceTable {
        entries: vec![
            source(
                "main.js",
                vec![
                    AstStmt {
                        kind: StmtKind::Import {
                            specifier: "./lib.js".to_string(),
                            items: vec![ImportItem {
                                imported: ImportName::Name("greet".to_string()),
                                local: 0,
                            }],
                        },
                        parts: Vec::new(),
                        side_effects: false,
                    },
                    AstStmt {
                        kind: StmtKind::Other,
                        parts: vec![
                            StmtPart::Text("log(".to_string()),
                            StmtPart::Sym(0),
                            StmtPart::Text("());".to_string()),
                        ],
                        side_effects: true,
                    },
                ],
                &["greet"],
            ),
            source(
                "lib.js",
                vec![
                    AstStmt {
                        kind: StmtKind::Decl { declared: vec![0] },
                        parts: vec![StmtPart::Text("function greet() { return 1; }".to_string())],
                        side_effects: false,
                    },
                    AstStmt {
                        kind: StmtKind::ExportNamed { items: vec![("greet".to_string(), 0)] },
                        parts: Vec::new(),
                        side_effects: false,
                    },
                ],
                &["greet"],
            ),
        ],
    };
    (entries, resolver, sources)
}

#[test]
fn zero_changed_files_empty_diff_and_unmodified_table() {
    let (entries, resolver, mut sources) = world();
    let mut bundler = Bundler::new(NormalizedBundlerOptions::default());
    bundler.generate(&entries, &resolver, &mut sources).unwrap();
    let before_len = bundler.previous_module_table.modules.len();
    let before_ids: Vec<String> = bundler
        .previous_module_table
        .modules
        .iter()
        .map(|m| m.stable_id().clone())
        .collect();

    let mut loader = HmrModuleLoader::new(
        NormalizedBundlerOptions::default(),
        std::mem::replace(
            &mut bundler.previous_module_id_to_modules,
            rolldown::loader::VisitedMap::new(),
        ),
        std::mem::replace(
            &mut bundler.previous_module_table,
            rolldown::module::ModuleTable::new(),
        ),
        std::mem::take(&mut bundler.previous_index_ecma_ast),
        std::mem::replace(&mut bundler.previous_symbols, rolldown::symbols::SymbolRefDb::new()),
    )
    .unwrap();
    let empty_resolver = Resolver { entries: Vec::new() };
    let mut empty_sources = SourceTable { entries: Vec::new() };
    let out = loader
        .fetch_changed_files(Vec::new(), &empty_resolver, &mut empty_sources)
        .unwrap();
    assert!(out.changed_modules.is_empty());
    assert!(out.diff_modules.is_empty());
    assert_eq!(out.module_table.modules.len(), before_len);
    let after_ids: Vec<String> =
        out.module_table.modules.iter().map(|m| m.stable_id().clone()).collect();
    assert_eq!(before_ids, after_ids);
}

#[test]
fn changed_file_produces_patch_asset() {
    let (entries, resolver, mut sources) = world();
    let mut bundler = Bundler::new(NormalizedBundlerOptions::default());
    bundler.generate(&entries, &resolver, &mut sources).unwrap();

    // fresh content for the changed module
    let mut hmr_sources = SourceTable {
        entries: vec![source(
            "lib.js",
            vec![
                AstStmt {
                    kind: StmtKind::Decl { declared: vec![0] },
                    parts: vec![StmtPart::Text("function greet() { return 2; }".to_string())],
                    side_effects: false,
                },
                AstStmt {
                    kind: StmtKind::ExportNamed { items: vec![("greet".to_string(), 0)] },
                    parts: Vec::new(),
                    side_effects: false,
                },
            ],
            &["greet"],
        )],
    };
    let stamp = "123456".to_string();
    let out = bundler
        .hmr_rebuild(vec!["lib.js".to_string()], &resolver, &mut hmr_sources, &stamp)
        .unwrap();
    assert_eq!(out.assets.len(), 1);
    assert_eq!(out.assets[0].filename, "hmr-update.123456.js");
    let code = &out.assets[0].source;
    assert!(code.contains("self.rolldown_runtime.patch(['lib.js'], function(){"));
    assert!(code.contains("rolldown_runtime.define('lib.js',function(require, module, exports){"));
    assert!(code.contains("function greet() { return 2; }"));
}

#[test]
fn failed_patch_retains_previous_build() {
    let (entries, resolver, mut sources) = world();
    let mut bundler = Bundler::new(NormalizedBundlerOptions::default());
    bundler.generate(&entries, &resolver, &mut sources).unwrap();
    let before_len = bundler.previous_module_table.modules.len();
    let before_ids: Vec<String> = bundler
        .previous_module_table
        .modules
        .iter()
        .map(|m| m.stable_id().clone())
        .collect();

    // the changed module is known, but no source comes back for it:
    // the patch fails and the previous build must survive
    let mut missing_sources = SourceTable { entries: Vec::new() };
    let stamp = "1".to_string();
    let errs = bundler
        .hmr_rebuild(vec!["lib.js".to_string()], &resolver, &mut missing_sources, &stamp)
        .unwrap_err();
    assert!(!errs.is_empty());
    assert_eq!(bundler.previous_module_table.modules.len(), before_len);
    let after_ids: Vec<String> = bundler
        .previous_module_table
        .modules
        .iter()
        .map(|m| m.stable_id().clone())
        .collect();
    assert_eq!(before_ids, after_ids);

    // and a later patch against the retained tables still works
    let mut hmr_sources = SourceTable {
        entries: vec![source(
            "lib.js",
            vec![
                AstStmt {
                    kind: StmtKind::Decl { declared: vec![0] },
                    parts: vec![StmtPart::Text("function greet() { return 3; }".to_string())],
                    side_effects: false,
                },
                AstStmt {
                    kind: StmtKind::ExportNamed { items: vec![("greet".to_string(), 0)] },
                    parts: Vec::new(),
                    side_effects: false,
                },
            ],
            &["greet"],
        )],
    };
    let stamp = "2".to_string();
    let out = bundler
        .hmr_rebuild(vec!["lib.js".to_string()], &resolver, &mut hmr_sources, &stamp)
        .unwrap();
    assert!(out.assets[0].source.contains("function greet() { return 3; }"));
}

#[test]
fn malformed_define_key_refuses_patch_and_retains_tables() {
    let (entries, resolver, mut sources) = world();
    let mut options = NormalizedBundlerOptions::default();
    options.define.push(("not an identifier".to_string(), "1".to_string()));
    let mut bundler = Bundler::new(options);
    bundler.generate(&entries, &resolver, &mut sources).unwrap();
    let before_len = bundler.previous_module_table.modules.len();

    let mut empty_sources = SourceTable { entries: Vec::new() };
    let stamp = "9".to_string();
    let errs = bundler
        .hmr_rebuild(vec!["lib.js".to_string()], &resolver, &mut empty_sources, &stamp)
        .unwrap_err();
    assert_eq!(errs.len(), 1);
    assert_eq!(errs[0].kind, rolldown::diagnostics::EventKind::InvalidOption);
    assert_eq!(bundler.previous_module_table.modules.len(), before_len);
}

#[test]
fn legal_define_keys_pass_the_check() {
    let mut options = NormalizedBundlerOptions::default();
    options.define.push(("__DEV__".to_string(), "true".to_string()));
    assert!(rolldown::hmr_loader::check_define_keys(&options));
    options.define.push(("1bad".to_string(), "0".to_string()));
    assert!(!rolldown::hmr_loader::check_define_keys(&options));
}

#[test]
fn unknown_changed_file_is_ignored() {
    let (entries, resolver, mut sources) = world();
    let mut bundler = Bundler::new(NormalizedBundlerOptions::default());
    bundler.generate(&entries, &resolver, &mut sources).unwrap();
    let mut empty_sources = SourceTable { entries: Vec::new() };
    let stamp = "7".to_string();
    let out = bundler
        .hmr_rebuild(vec!["never-seen.js".to_string()], &resolver, &mut empty_sources, &stamp)
        .unwrap();
    // nothing re-scanned: the patch registers no module
    assert!(!out.assets[0].source.contains("rolldown_runtime.define"));
}
