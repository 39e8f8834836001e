//! Whole-build scenarios: graph discovery, linking, tree-shaking,
//! canonical naming and chunk generation on small module graphs.

use rolldown::bundler::Bundler;
use rolldown::diagnostics::EventKind;
use rolldown::loader::{ModuleSource, Resolver, ResolverEntry, SourceTable};
use rolldown::module::{
    AstStmt, HookSideEffects, ImportItem, ImportName, ModuleDefFormat, ModuleInput, ResolvedId,
    StmtKind, StmtPart,
};
use rolldown::options::NormalizedBundlerOptions;

fn internal(id: &str) -> ResolvedId {
    ResolvedId {
        id: id.to_string(),
        ignored: false,
        module_def_format: ModuleDefFormat::EsmMjs,
        is_external: false,
        side_effects: None,
        is_external_without_side_effects: false,
    }
}

fn external(id: &str) -> ResolvedId {
    ResolvedId {
        id: id.to_string(),
        ignored: false,
        module_def_format: ModuleDefFormat::Unknown,
        is_external: true,
        side_effects: Some(HookSideEffects::False),
        is_external_without_side_effects: false,
    }
}

fn resolver_entry(specifier: &str, importer: Option<&str>, resolved: ResolvedId) -> ResolverEntry {
    ResolverEntry {
        importer: importer.map(|s| s.to_string()),
        specifier: specifier.to_string(),
        resolved,
    }
}

fn source(id: &str, stmts: Vec<AstStmt>, local_names: &[&str]) -> ModuleSource {
    ModuleSource {
        id: id.to_string(),
        input: Some(ModuleInput {
            stmts,
            local_names: local_names.iter().map(|s| s.to_string()).collect(),
            interop_sites: Vec::new(),
            has_eval: false,
        }),
    }
}

fn import_stmt(specifier: &str, items: Vec<(ImportName, usize)>) -> AstStmt {
    AstStmt {
        kind: StmtKind::Import {
            specifier: specifier.to_string(),
            items: items
                .into_iter()
                .map(|(imported, local)| ImportItem { imported, local })
                .collect(),
        },
        parts: Vec::new(),
        side_effects: false,
    }
}

fn decl_stmt(locals: Vec<usize>, text: &str) -> AstStmt {
    AstStmt {
        kind: StmtKind::Decl { declared: locals },
        parts: vec![StmtPart::Text(text.to_string())],
        side_effects: false,
    }
}

fn effect_stmt(parts: Vec<StmtPart>) -> AstStmt {
    AstStmt { kind: StmtKind::Other, parts, side_effects: true }
}

fn export_named(items: Vec<(&str, usize)>) -> AstStmt {
    AstStmt {
        kind: StmtKind::ExportNamed {
            items: items.into_iter().map(|(n, l)| (n.to_string(), l)).collect(),
        },
        parts: Vec::new(),
        side_effects: false,
    }
}

fn star_export(specifier: &str) -> AstStmt {
    AstStmt {
        kind: StmtKind::ExportStar { specifier: specifier.to_string() },
        parts: Vec::new(),
        side_effects: false,
    }
}

fn two_module_world() -> (Vec<String>, Resolver, SourceTable) {
    let entries = vec!["main.js".to_string()];
    let resolver = Resolver {
        entries: vec![
            resolver_entry("main.js", None, internal("main.js")),
            resolver_entry("./lib.js", Some("main.js"), internal("lib.js")),
        ],
    };
    let sources = SourceTable {
        entries: vec![
            source(
                "main.js",
                vec![
                    import_stmt("./lib.js", vec![(ImportName::Name("greet".to_string()), 0)]),
                    effect_stmt(vec![
                        StmtPart::Text("console.log(".to_string()),
                        StmtPart::Sym(0),
                        StmtPart::Text("());".to_string()),
                    ]),
                ],
                &["greet"],
            ),
            source(
                "lib.js",
                vec![
                    decl_stmt(vec![0], "function greet() { return 1; }"),
                    export_named(vec![("greet", 0)]),
                ],
                &["greet"],
            ),
        ],
    };
    (entries, resolver, sources)
}

#[test]
fn flat_build_contains_no_import_syntax() {
    let (entries, resolver, mut sources) = two_module_world();
    let mut bundler = Bundler::new(NormalizedBundlerOptions::default());
    let output = bundler.generate(&entries, &resolver, &mut sources).unwrap();
    assert_eq!(output.assets.len(), 1);
    let code = &output.assets[0].source;
    assert!(code.contains("function greet"));
    assert!(code.contains("console.log"));
    assert!(!code.contains("import"));
    assert!(!code.contains("export"));
}

#[test]
fn visited_map_has_distinct_indices() {
    let (entries, resolver, mut sources) = two_module_world();
    let mut bundler = Bundler::new(NormalizedBundlerOptions::default());
    let scan = bundler.scan(&entries, &resolver, &mut sources).unwrap();
    let mut seen = Vec::new();
    for e in &scan.module_id_to_modules.entries {
        assert!(!seen.contains(&e.idx), "module index handed out twice");
        seen.push(e.idx);
    }
    // runtime + main + lib
    assert_eq!(scan.module_table.modules.len(), 3);
    assert_eq!(seen.len(), 3);
}

#[test]
fn colliding_names_get_numeric_suffix() {
    // both modules declare a binding named `value`; exactly one of the
    // two canonical names carries the numeric suffix
    let entries = vec!["main.js".to_string()];
    let resolver = Resolver {
        entries: vec![
            resolver_entry("main.js", None, internal("main.js")),
            resolver_entry("./other.js", Some("main.js"), internal("other.js")),
        ],
    };
    let mut sources = SourceTable {
        entries: vec![
            source(
                "main.js",
                vec![
                    import_stmt("./other.js", vec![(ImportName::Name("value".to_string()), 1)]),
                    decl_stmt(vec![0], "var value = 1;"),
                    effect_stmt(vec![
                        StmtPart::Text("use(".to_string()),
                        StmtPart::Sym(0),
                        StmtPart::Text(", ".to_string()),
                        StmtPart::Sym(1),
                        StmtPart::Text(");".to_string()),
                    ]),
                ],
                &["value", "value"],
            ),
            source(
                "other.js",
                vec![
                    decl_stmt(vec![0], "var value = 2;"),
                    export_named(vec![("value", 0)]),
                ],
                &["value"],
            ),
        ],
    };
    let mut bundler = Bundler::new(NormalizedBundlerOptions::default());
    let output = bundler.generate(&entries, &resolver, &mut sources).unwrap();
    let code = &output.assets[0].source;
    assert!(code.contains("value$1"), "expected a suffixed canonical name in: {code}");
}

#[test]
fn unresolved_entry_is_resolution_error() {
    let entries = vec!["missing.js".to_string()];
    let resolver = Resolver { entries: Vec::new() };
    let mut sources = SourceTable { entries: Vec::new() };
    let mut bundler = Bundler::new(NormalizedBundlerOptions::default());
    let errs = bundler.generate(&entries, &resolver, &mut sources).unwrap_err();
    assert!(errs.iter().any(|e| e.kind == EventKind::ResolutionError));
}

#[test]
fn star_reexport_cycle_is_link_error() {
    // a.js star-exports from b.js and b.js star-exports from a.js
    let entries = vec!["a.js".to_string()];
    let resolver = Resolver {
        entries: vec![
            resolver_entry("a.js", None, internal("a.js")),
            resolver_entry("./b.js", Some("a.js"), internal("b.js")),
            resolver_entry("./a.js", Some("b.js"), internal("a.js")),
        ],
    };
    let mut sources = SourceTable {
        entries: vec![
            source("a.js", vec![star_export("./b.js")], &[]),
            source("b.js", vec![star_export("./a.js")], &[]),
        ],
    };
    let mut bundler = Bundler::new(NormalizedBundlerOptions::default());
    let errs = bundler.generate(&entries, &resolver, &mut sources).unwrap_err();
    assert!(errs.iter().any(|e| e.kind == EventKind::ReExportCycle));
}

#[test]
fn name_found_through_star_chain() {
    // main imports `deep` from hub.js, which only star-exports leaf.js
    let entries = vec!["main.js".to_string()];
    let resolver = Resolver {
        entries: vec![
            resolver_entry("main.js", None, internal("main.js")),
            resolver_entry("./hub.js", Some("main.js"), internal("hub.js")),
            resolver_entry("./leaf.js", Some("hub.js"), internal("leaf.js")),
        ],
    };
    let mut sources = SourceTable {
        entries: vec![
            source(
                "main.js",
                vec![
                    import_stmt("./hub.js", vec![(ImportName::Name("deep".to_string()), 0)]),
                    effect_stmt(vec![
                        StmtPart::Text("go(".to_string()),
                        StmtPart::Sym(0),
                        StmtPart::Text(");".to_string()),
                    ]),
                ],
                &["deep"],
            ),
            source("hub.js", vec![star_export("./leaf.js")], &[]),
            source(
                "leaf.js",
                vec![
                    decl_stmt(vec![0], "function deep() {}"),
                    export_named(vec![("deep", 0)]),
                ],
                &["deep"],
            ),
        ],
    };
    let mut bundler = Bundler::new(NormalizedBundlerOptions::default());
    let output = bundler.generate(&entries, &resolver, &mut sources).unwrap();
    assert!(output.assets[0].source.contains("function deep"));
    assert!(output.warnings.iter().all(|w| w.kind != EventKind::MissingExport));
}

#[test]
fn missing_export_warns_when_lenient() {
    let entries = vec!["main.js".to_string()];
    let resolver = Resolver {
        entries: vec![
            resolver_entry("main.js", None, internal("main.js")),
            resolver_entry("./lib.js", Some("main.js"), internal("lib.js")),
        ],
    };
    let mut sources = SourceTable {
        entries: vec![
            source(
                "main.js",
                vec![import_stmt("./lib.js", vec![(ImportName::Name("nope".to_string()), 0)])],
                &["nope"],
            ),
            source("lib.js", vec![decl_stmt(vec![0], "var unrelated = 0;")], &["unrelated"]),
        ],
    };
    let mut bundler = Bundler::new(NormalizedBundlerOptions::default());
    let output = bundler.generate(&entries, &resolver, &mut sources).unwrap();
    assert!(output.warnings.iter().any(|w| w.kind == EventKind::MissingExport));
}

#[test]
fn missing_export_fails_when_strict() {
    let entries = vec!["main.js".to_string()];
    let resolver = Resolver {
        entries: vec![
            resolver_entry("main.js", None, internal("main.js")),
            resolver_entry("./lib.js", Some("main.js"), internal("lib.js")),
        ],
    };
    let mut sources = SourceTable {
        entries: vec![
            source(
                "main.js",
                vec![import_stmt("./lib.js", vec![(ImportName::Name("nope".to_string()), 0)])],
                &["nope"],
            ),
            source("lib.js", vec![decl_stmt(vec![0], "var unrelated = 0;")], &["unrelated"]),
        ],
    };
    let mut options = NormalizedBundlerOptions::default();
    options.strict_missing_exports = true;
    let mut bundler = Bundler::new(options);
    let errs = bundler.generate(&entries, &resolver, &mut sources).unwrap_err();
    assert!(errs.iter().any(|e| e.kind == EventKind::MissingExport));
}

#[test]
fn external_dependency_keeps_build_green() {
    let entries = vec!["main.js".to_string()];
    let resolver = Resolver {
        entries: vec![
            resolver_entry("main.js", None, internal("main.js")),
            resolver_entry("fs", Some("main.js"), external("fs")),
        ],
    };
    let mut sources = SourceTable {
        entries: vec![source(
            "main.js",
            vec![
                import_stmt("fs", vec![(ImportName::Namespace, 0)]),
                effect_stmt(vec![
                    StmtPart::Text("touch(".to_string()),
                    StmtPart::Sym(0),
                    StmtPart::Text(");".to_string()),
                ]),
            ],
            &["fs"],
        )],
    };
    let mut bundler = Bundler::new(NormalizedBundlerOptions::default());
    let output = bundler.generate(&entries, &resolver, &mut sources).unwrap();
    assert_eq!(output.assets.len(), 1);
}

#[test]
fn closed_bundler_refuses_generate() {
    let (entries, resolver, mut sources) = two_module_world();
    let mut bundler = Bundler::new(NormalizedBundlerOptions::default());
    bundler.close();
    let errs = bundler.generate(&entries, &resolver, &mut sources).unwrap_err();
    assert!(errs.iter().any(|e| e.kind == EventKind::BundleClosed));
}

#[test]
fn tree_shaking_drops_unreferenced_declaration() {
    let entries = vec!["main.js".to_string()];
    let resolver = Resolver {
        entries: vec![
            resolver_entry("main.js", None, internal("main.js")),
            resolver_entry("./lib.js", Some("main.js"), internal("lib.js")),
        ],
    };
    let mut sources = SourceTable {
        entries: vec![
            source(
                "main.js",
                vec![
                    import_stmt("./lib.js", vec![(ImportName::Name("used".to_string()), 0)]),
                    effect_stmt(vec![
                        StmtPart::Text("run(".to_string()),
                        StmtPart::Sym(0),
                        StmtPart::Text(");".to_string()),
                    ]),
                ],
                &["used"],
            ),
            source(
                "lib.js",
                vec![
                    decl_stmt(vec![0], "function used_fn() {}"),
                    decl_stmt(vec![1], "function dropped_fn() {}"),
                    export_named(vec![("used", 0)]),
                ],
                &["used_fn", "dropped_fn"],
            ),
        ],
    };
    let mut bundler = Bundler::new(NormalizedBundlerOptions::default());
    let output = bundler.generate(&entries, &resolver, &mut sources).unwrap();
    let code = &output.assets[0].source;
    assert!(code.contains("function used_fn"));
    assert!(!code.contains("function dropped_fn"));
}

#[test]
fn app_format_registers_module_factories() {
    let (entries, resolver, mut sources) = two_module_world();
    let mut options = NormalizedBundlerOptions::default();
    options.format = rolldown::options::OutputFormat::App;
    let mut bundler = Bundler::new(options);
    let output = bundler.generate(&entries, &resolver, &mut sources).unwrap();
    let code = &output.assets[0].source;
    assert!(code.contains("var __rolldown_modules = {"));
    assert!(code.contains("\"main.js\": function(__rolldown_runtime) {"));
    assert!(code.contains("\"lib.js\": function(__rolldown_runtime) {"));
}
