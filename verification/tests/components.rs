//! Component-level checks: the runtime module task, the application
//! renderer, string helpers, diagnostics and side-effect precedence.

use rolldown::diagnostics::{
    any_fatal, BuildDiagnostic, BuildEvent, DiagnosticOptions, EventKind, InvalidSourcemap,
};
use rolldown::loader::{determine_external_side_effects, ModuleLoaderMsg};
use rolldown::module::{DeterminedSideEffects, HookSideEffects};
use rolldown::options::{
    ModuleSideEffectsOption, NormalizedBundlerOptions, OutputFormat, SourceMapType,
    TreeshakeOptions,
};
use rolldown::render::{attach_sourcemap, render_app, RenderedModuleSource, SourceJoiner};
use rolldown::runtime_module::RuntimeModuleTask;
use rolldown::util::{legitimize_identifier_name, u64_to_dec};

#[test]
fn runtime_task_builds_runtime_module() {
    let task = RuntimeModuleTask::new(0);
    let msg = task.run(&NormalizedBundlerOptions::default());
    match msg {
        ModuleLoaderMsg::RuntimeNormalModuleDone(tr) => {
            assert_eq!(tr.module.id, "rolldown:runtime");
            assert_eq!(tr.module.idx, 0);
            assert_eq!(tr.runtime.idx, 0);
            assert!(tr.raw_import_records.is_empty());
        },
        _ => panic!("runtime task must complete as a runtime module"),
    }
}

#[test]
fn runtime_source_follows_format() {
    let mut options = NormalizedBundlerOptions::default();
    options.format = OutputFormat::App;
    let msg = RuntimeModuleTask::new(0).run(&options);
    match msg {
        ModuleLoaderMsg::RuntimeNormalModuleDone(tr) => {
            // the application flavor carries the patch entry point
            let text = format!("{:?}", tr.ast.stmts);
            assert!(text.contains("patch"));
        },
        _ => panic!("runtime task must complete as a runtime module"),
    }
}

#[test]
fn render_app_exact_output() {
    let modules = vec![RenderedModuleSource {
        module_idx: 1,
        stable_id: "main.js".to_string(),
        sources: Some(vec!["body();".to_string()]),
    }];
    let joiner = render_app(None, None, None, None, None, &modules);
    let out = joiner.join();
    assert_eq!(
        out,
        "var __rolldown_modules = {\n\n\"main.js\": function(__rolldown_runtime) {\nbody();\n},\n\n};\n\n"
    );
}

#[test]
fn render_app_with_banner_and_footer() {
    let modules: Vec<RenderedModuleSource> = Vec::new();
    let banner = "// banner".to_string();
    let footer = "// footer".to_string();
    let joiner = render_app(None, Some(&banner), None, None, Some(&footer), &modules);
    let out = joiner.join();
    assert_eq!(out, "// banner\nvar __rolldown_modules = {\n\n};\n\n// footer\n");
}

#[test]
fn source_joiner_joins_with_newlines() {
    let mut joiner = SourceJoiner::new();
    joiner.append_source("a".to_string());
    joiner.append_source("b".to_string());
    assert_eq!(joiner.join(), "a\nb\n");
}

fn demo_map() -> rolldown::render::RenderedSourcemap {
    rolldown::render::RenderedSourcemap {
        json: "{\"version\":3}".to_string(),
        data_url: "data:application/json;base64,AAA".to_string(),
    }
}

#[test]
fn sourcemap_file_option_emits_map_asset() {
    let map = demo_map();
    let (content, asset) = attach_sourcemap(
        &Some(SourceMapType::File),
        &"chunk.js".to_string(),
        "code();".to_string(),
        Some(&map),
    );
    let asset = asset.unwrap();
    assert_eq!(asset.filename, "chunk.js.map");
    assert_eq!(asset.source, "{\"version\":3}");
    assert_eq!(content, "code();\n//# sourceMappingURL=chunk.js.map");
}

#[test]
fn sourcemap_inline_option_embeds_data_url() {
    let map = demo_map();
    let (content, asset) = attach_sourcemap(
        &Some(SourceMapType::Inline),
        &"chunk.js".to_string(),
        "code();".to_string(),
        Some(&map),
    );
    assert!(asset.is_none());
    assert_eq!(content, "code();\n//# sourceMappingURL=data:application/json;base64,AAA");
}

#[test]
fn sourcemap_hidden_or_absent_changes_nothing() {
    let map = demo_map();
    let name = "chunk.js".to_string();
    let (content, asset) =
        attach_sourcemap(&Some(SourceMapType::Hidden), &name, "code();".to_string(), Some(&map));
    assert!(asset.is_none());
    assert_eq!(content, "code();");
    let (content, asset) = attach_sourcemap(&None, &name, "code();".to_string(), Some(&map));
    assert!(asset.is_none());
    assert_eq!(content, "code();");
    let (content, asset) =
        attach_sourcemap(&Some(SourceMapType::File), &name, "code();".to_string(), None);
    assert!(asset.is_none());
    assert_eq!(content, "code();");
}

#[test]
fn decimal_rendering() {
    assert_eq!(u64_to_dec(0), "0");
    assert_eq!(u64_to_dec(9), "9");
    assert_eq!(u64_to_dec(10), "10");
    assert_eq!(u64_to_dec(90217), "90217");
}

#[test]
fn legitimize_identifier_names() {
    assert_eq!(legitimize_identifier_name("./foo-bar.js"), "__foo_bar_js");
    assert_eq!(legitimize_identifier_name("1abc"), "_1abc");
    assert_eq!(legitimize_identifier_name("ok$name_3"), "ok$name_3");
    assert_eq!(legitimize_identifier_name(""), "");
}

#[test]
fn external_side_effect_precedence() {
    let mut options = NormalizedBundlerOptions::default();
    // a hook verdict always wins
    assert_eq!(
        determine_external_side_effects(&options, Some(HookSideEffects::True)).unwrap(),
        DeterminedSideEffects::UserDefined(true)
    );
    assert_eq!(
        determine_external_side_effects(&options, Some(HookSideEffects::NoTreeshake)).unwrap(),
        DeterminedSideEffects::NoTreeshake
    );
    // option-form defaults
    options.treeshake = TreeshakeOptions::Option(ModuleSideEffectsOption::Boolean(false));
    assert_eq!(
        determine_external_side_effects(&options, None).unwrap(),
        DeterminedSideEffects::UserDefined(false)
    );
    // tree-shaking switched off entirely
    options.treeshake = TreeshakeOptions::Boolean(false);
    assert_eq!(
        determine_external_side_effects(&options, None).unwrap(),
        DeterminedSideEffects::NoTreeshake
    );
}

#[test]
fn external_side_effect_impossible_combination_is_error() {
    let mut options = NormalizedBundlerOptions::default();
    options.treeshake = TreeshakeOptions::Boolean(true);
    let err = determine_external_side_effects(&options, None).unwrap_err();
    assert_eq!(err.event_kind(), EventKind::InvalidOption);
}

#[test]
fn diagnostics_fatality_by_kind() {
    let warn = BuildDiagnostic::new(EventKind::MissingExport, "m".to_string());
    let ambiguous = BuildDiagnostic::new(EventKind::InteropAmbiguity, "m".to_string());
    let hard = BuildDiagnostic::new(EventKind::ParseError, "m".to_string());
    assert!(!warn.is_fatal());
    assert!(!ambiguous.is_fatal());
    assert!(hard.is_fatal());
    assert!(!any_fatal(&vec![warn, ambiguous]));
    assert!(any_fatal(&vec![hard]));
}

#[test]
fn invalid_sourcemap_event_kind_and_message() {
    let event = InvalidSourcemap { message: "bad map".to_string() };
    assert_eq!(event.kind(), EventKind::InvalidSourcemap);
    let opts = DiagnosticOptions { cwd: String::new() };
    assert_eq!(event.message(&opts), "bad map");
}
