//! The host-binding conversion: sourcemap validation and field
//! mapping.

use rolldown::binding::{
    BindingHookSideEffects, BindingHookTransformOutput, BindingSourcemap,
};
use rolldown::diagnostics::EventKind;
use rolldown::module::{HookSideEffects, ModuleType};

#[test]
fn into_output_passes_valid_sourcemap() {
    let out = BindingHookTransformOutput {
        code: Some("let a = 1;".to_string()),
        side_effects: Some(BindingHookSideEffects::False),
        map: Some(BindingSourcemap { inner: "{\"version\":3}".to_string() }),
        module_type: Some("json".to_string()),
    }
    .into_output()
    .unwrap();
    assert_eq!(out.code.as_deref(), Some("let a = 1;"));
    assert_eq!(out.map.as_deref(), Some("{\"version\":3}"));
    assert_eq!(out.side_effects, Some(HookSideEffects::False));
    assert_eq!(out.module_type, Some(ModuleType::Json));
}

#[test]
fn into_output_refuses_invalid_sourcemap() {
    let err = BindingHookTransformOutput {
        code: None,
        side_effects: None,
        map: Some(BindingSourcemap { inner: "{not json".to_string() }),
        module_type: None,
    }
    .into_output()
    .unwrap_err();
    assert_eq!(err.kind, EventKind::InvalidSourcemap);
}

#[test]
fn into_output_without_map_succeeds() {
    let out = BindingHookTransformOutput {
        code: None,
        side_effects: Some(BindingHookSideEffects::NoTreeshake),
        map: None,
        module_type: Some("unknown-kind".to_string()),
    }
    .into_output()
    .unwrap();
    assert_eq!(out.map, None);
    assert_eq!(out.side_effects, Some(HookSideEffects::NoTreeshake));
    // an unknown module type falls back to JavaScript
    assert_eq!(out.module_type, Some(ModuleType::Js));
}
