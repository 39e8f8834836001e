//! The host-binding layer's plain data: what a JavaScript plugin's
//! transform hook hands back, and its conversion into the core's own
//! hook output. The host-side copies of these types, with their
//! serialization derives, live with the embedding caller.

use vstd::prelude::*;

use crate::diagnostics::{BuildDiagnostic, DiagnosticOptions, EventKind, InvalidSourcemap, BuildEvent};
use crate::module::{HookSideEffects, ModuleType};

verus! {

/// A side-effect verdict as the host hands it over.
#[derive(Clone, Copy, PartialEq, Eq, Structural, Debug)]
pub enum BindingHookSideEffects {
    True,
    False,
    NoTreeshake,
}

/// A sourcemap as the host hands it over: its JSON text.
#[derive(Clone, PartialEq, Eq, Debug)]
pub struct BindingSourcemap {
    pub inner: String,
}

/// What a transform hook returned: replacement code, a side-effect
/// verdict, a sourcemap, and a module-type override, each optional.
#[derive(Debug)]
pub struct BindingHookTransformOutput {
    pub code: Option<String>,
    pub side_effects: Option<BindingHookSideEffects>,
    pub map: Option<BindingSourcemap>,
    pub module_type: Option<String>,
}

/// The core's view of a transform hook's result.
#[derive(Debug)]
pub struct HookTransformOutput {
    pub code: Option<String>,
    pub map: Option<String>,
    pub side_effects: Option<HookSideEffects>,
    pub module_type: Option<ModuleType>,
}

/// Whether a sourcemap text parses as JSON at all.
pub uninterp spec fn json_parses(s: Seq<char>) -> bool;

/// Relies on serde_json::from_str: deciding whether the text is
/// well-formed JSON, depending on the text alone.
#[verifier::external_body]
fn json_is_valid(s: &str) -> (r: bool)
    ensures
        r == json_parses(s@),
{
    serde_json::from_str::<serde_json::Value>(s).is_ok()
}

/// The core verdict for a host side-effect verdict.
pub open spec fn spec_side_effects_of(b: BindingHookSideEffects) -> HookSideEffects {
    match b {
        BindingHookSideEffects::True => HookSideEffects::True,
        BindingHookSideEffects::False => HookSideEffects::False,
        BindingHookSideEffects::NoTreeshake => HookSideEffects::NoTreeshake,
    }
}

/// The module type a type string selects, falling back to JavaScript
/// for anything unknown.
pub open spec fn spec_module_type_of(s: Seq<char>) -> ModuleType {
    if s == "json"@ {
        ModuleType::Json
    } else {
        ModuleType::Js
    }
}

/// Selects a module type from its name, JavaScript when unknown.
pub fn module_type_from_str_with_fallback(ty: &String) -> (r: ModuleType)
    ensures
        r == spec_module_type_of(ty@),
{
    if crate::util::string_eq_lit(ty, "json") {
        ModuleType::Json
    } else {
        ModuleType::Js
    }
}

impl BindingHookTransformOutput {
    /// Converts the host's transform result into the core's form.
    ///
    /// Succeeds exactly when the sourcemap, if one came, is
    /// well-formed JSON; a malformed one is refused as an
    /// invalid-sourcemap diagnostic. Code and verdicts pass through
    /// unchanged.
    pub fn into_output(self) -> (r: Result<HookTransformOutput, BuildDiagnostic>)
        ensures
            match r {
                Ok(out) => {
                    &&& (match self.map {
                        Some(m) => json_parses(m.inner@),
                        None => true,
                    })
                    &&& out.code == self.code
                    &&& (match (self.map, out.map) {
                        (Some(m), Some(o)) => o == m.inner,
                        (None, None) => true,
                        _ => false,
                    })
                    &&& (match (self.side_effects, out.side_effects) {
                        (Some(b), Some(h)) => h == spec_side_effects_of(b),
                        (None, None) => true,
                        _ => false,
                    })
                    &&& (match (self.module_type, out.module_type) {
                        (Some(t), Some(mt)) => mt == spec_module_type_of(t@),
                        (None, None) => true,
                        _ => false,
                    })
                },
                Err(e) => {
                    &&& e.kind == EventKind::InvalidSourcemap
                    &&& self.map matches Some(m) && !json_parses(m.inner@)
                },
            },
    {
        let BindingHookTransformOutput { code, side_effects, map, module_type } = self;
        let checked_map: Option<String> = match map {
            Some(m) => {
                if json_is_valid(m.inner.as_str()) {
                    Some(m.inner)
                } else {
                    let event = InvalidSourcemap {
                        message: String::from_str("transform hook returned an invalid sourcemap"),
                    };
                    let opts = DiagnosticOptions { cwd: String::new() };
                    let kind = event.kind();
                    let message = event.message(&opts);
                    return Err(BuildDiagnostic::new(kind, message));
                }
            },
            None => None,
        };
        Ok(
            HookTransformOutput {
                code,
                map: checked_map,
                side_effects: match side_effects {
                    Some(BindingHookSideEffects::True) => Some(HookSideEffects::True),
                    Some(BindingHookSideEffects::False) => Some(HookSideEffects::False),
                    Some(BindingHookSideEffects::NoTreeshake) => Some(
                        HookSideEffects::NoTreeshake,
                    ),
                    None => None,
                },
                module_type: match module_type {
                    Some(t) => Some(module_type_from_str_with_fallback(&t)),
                    None => None,
                },
            },
        )
    }
}

} // verus!
