//! The interop-flag scanner on the four source idioms and their
//! near-misses.

use rolldown::ast::{ArgValue, AstKind, CallArg, MemberCallee, ObjectProp, PropValue};
use rolldown::scanner::{AstScanner, EsModuleFlagCheckType};

fn member(name: &str) -> AstKind {
    AstKind::MemberExpression { static_property: Some(name.to_string()) }
}

fn assignment_chain(rhs: Option<bool>, props: &[&str]) -> Vec<AstKind> {
    let mut path = vec![
        AstKind::AssignmentExpression { right_bool: rhs },
        AstKind::AssignmentTarget,
        AstKind::SimpleAssignmentTarget,
    ];
    for p in props {
        path.push(member(p));
    }
    path
}

#[test]
fn es_flag_module_exports_true() {
    // module.exports.__esModule = true;
    let path = assignment_chain(Some(true), &["__esModule", "exports"]);
    let scanner = AstScanner::new(0, path);
    assert_eq!(
        scanner.check_es_module_flag(&EsModuleFlagCheckType::ModuleExportsAssignment),
        Some(true)
    );
}

#[test]
fn es_flag_module_exports_false() {
    // module.exports.__esModule = false;
    let path = assignment_chain(Some(false), &["__esModule", "exports"]);
    let scanner = AstScanner::new(0, path);
    assert_eq!(
        scanner.check_es_module_flag(&EsModuleFlagCheckType::ModuleExportsAssignment),
        Some(false)
    );
}

#[test]
fn es_flag_module_exports_other_none() {
    // module.exports.other = true;
    let path = assignment_chain(Some(true), &["other", "exports"]);
    let scanner = AstScanner::new(0, path);
    assert_eq!(
        scanner.check_es_module_flag(&EsModuleFlagCheckType::ModuleExportsAssignment),
        None
    );
}

#[test]
fn es_flag_module_exports_nonbool_rhs() {
    // module.exports.__esModule = somethingElse;
    let path = assignment_chain(None, &["__esModule", "exports"]);
    let scanner = AstScanner::new(0, path);
    assert_eq!(
        scanner.check_es_module_flag(&EsModuleFlagCheckType::ModuleExportsAssignment),
        Some(false)
    );
}

#[test]
fn es_flag_exports_assignment_true() {
    // exports.__esModule = true;
    let path = assignment_chain(Some(true), &["__esModule"]);
    let scanner = AstScanner::new(0, path);
    assert_eq!(
        scanner.check_es_module_flag(&EsModuleFlagCheckType::ExportsAssignment),
        Some(true)
    );
}

fn define_property_call(flag_value: bool, second: &str, callee_object: &str) -> AstKind {
    AstKind::CallExpression {
        callee_member: Some(MemberCallee {
            object_ident: Some(callee_object.to_string()),
            static_property: Some("defineProperty".to_string()),
        }),
        arguments: vec![
            CallArg { addr: 11, value: ArgValue::Other },
            CallArg { addr: 12, value: ArgValue::Str(second.to_string()) },
            CallArg {
                addr: 13,
                value: ArgValue::Obj(vec![ObjectProp::Property {
                    static_key: Some("value".to_string()),
                    value: PropValue::Bool(flag_value),
                }]),
            },
        ],
    }
}

#[test]
fn es_flag_nested_define_property_true() {
    // Object.defineProperty(module.exports, "__esModule", { value: true });
    let path = vec![
        define_property_call(true, "__esModule", "Object"),
        AstKind::Argument { addr: 11 },
        member("exports"),
    ];
    let scanner = AstScanner::new(0, path);
    assert_eq!(
        scanner.check_es_module_flag(&EsModuleFlagCheckType::ModuleExportsAssignment),
        Some(true)
    );
}

#[test]
fn es_flag_nested_define_property_value_false() {
    // Object.defineProperty(module.exports, "__esModule", { value: false });
    let path = vec![
        define_property_call(false, "__esModule", "Object"),
        AstKind::Argument { addr: 11 },
        member("exports"),
    ];
    let scanner = AstScanner::new(0, path);
    assert_eq!(
        scanner.check_es_module_flag(&EsModuleFlagCheckType::ModuleExportsAssignment),
        Some(false)
    );
}

#[test]
fn es_flag_bare_define_property_true() {
    // Object.defineProperty(exports, "__esModule", { value: true });
    let path = vec![define_property_call(true, "__esModule", "Object"), AstKind::Argument {
        addr: 11,
    }];
    let scanner = AstScanner::new(0, path);
    assert_eq!(
        scanner.check_es_module_flag(&EsModuleFlagCheckType::ExportsAssignment),
        Some(true)
    );
}

#[test]
fn es_flag_wrong_callee_is_mismatch() {
    // Reflect.defineProperty(exports, "__esModule", { value: true });
    let path = vec![define_property_call(true, "__esModule", "Reflect"), AstKind::Argument {
        addr: 11,
    }];
    let scanner = AstScanner::new(0, path);
    assert_eq!(
        scanner.check_es_module_flag(&EsModuleFlagCheckType::ExportsAssignment),
        Some(false)
    );
}

#[test]
fn es_flag_other_property_defined_is_mismatch() {
    // Object.defineProperty(exports, "other", { value: true });
    let path = vec![define_property_call(true, "other", "Object"), AstKind::Argument {
        addr: 11,
    }];
    let scanner = AstScanner::new(0, path);
    assert_eq!(
        scanner.check_es_module_flag(&EsModuleFlagCheckType::ExportsAssignment),
        Some(false)
    );
}

#[test]
fn es_flag_empty_chain_none() {
    let scanner = AstScanner::new(0, Vec::new());
    assert_eq!(
        scanner.check_es_module_flag(&EsModuleFlagCheckType::ModuleExportsAssignment),
        None
    );
}

#[test]
fn es_flag_short_chain_none() {
    // the member expression stands alone: no assignment above it
    let path = vec![member("exports")];
    let scanner = AstScanner::new(0, path);
    assert_eq!(
        scanner.check_es_module_flag(&EsModuleFlagCheckType::ModuleExportsAssignment),
        None
    );
}
