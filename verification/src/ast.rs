//! The shape of syntax the scanner inspects: the ancestor chain of the
//! node being visited, recorded as an explicit stack of node kinds.
//!
//! The chain keeps only what the static checks read: static property
//! names of member expressions, the callee and arguments of a call, the
//! right-hand side of an assignment when it is a boolean literal, and a
//! source address per argument so two occurrences of one node can be
//! told apart from two equal-looking nodes.

use vstd::prelude::*;

verus! {

/// The value position of an object-literal property, as far as the
/// checks read it: a boolean literal, or anything else.
#[derive(Clone, PartialEq, Eq, Debug)]
pub enum PropValue {
    Bool(bool),
    Other,
}

/// One entry of an object literal.
#[derive(Clone, PartialEq, Eq, Debug)]
pub enum ObjectProp {
    /// `key: value`, with the key kept when it is a static identifier.
    Property { static_key: Option<String>, value: PropValue },
    /// `...spread`
    Spread,
}

/// One argument of a call, as far as the checks read it.
#[derive(Clone, PartialEq, Eq, Debug)]
pub enum ArgValue {
    /// A string literal.
    Str(String),
    /// An object literal.
    Obj(Vec<ObjectProp>),
    /// A boolean literal.
    Bool(bool),
    /// A spread element: not an expression.
    Spread,
    /// Any other expression.
    Other,
}

/// One argument together with the source address of its node.
#[derive(Clone, PartialEq, Eq, Debug)]
pub struct CallArg {
    pub addr: usize,
    pub value: ArgValue,
}

/// A callee of the form `object.property`, when the object is a bare
/// identifier and the property is static.
#[derive(Clone, PartialEq, Eq, Debug)]
pub struct MemberCallee {
    pub object_ident: Option<String>,
    pub static_property: Option<String>,
}

/// One ancestor node kind on the path from the program root down to
/// the node being visited.
#[derive(Clone, PartialEq, Eq, Debug)]
pub enum AstKind {
    /// A member expression, with its static property name if any.
    MemberExpression { static_property: Option<String> },
    /// An argument node, with the source address of the argument.
    Argument { addr: usize },
    /// A simple assignment target.
    SimpleAssignmentTarget,
    /// An assignment target.
    AssignmentTarget,
    /// An assignment expression; `right_bool` is the right-hand side
    /// when it is a boolean literal.
    AssignmentExpression { right_bool: Option<bool> },
    /// A call, with its callee (when a member expression) and its
    /// arguments.
    CallExpression { callee_member: Option<MemberCallee>, arguments: Vec<CallArg> },
    /// Any other node kind.
    Other,
}

} // verus!
