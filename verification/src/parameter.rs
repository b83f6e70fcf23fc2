//! Parameters of subcircuits and of their instances.

use vstd::prelude::*;
use crate::bracket_expression::{Expression, Number};
use crate::scalar::Scalar;

verus! {

/// A named parameter.
#[derive(Clone, Debug, PartialEq, Eq)]
pub struct Parameter {
    pub name: String,
    /// The default, as given where the subcircuit is defined.
    pub defval: Option<Expression>,
    /// The override, as given where the subcircuit is instantiated.
    pub expr: Option<Expression>,
    /// The value, once it is resolved.
    pub value: Option<Scalar>,
}

/// A copy of an expression.
pub fn copy_expression(expr: &Expression) -> (copy: Expression)
    ensures
        copy == *expr,
{
    match expr {
        Expression::Literal(number) => Expression::Literal(
            Number { text: number.text.clone(), scale: number.scale },
        ),
        Expression::Identifier(ident) => Expression::Identifier(ident.clone()),
    }
}

/// A copy of an optional expression.
fn copy_optional(expr: &Option<Expression>) -> (copy: Option<Expression>)
    ensures
        copy == *expr,
{
    match expr {
        Some(e) => Some(copy_expression(e)),
        None => None,
    }
}

impl Parameter {
    /// A parameter given where a subcircuit is instantiated: the expression
    /// is its override.
    pub fn override_from_expression(name: &str, expr: &Expression) -> (p: Parameter)
        ensures
            p.name@ == name@,
            p.defval is None,
            p.expr == Some(*expr),
            p.value is None,
    {
        Parameter {
            name: name.to_owned(),
            defval: None,
            expr: Some(copy_expression(expr)),
            value: None,
        }
    }

    /// A parameter given where a subcircuit is defined: the expression is
    /// its default.
    pub fn default_from_expression(name: &str, expr: &Expression) -> (p: Parameter)
        ensures
            p.name@ == name@,
            p.defval == Some(*expr),
            p.expr is None,
            p.value is None,
    {
        Parameter {
            name: name.to_owned(),
            defval: Some(copy_expression(expr)),
            expr: None,
            value: None,
        }
    }

    /// A parameter that is resolved to a value.
    pub fn resolved(name: &str, value: Scalar) -> (p: Parameter)
        ensures
            p.name@ == name@,
            p.defval is None,
            p.expr is None,
            p.value == Some(value),
    {
        Parameter { name: name.to_owned(), defval: None, expr: None, value: Some(value) }
    }

    /// A copy of the parameter.
    pub fn duplicate(&self) -> (p: Parameter)
        ensures
            p == *self,
    {
        Parameter {
            name: self.name.clone(),
            defval: copy_optional(&self.defval),
            expr: copy_optional(&self.expr),
            value: self.value,
        }
    }
}

/// The value of the first parameter called `name`, if there is such a
/// parameter and it is resolved.
pub open spec fn value_from(params: Seq<Parameter>, i: int, name: Seq<char>) -> Option<Scalar>
    decreases params.len() - i,
{
    if i < 0 || i >= params.len() {
        None
    } else if params[i].name@ == name {
        params[i].value
    } else {
        value_from(params, i + 1, name)
    }
}

/// Finds the value of a parameter by name.
pub fn find_value(params: &Vec<Parameter>, name: &str) -> (value: Option<Scalar>)
    ensures
        value == value_from(params@, 0, name@),
{
    let wanted = name.to_owned();
    let mut i: usize = 0;
    while i < params.len()
        invariant
            i <= params@.len(),
            wanted@ == name@,
            value_from(params@, 0, name@) == value_from(params@, i as int, name@),
        decreases params@.len() - i,
    {
        if params[i].name == wanted {
            return params[i].value;
        }
        i = i + 1;
    }
    None
}

} // verus!
