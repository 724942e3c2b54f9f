//! Operands, and the reduction of pending operators.

use crate::errors::{ParseError, ParseErrorType};
use crate::op::{
    assignment_base, calculate, calculate_monomial, invalid_expression, invalid_operator, is_word,
    operator_of, priority, result_view, Operator,
};
use crate::semantics::{
    applied, folded, from_back, reduced, short_circuits, term_value, Reduced, Term,
};
use crate::text::chars_of;
use crate::value::VarType;
use crate::variables::{Env, Scopes};
use std::collections::VecDeque;
use std::rc::Rc;
use vstd::prelude::*;

verus! {

/// An operand of an expression.
#[derive(Debug)]
pub enum ElementType {
    /// The variable of the given name.
    Variable(String),
    /// A value.
    Immediate(VarType),
    /// A unary operator applied to an operand.
    Monomial(String, Rc<ElementType>),
}

impl View for ElementType {
    type V = Term;

    open spec fn view(&self) -> Term
        decreases self,
    {
        match self {
            ElementType::Variable(name) => Term::Variable(name@),
            ElementType::Immediate(v) => Term::Immediate(v@),
            ElementType::Monomial(op, inner) => Term::Monomial(op@, Box::new((**inner).view())),
        }
    }
}

impl Clone for ElementType {
    fn clone(&self) -> (r: Self)
        ensures
            r@ == self@,
        decreases self,
    {
        match self {
            ElementType::Variable(name) => ElementType::Variable(name.clone()),
            ElementType::Immediate(v) => ElementType::Immediate(v.clone()),
            ElementType::Monomial(op, inner) => {
                let r = ElementType::Monomial(op.clone(), Rc::new((&**inner).clone()));
                assert(r@ == self@);
                r
            },
        }
    }
}

/// A result together with the variables after it.
pub open spec fn reduced_view(r: Result<VarType, ParseError>, env: Env) -> Reduced {
    Reduced { result: result_view(r), env }
}

/// The operands that a queue holds.
pub open spec fn terms_view(operands: Seq<ElementType>) -> Seq<Term> {
    operands.map_values(|e: ElementType| e@)
}

impl ElementType {
    /// Evaluates the operand.
    pub fn to_vartype(&self, scopes: &Scopes) -> (r: Result<VarType, ParseError>)
        requires
            scopes.wf(),
        ensures
            result_view(r) == term_value(self@, scopes@),
        decreases self,
    {
        match self {
            ElementType::Variable(name) => {
                scopes.read(&chars_of(name.as_str()))
            },
            ElementType::Immediate(v) => Ok(v.clone()),
            ElementType::Monomial(op, inner) => {
                match (&**inner).to_vartype(scopes) {
                    Ok(v) => calculate_monomial(&chars_of(op.as_str()), v),
                    Err(e) => Err(e),
                }
            },
        }
    }
}

/// Applies the operator that a token writes to two operands.
pub fn calculate_binomial(
    scopes: &mut Scopes,
    op: &Vec<char>,
    left: &ElementType,
    right: &ElementType,
) -> (r: Result<VarType, ParseError>)
    requires
        old(scopes).wf(),
    ensures
        final(scopes).wf(),
        final(scopes)@.len() == old(scopes)@.len(),
        reduced_view(r, final(scopes)@) == applied(
            op@,
            left@,
            right@,
            old(scopes)@,
        ),
{
    match operator_of(op) {
        None => Err(invalid_operator(op)),
        Some(o) => {
            if priority(o) == 6 {
                match left {
                    ElementType::Variable(name) => {
                        let value = match right.to_vartype(scopes) {
                            Ok(v) => v,
                            Err(e) => {
                                return Err(e);
                            },
                        };
                        let key = chars_of(name.as_str());
                        let fresh = match scopes.get(&key) {
                            None => {
                                return Err(
                                    ParseError::new(ParseErrorType::VariableNotFound(name.clone())),
                                );
                            },
                            Some(current) => {
                                match base_of(o) {
                                    Some(base) => calculate(base, current, &value),
                                    None => Ok(value),
                                }
                            },
                        };
                        match fresh {
                            Ok(v) => {
                                scopes.assign(&key, v);
                                Ok(VarType::Void)
                            },
                            Err(e) => Err(e),
                        }
                    },
                    _ => Err(invalid_expression(&chars_of("The left-hand must be variable."))),
                }
            } else {
                let l = match left.to_vartype(scopes) {
                    Ok(v) => v,
                    Err(e) => {
                        return Err(e);
                    },
                };
                let r = match right.to_vartype(scopes) {
                    Ok(v) => v,
                    Err(e) => {
                        return Err(e);
                    },
                };
                calculate(o, &l, &r)
            }
        },
    }
}

fn base_of(op: Operator) -> (r: Option<Operator>)
    ensures
        r == assignment_base(op),
{
    match op {
        Operator::AddAssign => Some(Operator::Add),
        Operator::SubAssign => Some(Operator::Sub),
        Operator::MulAssign => Some(Operator::Mul),
        Operator::DivAssign => Some(Operator::Div),
        Operator::RemAssign => Some(Operator::Rem),
        Operator::OrAssign => Some(Operator::BitOr),
        Operator::AndAssign => Some(Operator::BitAnd),
        Operator::XorAssign => Some(Operator::BitXor),
        Operator::ShrAssign => Some(Operator::Shr),
        Operator::ShlAssign => Some(Operator::Shl),
        _ => None,
    }
}

fn takes_from_back(op: &Vec<char>) -> (r: bool)
    ensures
        r == from_back(op@),
{
    match operator_of(op) {
        Some(o) => priority(o) == 6,
        None => false,
    }
}

fn stops_short(op: &Vec<char>, acc: &VarType) -> (r: bool)
    ensures
        r == short_circuits(op@, acc@),
{
    let zero = match acc {
        VarType::Integer(i) => *i == 0,
        _ => false,
    };
    (is_word(op, "&&") && zero) || (is_word(op, "||") && !zero)
}

/// Reduces a pending operator with its operands to one value.
pub fn reduce(scopes: &mut Scopes, op: &Vec<char>, operands: VecDeque<ElementType>) -> (r: Result<
    VarType,
    ParseError,
>)
    requires
        old(scopes).wf(),
    ensures
        final(scopes).wf(),
        final(scopes)@.len() == old(scopes)@.len(),
        reduced_view(r, final(scopes)@) == reduced(
            op@,
            terms_view(operands@),
            old(scopes)@,
        ),
{
    let mut queue = operands;
    if queue.len() == 0 {
        return Err(ParseError::new(ParseErrorType::Unhandled));
    }
    let back = takes_from_back(op);
    let ghost all = terms_view(queue@);
    let first = if back {
        queue.pop_back()
    } else {
        queue.pop_front()
    };
    let first = first.unwrap();
    assert(terms_view(queue@) =~= if back {
        all.drop_last()
    } else {
        all.drop_first()
    });
    let mut acc = match first.to_vartype(scopes) {
        Ok(v) => v,
        Err(e) => {
            return Err(e);
        },
    };
    while queue.len() > 0
        invariant
            scopes.wf(),
            back == from_back(op@),
            all == terms_view(operands@),
            all.len() > 0,
            scopes@.len() == old(scopes)@.len(),
            reduced(op@, all, old(scopes)@) == folded(op@, acc@, terms_view(queue@), scopes@),
        decreases queue.len(),
    {
        if stops_short(op, &acc) {
            return Ok(acc);
        }
        let ghost before = terms_view(queue@);
        let next = if back {
            queue.pop_back()
        } else {
            queue.pop_front()
        };
        let next = next.unwrap();
        assert(terms_view(queue@) =~= if back {
            before.drop_last()
        } else {
            before.drop_first()
        });
        let held = ElementType::Immediate(acc);
        let step = if back {
            calculate_binomial(scopes, op, &next, &held)
        } else {
            calculate_binomial(scopes, op, &held, &next)
        };
        match step {
            Ok(v) => {
                acc = v;
            },
            Err(e) => {
                return Err(e);
            },
        }
    }
    Ok(acc)
}

} // verus!
