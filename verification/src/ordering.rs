//! The partial order of values: integers are ordered among themselves,
//! and nothing else is ordered at all.

use crate::errors::Failure;
use crate::op::{binary_result, order_failure, truth, Operator};
use crate::value::{Value, VarType};
use std::cmp::Ordering;
use vstd::prelude::*;
use vstd::std_specs::cmp::PartialOrdSpec;
use vstd::std_specs::cmp::PartialOrdSpecImpl;

verus! {

impl PartialOrd for VarType {
    fn partial_cmp(&self, other: &Self) -> (r: Option<Ordering>) {
        match (self, other) {
            (VarType::Integer(a), VarType::Integer(b)) => {
                if *a < *b {
                    Some(Ordering::Less)
                } else if *a == *b {
                    Some(Ordering::Equal)
                } else {
                    Some(Ordering::Greater)
                }
            },
            _ => None,
        }
    }
}

impl PartialOrdSpecImpl for VarType {
    open spec fn obeys_partial_cmp_spec() -> bool {
        true
    }

    open spec fn partial_cmp_spec(&self, other: &Self) -> Option<Ordering> {
        match (self, other) {
            (VarType::Integer(a), VarType::Integer(b)) => {
                if *a < *b {
                    Some(Ordering::Less)
                } else if *a == *b {
                    Some(Ordering::Equal)
                } else {
                    Some(Ordering::Greater)
                }
            },
            _ => None,
        }
    }
}

/// The relational operators go by the partial order: where two values are
/// ordered, each operator says whether the order is the one it asks for,
/// and where they are not, each fails.
pub proof fn lemma_relations_follow_the_order(l: VarType, r: VarType)
    ensures
        match PartialOrdSpec::partial_cmp_spec(&l, &r) {
            Some(o) => {
                &&& binary_result(Operator::Less, l@, r@) == Ok::<Value, Failure>(
                    truth(o == Ordering::Less),
                )
                &&& binary_result(Operator::Greater, l@, r@) == Ok::<Value, Failure>(
                    truth(o == Ordering::Greater),
                )
                &&& binary_result(Operator::LessEqual, l@, r@) == Ok::<Value, Failure>(
                    truth(o != Ordering::Greater),
                )
                &&& binary_result(Operator::GreaterEqual, l@, r@) == Ok::<Value, Failure>(
                    truth(o != Ordering::Less),
                )
            },
            None => {
                let refused = Err::<Value, Failure>(order_failure(l@, r@));
                &&& binary_result(Operator::Less, l@, r@) == refused
                &&& binary_result(Operator::Greater, l@, r@) == refused
                &&& binary_result(Operator::LessEqual, l@, r@) == refused
                &&& binary_result(Operator::GreaterEqual, l@, r@) == refused
            },
        },
{
}

} // verus!
