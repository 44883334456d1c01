//! The lenient comparison as a relation.

use crate::compare::{lenient_checks, lenient_checks_all, FloatCheck};
use crate::value::ValueModel;
use vstd::prelude::*;

verus! {

/// Whether each of the questions compares a number with itself.
pub open spec fn all_of_one_number(checks: Seq<FloatCheck>) -> bool {
    forall|index: int| 0 <= index < checks.len() ==> (#[trigger] checks[index]).of_one_number()
}

/// Whether the questions of `there` are those of `here`, each as it is or
/// with its sides exchanged.
pub open spec fn same_or_mirrored(here: Seq<FloatCheck>, there: Seq<FloatCheck>) -> bool {
    &&& here.len() == there.len()
    &&& forall|index: int|
        0 <= index < here.len() ==> (#[trigger] there[index]) == here[index] || there[index]
            == here[index].mirrored()
}

/// Whether a value holds no number that is no integer.
pub open spec fn free_of_numbers(value: ValueModel) -> bool
    decreases value,
{
    match value {
        ValueModel::Integer(_) => true,
        ValueModel::String(_) => true,
        ValueModel::Array(items) => forall|index: int|
            0 <= index < items.len() ==> free_of_numbers(#[trigger] items[index]),
        _ => false,
    }
}

/// A value can equal itself: it hangs only on whether each of its numbers is
/// close, or equal, to itself.
pub proof fn lemma_lenient_reflexive(value: ValueModel)
    ensures
        lenient_checks(value, value) is Some,
        all_of_one_number(lenient_checks(value, value).unwrap()),
    decreases value, 0nat,
{
    match value {
        ValueModel::Array(items) => {
            lemma_lenient_reflexive_all(items, items.len());
        },
        _ => {},
    }
}

/// The first `upto` elements of an array can equal themselves.
pub proof fn lemma_lenient_reflexive_all(items: Seq<ValueModel>, upto: nat)
    requires
        upto <= items.len(),
    ensures
        lenient_checks_all(items, items, upto) is Some,
        all_of_one_number(lenient_checks_all(items, items, upto).unwrap()),
    decreases items, upto,
{
    if upto > 0 {
        lemma_lenient_reflexive_all(items, (upto - 1) as nat);
        lemma_lenient_reflexive(items[upto - 1]);
    }
}

/// Two values can be equal in the one order if they can in the other, and it
/// hangs on the same questions, but that a question of the one order may
/// have its sides exchanged in the other. Whether two numbers are close is
/// asked of their difference, and so may be answered otherwise once the
/// sides are exchanged.
pub proof fn lemma_lenient_symmetric(left: ValueModel, right: ValueModel)
    ensures
        match (lenient_checks(left, right), lenient_checks(right, left)) {
            (Some(here), Some(there)) => same_or_mirrored(here, there),
            (None, None) => true,
            _ => false,
        },
    decreases left, 0nat,
{
    match (left, right) {
        (ValueModel::Array(lefts), ValueModel::Array(rights)) => {
            if lefts.len() == rights.len() {
                lemma_lenient_symmetric_all(lefts, rights, lefts.len());
            }
        },
        _ => {},
    }
}

/// The first `upto` elements of two arrays can be equal in the one order if
/// they can in the other.
pub proof fn lemma_lenient_symmetric_all(lefts: Seq<ValueModel>, rights: Seq<ValueModel>, upto: nat)
    requires
        upto <= lefts.len(),
        upto <= rights.len(),
    ensures
        match (lenient_checks_all(lefts, rights, upto), lenient_checks_all(rights, lefts, upto)) {
            (Some(here), Some(there)) => same_or_mirrored(here, there),
            (None, None) => true,
            _ => false,
        },
    decreases lefts, upto,
{
    if upto > 0 {
        lemma_lenient_symmetric_all(lefts, rights, (upto - 1) as nat);
        lemma_lenient_symmetric(lefts[upto - 1], rights[upto - 1]);
    }
}

/// Of values that hold no number but integers the comparison is equality:
/// equal values are equal without a question left, and unequal values cannot
/// be equal.
pub proof fn lemma_lenient_exact(left: ValueModel, right: ValueModel)
    requires
        free_of_numbers(left),
        free_of_numbers(right),
    ensures
        left == right ==> lenient_checks(left, right) == Some(Seq::<FloatCheck>::empty()),
        left != right ==> lenient_checks(left, right) is None,
    decreases left, 0nat,
{
    match (left, right) {
        (ValueModel::Array(lefts), ValueModel::Array(rights)) => {
            if lefts.len() == rights.len() {
                lemma_lenient_exact_all(lefts, rights, lefts.len());
                if lenient_checks_all(lefts, rights, lefts.len()) is Some {
                    assert(lefts =~= rights);
                }
            }
        },
        _ => {},
    }
}

/// Of arrays that hold no number but integers, the first `upto` elements can
/// be equal only if they are, and then without a question left.
pub proof fn lemma_lenient_exact_all(lefts: Seq<ValueModel>, rights: Seq<ValueModel>, upto: nat)
    requires
        upto <= lefts.len(),
        upto <= rights.len(),
        forall|index: int| 0 <= index < lefts.len() ==> free_of_numbers(#[trigger] lefts[index]),
        forall|index: int| 0 <= index < rights.len() ==> free_of_numbers(#[trigger] rights[index]),
    ensures
        match lenient_checks_all(lefts, rights, upto) {
            Some(checks) => checks == Seq::<FloatCheck>::empty() && forall|index: int|
                0 <= index < upto ==> lefts[index] == rights[index],
            None => exists|index: int| 0 <= index < upto && lefts[index] != rights[index],
        },
    decreases lefts, upto,
{
    if upto > 0 {
        lemma_lenient_exact_all(lefts, rights, (upto - 1) as nat);
        lemma_lenient_exact(lefts[upto - 1], rights[upto - 1]);
        let before = lenient_checks_all(lefts, rights, (upto - 1) as nat);
        let last = lenient_checks(lefts[upto - 1], rights[upto - 1]);
        if before is Some && last is Some {
            assert(before.unwrap() + last.unwrap() =~= Seq::<FloatCheck>::empty());
        }
    }
}

} // verus!
