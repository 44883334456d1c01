//! The lenient comparison of values.
//!
//! Two values may be taken for equal though they are of different kinds: a
//! number and an integer, a vector and an array of its components. Whether
//! they are hangs, in the end, on questions about numbers that are no
//! integers. The comparison finds these questions; to answer them takes the
//! arithmetic of the machine, and is left to the caller. The values are equal
//! if every answer is yes.

use crate::float::FloatValue;
use crate::value::{models, SendPropValue, ValueModel};
use vstd::prelude::*;

verus! {

/// A question about numbers on which a comparison hangs.
#[derive(Clone, Copy, Debug, PartialEq, Eq, Structural)]
pub enum FloatCheck {
    /// Is `left - right` below a thousandth?
    Close { left: FloatValue, right: FloatValue },
    /// Are the two numbers equal?
    Equal { left: FloatValue, right: FloatValue },
    /// Is the number zero?
    Zero { number: FloatValue },
    /// Are the integer and the number equal, both taken in double precision?
    EqualToInteger { integer: i64, number: FloatValue },
}

impl FloatCheck {
    /// The question with its two sides exchanged.
    pub open spec fn mirrored(self) -> FloatCheck {
        match self {
            FloatCheck::Close { left, right } => FloatCheck::Close { left: right, right: left },
            FloatCheck::Equal { left, right } => FloatCheck::Equal { left: right, right: left },
            other => other,
        }
    }

    /// Whether the question compares a number with itself.
    pub open spec fn of_one_number(self) -> bool {
        match self {
            FloatCheck::Close { left, right } => left == right,
            FloatCheck::Equal { left, right } => left == right,
            _ => false,
        }
    }
}

/// The questions of two comparisons that both have to hold.
pub open spec fn both(first: Option<Seq<FloatCheck>>, second: Option<Seq<FloatCheck>>) -> Option<
    Seq<FloatCheck>,
> {
    match (first, second) {
        (Some(first), Some(second)) => Some(first + second),
        _ => None,
    }
}

/// The questions on which it hangs whether a number equals a value. A number
/// equals a number that is close to it, and an integer that is equal to it;
/// it equals no other value.
pub open spec fn number_checks(number: FloatValue, other: ValueModel) -> Option<Seq<FloatCheck>> {
    match other {
        ValueModel::Float(right) => Some(seq![FloatCheck::Close { left: number, right }]),
        ValueModel::Integer(integer) => Some(seq![FloatCheck::EqualToInteger { integer, number }]),
        _ => None,
    }
}

/// The questions on which it hangs whether two values are equal: the values
/// are equal if the answer to each is yes. `None` where they are unequal
/// whatever the answers.
///
/// Values of one kind are equal if what they hold is equal, vectors
/// component by component and arrays element by element; of numbers it is
/// enough that they are close. An integer equals a number that is equal to
/// it. A vector of three equals one of two with the same first two
/// components if its third is zero. A vector equals an array of as many
/// elements, each of which equals the component in its place.
pub open spec fn lenient_checks(left: ValueModel, right: ValueModel) -> Option<Seq<FloatCheck>>
    decreases left, 0nat,
{
    match (left, right) {
        (ValueModel::Vector(left), ValueModel::Vector(right)) => Some(
            seq![
                FloatCheck::Equal { left: left.x, right: right.x },
                FloatCheck::Equal { left: left.y, right: right.y },
                FloatCheck::Equal { left: left.z, right: right.z },
            ],
        ),
        (ValueModel::VectorXY(left), ValueModel::VectorXY(right)) => Some(
            seq![
                FloatCheck::Equal { left: left.x, right: right.x },
                FloatCheck::Equal { left: left.y, right: right.y },
            ],
        ),
        (ValueModel::Integer(left), ValueModel::Integer(right)) => if left == right {
            Some(Seq::empty())
        } else {
            None
        },
        (ValueModel::Float(left), right) => number_checks(left, right),
        (ValueModel::Integer(integer), ValueModel::Float(number)) => Some(
            seq![FloatCheck::EqualToInteger { integer, number }],
        ),
        (ValueModel::String(left), ValueModel::String(right)) => if left == right {
            Some(Seq::empty())
        } else {
            None
        },
        (ValueModel::Array(lefts), ValueModel::Array(rights)) => if lefts.len() == rights.len() {
            lenient_checks_all(lefts, rights, lefts.len())
        } else {
            None
        },
        (ValueModel::Vector(left), ValueModel::VectorXY(right)) => Some(
            seq![
                FloatCheck::Equal { left: left.x, right: right.x },
                FloatCheck::Equal { left: left.y, right: right.y },
                FloatCheck::Zero { number: left.z },
            ],
        ),
        (ValueModel::VectorXY(left), ValueModel::Vector(right)) => Some(
            seq![
                FloatCheck::Equal { left: left.x, right: right.x },
                FloatCheck::Equal { left: left.y, right: right.y },
                FloatCheck::Zero { number: right.z },
            ],
        ),
        (ValueModel::Vector(vector), ValueModel::Array(items)) => vector3_checks(
            vector.x,
            vector.y,
            vector.z,
            items,
        ),
        (ValueModel::Array(items), ValueModel::Vector(vector)) => vector3_checks(
            vector.x,
            vector.y,
            vector.z,
            items,
        ),
        (ValueModel::VectorXY(vector), ValueModel::Array(items)) => vector2_checks(
            vector.x,
            vector.y,
            items,
        ),
        (ValueModel::Array(items), ValueModel::VectorXY(vector)) => vector2_checks(
            vector.x,
            vector.y,
            items,
        ),
        _ => None,
    }
}

/// The questions on which it hangs whether three numbers equal the elements
/// of an array.
pub open spec fn vector3_checks(x: FloatValue, y: FloatValue, z: FloatValue, items: Seq<ValueModel>)
    -> Option<Seq<FloatCheck>> {
    if items.len() == 3 {
        both(both(number_checks(x, items[0]), number_checks(y, items[1])), number_checks(z, items[2]))
    } else {
        None
    }
}

/// The questions on which it hangs whether two numbers equal the elements of
/// an array.
pub open spec fn vector2_checks(x: FloatValue, y: FloatValue, items: Seq<ValueModel>) -> Option<
    Seq<FloatCheck>,
> {
    if items.len() == 2 {
        both(number_checks(x, items[0]), number_checks(y, items[1]))
    } else {
        None
    }
}

/// The questions on which it hangs whether the first `upto` of `lefts` equal
/// those of `rights`, each the one in its place.
pub open spec fn lenient_checks_all(lefts: Seq<ValueModel>, rights: Seq<ValueModel>, upto: nat)
    -> Option<Seq<FloatCheck>>
    decreases lefts, upto,
{
    if upto == 0 || upto > lefts.len() || upto > rights.len() {
        Some(Seq::empty())
    } else {
        both(
            lenient_checks_all(lefts, rights, (upto - 1) as nat),
            lenient_checks(lefts[upto - 1], rights[upto - 1]),
        )
    }
}

/// Writes the questions on which it hangs whether `number` equals `other`
/// behind `checks`, and says whether the two can be equal at all.
fn push_number_checks(number: FloatValue, other: &SendPropValue, checks: &mut Vec<FloatCheck>) -> (possible:
    bool)
    ensures
        possible == number_checks(number, other@) is Some,
        possible ==> final(checks)@ == old(checks)@ + number_checks(number, other@).unwrap(),
{
    match other {
        SendPropValue::Float(right) => {
            checks.push(FloatCheck::Close { left: number, right: *right });
            assert(checks@ =~= old(checks)@ + number_checks(number, other@).unwrap());
            true
        },
        SendPropValue::Integer(integer) => {
            checks.push(FloatCheck::EqualToInteger { integer: *integer, number });
            assert(checks@ =~= old(checks)@ + number_checks(number, other@).unwrap());
            true
        },
        _ => false,
    }
}

impl SendPropValue {
    /// Writes the questions on which it hangs whether `self` equals `other`
    /// behind `checks`, and says whether the two can be equal at all.
    #[verifier::loop_isolation(false)]
    pub fn push_lenient_checks(&self, other: &SendPropValue, checks: &mut Vec<FloatCheck>) -> (possible:
        bool)
        ensures
            possible == lenient_checks(self@, other@) is Some,
            possible ==> final(checks)@ == old(checks)@ + lenient_checks(self@, other@).unwrap(),
        decreases self,
    {
        let ghost before = checks@;
        match (self, other) {
            (SendPropValue::Vector(left), SendPropValue::Vector(right)) => {
                checks.push(FloatCheck::Equal { left: left.x, right: right.x });
                checks.push(FloatCheck::Equal { left: left.y, right: right.y });
                checks.push(FloatCheck::Equal { left: left.z, right: right.z });
                assert(checks@ =~= before + lenient_checks(self@, other@).unwrap());
                true
            },
            (SendPropValue::VectorXY(left), SendPropValue::VectorXY(right)) => {
                checks.push(FloatCheck::Equal { left: left.x, right: right.x });
                checks.push(FloatCheck::Equal { left: left.y, right: right.y });
                assert(checks@ =~= before + lenient_checks(self@, other@).unwrap());
                true
            },
            (SendPropValue::Integer(left), SendPropValue::Integer(right)) => {
                assert(before =~= before + Seq::<FloatCheck>::empty());
                *left == *right
            },
            (SendPropValue::Float(left), _) => push_number_checks(*left, other, checks),
            (SendPropValue::Integer(integer), SendPropValue::Float(number)) => {
                checks.push(FloatCheck::EqualToInteger { integer: *integer, number: *number });
                assert(checks@ =~= before + lenient_checks(self@, other@).unwrap());
                true
            },
            (SendPropValue::String(left), SendPropValue::String(right)) => {
                assert(before =~= before + Seq::<FloatCheck>::empty());
                *left == *right
            },
            (SendPropValue::Array(lefts), SendPropValue::Array(rights)) => {
                if lefts.len() != rights.len() {
                    return false;
                }
                let ghost left_models = self@->Array_0;
                let ghost right_models = other@->Array_0;
                let mut index: usize = 0;
                assert(before =~= before + Seq::<FloatCheck>::empty());
                while index < lefts.len()
                    invariant
                        index <= lefts@.len(),
                        lefts@.len() == rights@.len(),
                        left_models.len() == lefts@.len(),
                        right_models.len() == rights@.len(),
                        forall|at: int| 0 <= at < lefts@.len() ==> left_models[at] == lefts@[at]@,
                        forall|at: int| 0 <= at < rights@.len() ==> right_models[at] == rights@[at]@,
                        lenient_checks_all(left_models, right_models, index as nat) is Some,
                        checks@ == before + lenient_checks_all(
                            left_models,
                            right_models,
                            index as nat,
                        ).unwrap(),
                    decreases lefts@.len() - index,
                {
                    let ghost so_far = lenient_checks_all(left_models, right_models, index as nat);
                    if !lefts[index].push_lenient_checks(&rights[index], checks) {
                        proof {
                            lemma_lenient_checks_all_fails(
                                left_models,
                                right_models,
                                (index + 1) as nat,
                                left_models.len(),
                            );
                        }
                        return false;
                    }
                    proof {
                        let step = lenient_checks(left_models[index as int], right_models[index as int]);
                        assert(before + so_far.unwrap() + step.unwrap() =~= before + (
                        so_far.unwrap() + step.unwrap()));
                    }
                    index = index + 1;
                }
                true
            },
            (SendPropValue::Vector(left), SendPropValue::VectorXY(right)) => {
                checks.push(FloatCheck::Equal { left: left.x, right: right.x });
                checks.push(FloatCheck::Equal { left: left.y, right: right.y });
                checks.push(FloatCheck::Zero { number: left.z });
                assert(checks@ =~= before + lenient_checks(self@, other@).unwrap());
                true
            },
            (SendPropValue::VectorXY(left), SendPropValue::Vector(right)) => {
                checks.push(FloatCheck::Equal { left: left.x, right: right.x });
                checks.push(FloatCheck::Equal { left: left.y, right: right.y });
                checks.push(FloatCheck::Zero { number: right.z });
                assert(checks@ =~= before + lenient_checks(self@, other@).unwrap());
                true
            },
            (SendPropValue::Vector(vector), SendPropValue::Array(items)) => {
                push_vector3_checks(vector.x, vector.y, vector.z, items, checks)
            },
            (SendPropValue::Array(items), SendPropValue::Vector(vector)) => {
                push_vector3_checks(vector.x, vector.y, vector.z, items, checks)
            },
            (SendPropValue::VectorXY(vector), SendPropValue::Array(items)) => {
                push_vector2_checks(vector.x, vector.y, items, checks)
            },
            (SendPropValue::Array(items), SendPropValue::VectorXY(vector)) => {
                push_vector2_checks(vector.x, vector.y, items, checks)
            },
            _ => false,
        }
    }

    /// The questions on which it hangs whether `self` equals `other`: the two
    /// are equal if the answer to each is yes. `None` where they are unequal
    /// whatever the answers.
    pub fn lenient_checks(&self, other: &SendPropValue) -> (checks: Option<Vec<FloatCheck>>)
        ensures
            match checks {
                Some(checks) => lenient_checks(self@, other@) == Some(checks@),
                None => lenient_checks(self@, other@) is None,
            },
    {
        let mut checks: Vec<FloatCheck> = Vec::new();
        if self.push_lenient_checks(other, &mut checks) {
            assert(checks@ =~= lenient_checks(self@, other@).unwrap());
            Some(checks)
        } else {
            None
        }
    }
}

/// Writes the questions on which it hangs whether three numbers equal the
/// elements of an array behind `checks`.
fn push_vector3_checks(
    x: FloatValue,
    y: FloatValue,
    z: FloatValue,
    items: &Vec<SendPropValue>,
    checks: &mut Vec<FloatCheck>,
) -> (possible: bool)
    ensures
        possible == vector3_checks(x, y, z, models(items@)) is Some,
        possible ==> final(checks)@ == old(checks)@ + vector3_checks(
            x,
            y,
            z,
            models(items@),
        ).unwrap(),
{
    if items.len() != 3 {
        return false;
    }
    let ghost before = checks@;
    let possible = push_number_checks(x, &items[0], checks) && push_number_checks(
        y,
        &items[1],
        checks,
    ) && push_number_checks(z, &items[2], checks);
    proof {
        if possible {
            let first = number_checks(x, items@[0]@).unwrap();
            let second = number_checks(y, items@[1]@).unwrap();
            let third = number_checks(z, items@[2]@).unwrap();
            assert(before + first + second + third =~= before + (first + second + third));
        }
    }
    possible
}

/// Writes the questions on which it hangs whether two numbers equal the
/// elements of an array behind `checks`.
fn push_vector2_checks(
    x: FloatValue,
    y: FloatValue,
    items: &Vec<SendPropValue>,
    checks: &mut Vec<FloatCheck>,
) -> (possible: bool)
    ensures
        possible == vector2_checks(x, y, models(items@)) is Some,
        possible ==> final(checks)@ == old(checks)@ + vector2_checks(
            x,
            y,
            models(items@),
        ).unwrap(),
{
    if items.len() != 2 {
        return false;
    }
    let ghost before = checks@;
    let possible = push_number_checks(x, &items[0], checks) && push_number_checks(
        y,
        &items[1],
        checks,
    );
    proof {
        if possible {
            let first = number_checks(x, items@[0]@).unwrap();
            let second = number_checks(y, items@[1]@).unwrap();
            assert(before + first + second =~= before + (first + second));
        }
    }
    possible
}

/// Once two elements cannot be equal, the arrays cannot.
pub proof fn lemma_lenient_checks_all_fails(
    lefts: Seq<ValueModel>,
    rights: Seq<ValueModel>,
    failed: nat,
    upto: nat,
)
    requires
        lenient_checks_all(lefts, rights, failed) is None,
        failed <= upto <= lefts.len(),
        upto <= rights.len(),
    ensures
        lenient_checks_all(lefts, rights, upto) is None,
    decreases upto,
{
    if upto > failed {
        lemma_lenient_checks_all_fails(lefts, rights, failed, (upto - 1) as nat);
    }
}

} // verus!
