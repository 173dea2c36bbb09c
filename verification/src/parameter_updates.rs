//! The decisions of a parameter update for the parameters whose values are whole numbers,
//! switches or texts: which range it moves over, whether it applies at all, and the value it
//! gives. The step a relative update makes on a whole number is worked out from the fraction the
//! update was sent with, and is handed in already worked out.

use vstd::prelude::*;

use crate::parameters::{flip_flop_int, int_is_valid, spec_flip_flop_int, spec_int_is_valid};
use crate::text::text_equal;

verus! {

/// A parameter value: a whole number, a switch or a text.
pub enum PlainValue {
    Int(i16),
    Bool(bool),
    Text(String),
}

/// What a parameter value holds.
pub enum ValueView {
    Int(i16),
    Bool(bool),
    Text(Seq<char>),
}

/// The range an update moves a parameter over.
pub struct PlainRange {
    pub min: PlainValue,
    pub max: PlainValue,
}

/// A parameter: its value and the bounds it may carry.
pub struct PlainParameter {
    pub value: PlainValue,
    pub min: Option<PlainValue>,
    pub max: Option<PlainValue>,
}

/// Which way a relative update moves a parameter: the sign of the fraction it was sent with.
#[derive(Clone, Copy, Debug, PartialEq, Eq, Structural)]
pub enum Direction {
    Up,
    Down,
    Still,
}

/// A change to a parameter.
pub enum PlainUpdate {
    /// A move up or down the range. For a whole number the update moves it by `step` (at least
    /// one), the part of the range's span that the fraction it was sent with covers.
    Relative(Direction, i16, Option<PlainRange>),
    /// A new value.
    Absolute(PlainValue),
    /// A move to the other end of the range.
    FlipFlop(Option<PlainRange>),
}

/// What a value holds.
pub open spec fn view_of(v: PlainValue) -> ValueView {
    match v {
        PlainValue::Int(i) => ValueView::Int(i),
        PlainValue::Bool(b) => ValueView::Bool(b),
        PlainValue::Text(s) => ValueView::Text(s@),
    }
}

/// What a range holds: its bottom and its top.
pub open spec fn range_view(r: PlainRange) -> (ValueView, ValueView) {
    (view_of(r.min), view_of(r.max))
}

/// What a range that may be missing holds.
pub open spec fn opt_range_view(r: Option<PlainRange>) -> Option<(ValueView, ValueView)> {
    match r {
        Some(r) => Some(range_view(r)),
        None => None,
    }
}

/// The range a parameter can be moved over: its stored minimum and maximum, or `false..=true`
/// for a switch without them; none for other parameters without them.
pub open spec fn spec_to_range(p: PlainParameter) -> Option<(ValueView, ValueView)> {
    match (p.min, p.max) {
        (Some(min), Some(max)) => Some((view_of(min), view_of(max))),
        _ => match p.value {
            PlainValue::Bool(_) => Some((ValueView::Bool(false), ValueView::Bool(true))),
            _ => None,
        },
    }
}

/// The range a relative or flip-flop update moves over: the one it carries, or else the
/// parameter's own.
pub open spec fn filled_range(carried: Option<PlainRange>, p: PlainParameter) -> Option<(ValueView, ValueView)> {
    match carried {
        Some(r) => Some(range_view(r)),
        None => spec_to_range(p),
    }
}

/// The update with the range it moves over filled in from the parameter where it carried none;
/// an absolute update is left as it is.
pub open spec fn filled_update(before: PlainUpdate, after: PlainUpdate, p: PlainParameter) -> bool {
    match before {
        PlainUpdate::Relative(direction, step, range) => after matches PlainUpdate::Relative(d, s, r) && d
            == direction && s == step && opt_range_view(r) == filled_range(range, p),
        PlainUpdate::Absolute(value) => after matches PlainUpdate::Absolute(v) && view_of(v) == view_of(value),
        PlainUpdate::FlipFlop(range) => after matches PlainUpdate::FlipFlop(r) && opt_range_view(r)
            == filled_range(range, p),
    }
}

/// A value is allowed when it is a whole number within whatever whole-number bounds the
/// parameter has; switches and texts are always allowed.
pub open spec fn spec_is_valid(p: PlainParameter, v: ValueView) -> bool {
    match v {
        ValueView::Int(i) => spec_int_is_valid(i, int_bound(p.min), int_bound(p.max)),
        _ => true,
    }
}

/// A bound of a whole-number parameter; a bound that is not a whole number bounds nothing.
pub open spec fn int_bound(bound: Option<PlainValue>) -> Option<i16> {
    match bound {
        Some(PlainValue::Int(i)) => Some(i),
        _ => None,
    }
}

/// The whole number held, if any.
pub open spec fn as_int(v: ValueView) -> i16 {
    match v {
        ValueView::Int(i) => i,
        _ => 0,
    }
}

/// A whole number held between `min` and `max`.
pub open spec fn clamp_int(v: int, min: int, max: int) -> int {
    if v < min {
        min
    } else if v > max {
        max
    } else {
        v
    }
}

/// The whole number a relative update moves `value` to.
pub open spec fn moved_int(value: i16, direction: Direction, step: i16) -> int {
    match direction {
        Direction::Up => value + step,
        Direction::Down => value - step,
        Direction::Still => value as int,
    }
}

/// The value an update gives a parameter, or none when it leaves it alone: a relative or
/// flip-flop update with no range to move over, a relative update that does not move, or a
/// value that is not allowed.
pub open spec fn spec_apply(u: PlainUpdate, p: PlainParameter) -> Option<ValueView> {
    match u {
        PlainUpdate::Absolute(v) => if spec_is_valid(p, view_of(v)) {
            Some(view_of(v))
        } else {
            None
        },
        PlainUpdate::Relative(direction, step, range) => match filled_range(range, p) {
            None => None,
            Some((lo, hi)) => if direction == Direction::Still {
                None
            } else {
                match p.value {
                    PlainValue::Int(v) => Some(
                        ValueView::Int(
                            clamp_int(moved_int(v, direction, step), as_int(lo) as int, as_int(hi) as int) as i16,
                        ),
                    ),
                    _ => if direction == Direction::Up {
                        Some(hi)
                    } else {
                        Some(lo)
                    },
                }
            },
        },
        PlainUpdate::FlipFlop(range) => match filled_range(range, p) {
            None => None,
            Some((lo, hi)) => match p.value {
                PlainValue::Int(v) => Some(ValueView::Int(spec_flip_flop_int(v, as_int(lo), as_int(hi)))),
                other => if view_of(other) == lo {
                    Some(hi)
                } else {
                    Some(lo)
                },
            },
        },
    }
}

/// What the update needs in order to be applied: a whole-number parameter is moved over a range
/// of whole numbers, a relative move over it steps by at least one, stays within the numbers a
/// parameter can hold and has its bottom no higher than its top, and a flip-flop over it has
/// the parameter's offset from the bottom and the range's span within them.
pub open spec fn can_apply(u: PlainUpdate, p: PlainParameter) -> bool {
    match p.value {
        PlainValue::Int(v) => match u {
            PlainUpdate::Relative(direction, step, range) => direction != Direction::Still ==> match filled_range(range, p) {
                Some((lo, hi)) => {
                    &&& lo is Int
                    &&& hi is Int
                    &&& step >= 1
                    &&& as_int(lo) <= as_int(hi)
                    &&& i16::MIN <= moved_int(v, direction, step) <= i16::MAX
                },
                None => true,
            },
            PlainUpdate::FlipFlop(range) => match filled_range(range, p) {
                Some((lo, hi)) => {
                    &&& lo is Int
                    &&& hi is Int
                    &&& i16::MIN <= v - as_int(lo) <= i16::MAX
                    &&& i16::MIN <= as_int(hi) - as_int(lo) <= i16::MAX
                },
                None => true,
            },
            PlainUpdate::Absolute(_) => true,
        },
        _ => true,
    }
}

/// A copy of a value.
pub fn copy_value(v: &PlainValue) -> (copy: PlainValue)
    ensures
        view_of(copy) == view_of(*v),
{
    match v {
        PlainValue::Int(i) => PlainValue::Int(*i),
        PlainValue::Bool(b) => PlainValue::Bool(*b),
        PlainValue::Text(s) => PlainValue::Text(s.clone()),
    }
}

/// Whether two values are the same value of the same kind.
pub fn same_value(a: &PlainValue, b: &PlainValue) -> (same: bool)
    ensures
        same == (view_of(*a) == view_of(*b)),
{
    match (a, b) {
        (PlainValue::Int(x), PlainValue::Int(y)) => *x == *y,
        (PlainValue::Bool(x), PlainValue::Bool(y)) => *x == *y,
        (PlainValue::Text(x), PlainValue::Text(y)) => text_equal(x.as_str(), y.as_str()),
        _ => false,
    }
}

/// The whole number a bound holds, if it is a whole number.
fn int_bound_of(bound: &Option<PlainValue>) -> (b: Option<i16>)
    ensures
        b == int_bound(*bound),
{
    match bound {
        Some(PlainValue::Int(i)) => Some(*i),
        _ => None,
    }
}

impl PlainParameter {
    /// The range that relative and flip-flop updates move the parameter over: its stored minimum
    /// and maximum, or `false..=true` for a switch, which has no stored range. `None` for a
    /// parameter that cannot be moved without a range handed to it (a text without bounds).
    pub fn to_range(&self) -> (range: Option<PlainRange>)
        ensures
            opt_range_view(range) == spec_to_range(*self),
    {
        match (&self.min, &self.max) {
            (Some(min), Some(max)) => Some(PlainRange { min: copy_value(min), max: copy_value(max) }),
            _ => match self.value {
                PlainValue::Bool(_) => Some(PlainRange { min: PlainValue::Bool(false), max: PlainValue::Bool(true) }),
                _ => None,
            },
        }
    }

    /// Whether a value is allowed: a whole number must lie within the parameter's whole-number
    /// bounds; switches and texts are always allowed.
    pub fn is_valid(&self, value: &PlainValue) -> (valid: bool)
        ensures
            valid == spec_is_valid(*self, view_of(*value)),
    {
        match value {
            PlainValue::Int(i) => int_is_valid(*i, int_bound_of(&self.min), int_bound_of(&self.max)),
            _ => true,
        }
    }
}

impl PlainUpdate {
    /// Gives a relative or flip-flop update that carries no range the parameter's own range.
    pub fn fill_missing_range(&mut self, parameter: &PlainParameter)
        ensures
            filled_update(*old(self), *final(self), *parameter),
    {
        match self {
            PlainUpdate::Relative(_, _, range) => {
                if range.is_none() {
                    *range = parameter.to_range();
                }
            },
            PlainUpdate::FlipFlop(range) => {
                if range.is_none() {
                    *range = parameter.to_range();
                }
            },
            PlainUpdate::Absolute(_) => {},
        }
    }

    /// Applies the update to the parameter, filling in its range first, and returns the new
    /// value: `None` when there is no range to move over, a relative update does not move, or
    /// an absolute value is not allowed.
    pub fn apply_to_parameter(&mut self, parameter: &PlainParameter) -> (value: Option<PlainValue>)
        requires
            can_apply(*old(self), *parameter),
        ensures
            filled_update(*old(self), *final(self), *parameter),
            match value {
                Some(v) => spec_apply(*old(self), *parameter) == Some(view_of(v)),
                None => spec_apply(*old(self), *parameter) is None,
            },
    {
        self.fill_missing_range(parameter);
        match self {
            PlainUpdate::Relative(direction, step, Some(range)) => {
                if *direction == Direction::Still {
                    return None;
                }
                match (&parameter.value, &range.min, &range.max) {
                    (PlainValue::Int(v), PlainValue::Int(min), PlainValue::Int(max)) => {
                        let moved: i16 = if *direction == Direction::Up {
                            *v + *step
                        } else {
                            *v - *step
                        };
                        let clamped = if moved < *min {
                            *min
                        } else if moved > *max {
                            *max
                        } else {
                            moved
                        };
                        Some(PlainValue::Int(clamped))
                    },
                    (PlainValue::Int(_), _, _) => None,
                    _ => if *direction == Direction::Up {
                        Some(copy_value(&range.max))
                    } else {
                        Some(copy_value(&range.min))
                    },
                }
            },
            PlainUpdate::Absolute(value) => {
                if parameter.is_valid(value) {
                    Some(copy_value(value))
                } else {
                    None
                }
            },
            PlainUpdate::FlipFlop(Some(range)) => {
                match (&parameter.value, &range.min, &range.max) {
                    (PlainValue::Int(v), PlainValue::Int(min), PlainValue::Int(max)) => {
                        Some(PlainValue::Int(flip_flop_int(*v, *min, *max)))
                    },
                    (PlainValue::Int(_), _, _) => None,
                    (other, _, _) => if same_value(other, &range.min) {
                        Some(copy_value(&range.max))
                    } else {
                        Some(copy_value(&range.min))
                    },
                }
            },
            _ => None,
        }
    }
}

/// A relative update steps a whole number by its step and holds it within the range: up gives the
/// value plus the step, or the top where that passes it; down gives the value less the step, or
/// the bottom where that passes it (a value already outside the range is brought back into it).
/// This holds for the range the parameter carries and for a range handed in with the update.
pub proof fn lemma_relative_step(v: i16, lo: i16, hi: i16, step: i16)
    requires
        lo <= hi,
        step >= 1,
    ensures
        ({
            let p = PlainParameter {
                value: PlainValue::Int(v),
                min: Some(PlainValue::Int(lo)),
                max: Some(PlainValue::Int(hi)),
            };
            let up = if v + step < lo {
                lo
            } else if v + step > hi {
                hi
            } else {
                (v + step) as i16
            };
            let down = if v - step < lo {
                lo
            } else if v - step > hi {
                hi
            } else {
                (v - step) as i16
            };
            &&& spec_apply(PlainUpdate::Relative(Direction::Up, step, None), p) == Some(ValueView::Int(up))
            &&& spec_apply(PlainUpdate::Relative(Direction::Down, step, None), p) == Some(ValueView::Int(down))
        }),
        ({
            let p = PlainParameter { value: PlainValue::Int(v), min: None, max: None };
            let range = PlainRange { min: PlainValue::Int(lo), max: PlainValue::Int(hi) };
            let up = if v + step < lo {
                lo
            } else if v + step > hi {
                hi
            } else {
                (v + step) as i16
            };
            let down = if v - step < lo {
                lo
            } else if v - step > hi {
                hi
            } else {
                (v - step) as i16
            };
            &&& spec_apply(PlainUpdate::Relative(Direction::Up, step, Some(range)), p) == Some(ValueView::Int(up))
            &&& spec_apply(PlainUpdate::Relative(Direction::Down, step, Some(range)), p) == Some(ValueView::Int(down))
        }),
{
}

/// A flip-flop update switches a switch that carries no stored range: on to off and off to on.
pub proof fn lemma_flip_flop_toggles_a_switch(p: PlainParameter, on: bool)
    requires
        p.value == PlainValue::Bool(on),
        p.min is None || p.max is None,
    ensures
        spec_apply(PlainUpdate::FlipFlop(None), p) == Some(ValueView::Bool(!on)),
{
}

/// The position of the first parameter named `name`, if any.
pub open spec fn parameter_position(parameters: Seq<(String, PlainParameter)>, name: Seq<char>) -> Option<int>
    decreases parameters.len(),
{
    if parameters.len() == 0 {
        None
    } else if parameters[0].0@ == name {
        Some(0)
    } else {
        match parameter_position(parameters.drop_first(), name) {
            Some(i) => Some(i + 1),
            None => None,
        }
    }
}

/// The first parameter named `name` is the one after all that are named otherwise.
proof fn lemma_parameter_position(parameters: Seq<(String, PlainParameter)>, name: Seq<char>, i: int)
    requires
        0 <= i <= parameters.len(),
        forall|j: int| 0 <= j < i ==> (#[trigger] parameters[j]).0@ != name,
        i < parameters.len() ==> parameters[i].0@ == name,
    ensures
        parameter_position(parameters, name) == if i < parameters.len() { Some(i) } else { None::<int> },
    decreases i,
{
    if i > 0 {
        let rest = parameters.drop_first();
        assert forall|j: int| 0 <= j < i - 1 implies (#[trigger] rest[j]).0@ != name by {
            assert(rest[j] == parameters[j + 1]);
        }
        if i < parameters.len() {
            assert(rest[i - 1] == parameters[i]);
        }
        lemma_parameter_position(rest, name, i - 1);
        assert(parameters[0].0@ != name);
    }
}

/// The parameters after a value is set: the parameter named `name` takes `value` when it is
/// allowed, and nothing else changes; with no parameter of that name, or a value that is not
/// allowed, nothing changes at all.
pub open spec fn parameters_after_set(
    parameters: Seq<(String, PlainParameter)>,
    name: Seq<char>,
    value: PlainValue,
) -> Seq<(String, PlainParameter)> {
    match parameter_position(parameters, name) {
        Some(i) => if spec_is_valid(parameters[i].1, view_of(value)) {
            parameters.update(
                i,
                (parameters[i].0, PlainParameter { value: value, min: parameters[i].1.min, max: parameters[i].1.max }),
            )
        } else {
            parameters
        },
        None => parameters,
    }
}

/// Sets the value of a pedal's parameter named `name`, when it has one and the value is allowed
/// for it. Returns whether the value was set.
pub fn set_parameter_value(parameters: &mut Vec<(String, PlainParameter)>, name: &str, value: PlainValue) -> (set: bool)
    ensures
        final(parameters)@ == parameters_after_set(old(parameters)@, name@, value),
        set == (parameter_position(old(parameters)@, name@) matches Some(i) && spec_is_valid(
            old(parameters)@[i].1,
            view_of(value),
        )),
{
    let n = parameters.len();
    let mut i: usize = 0;
    while i < n
        invariant
            n == parameters@.len(),
            parameters@ == old(parameters)@,
            i <= n,
            forall|j: int| 0 <= j < i ==> (#[trigger] parameters@[j]).0@ != name@,
        decreases n - i,
    {
        if text_equal(parameters[i].0.as_str(), name) {
            proof {
                lemma_parameter_position(parameters@, name@, i as int);
            }
            if parameters[i].1.is_valid(&value) {
                let (key, parameter) = parameters.remove(i);
                let PlainParameter { value: _, min, max } = parameter;
                parameters.insert(i, (key, PlainParameter { value, min, max }));
                assert(parameters@ =~= parameters_after_set(old(parameters)@, name@, value));
                return true;
            }
            return false;
        }
        i = i + 1;
    }
    proof {
        lemma_parameter_position(parameters@, name@, n as int);
    }
    false
}

} // verus!
