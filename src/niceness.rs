//! Scheduling niceness, an integer in `[-20, 19]`.
use vstd::prelude::*;

verus! {

pub const NICENESS_MIN: i8 = -20;

pub const NICENESS_MAX: i8 = 19;

/// Scheduling niceness of a process: an integer in `[-20, 19]`.
#[derive(Clone, Copy, Debug, PartialEq, Eq, Structural, Hash)]
pub struct Niceness {
    value: i8,
}

/// Why a value is no niceness.
#[derive(Clone, Copy, Debug, PartialEq, Eq, Structural, Hash)]
pub enum NicenessError {
    /// The value is above the largest niceness.
    LessOrEqualViolated,
    /// The value is below the smallest niceness.
    GreaterOrEqualViolated,
}

pub open spec fn is_niceness(v: int) -> bool {
    NICENESS_MIN <= v <= NICENESS_MAX
}

impl Niceness {
    #[verifier::type_invariant]
    spec fn in_range(self) -> bool {
        is_niceness(self.value as int)
    }

    /// The integer this niceness stands for.
    pub closed spec fn value(self) -> int {
        self.value as int
    }

    /// Builds a niceness from `v`, refusing a value outside `[-20, 19]`.
    pub fn try_new(v: i8) -> (r: Result<Niceness, NicenessError>)
        ensures
            is_niceness(v as int) <==> r is Ok,
            r matches Ok(n) ==> n.value() == v,
            v > NICENESS_MAX ==> r == Err::<Niceness, NicenessError>(
                NicenessError::LessOrEqualViolated,
            ),
            v < NICENESS_MIN ==> r == Err::<Niceness, NicenessError>(
                NicenessError::GreaterOrEqualViolated,
            ),
    {
        if v > NICENESS_MAX {
            Err(NicenessError::LessOrEqualViolated)
        } else if v < NICENESS_MIN {
            Err(NicenessError::GreaterOrEqualViolated)
        } else {
            Ok(Niceness { value: v })
        }
    }

    /// The integer this niceness stands for.
    pub fn into_inner(self) -> (r: i8)
        ensures
            r == self.value(),
            is_niceness(r as int),
    {
        proof {
            use_type_invariant(&self);
        }
        self.value
    }

    /// The niceness of a process that asked for no change: 0.
    pub fn zero() -> (r: Niceness)
        ensures
            r.value() == 0,
    {
        Niceness { value: 0 }
    }
}

impl Default for Niceness {
    fn default() -> (r: Niceness)
        ensures
            r.value() == 0,
    {
        Niceness::zero()
    }
}

} // verus!
