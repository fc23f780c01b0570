//! Interaction signals and their scalar magnitudes.
use vstd::prelude::*;

verus! {

/// A user action on a recipe that drives a preference update.
#[derive(Debug, Clone, Copy, PartialEq, Eq)]
pub enum PreferenceSignal {
    /// A star rating, meaningful from 1 to 5.
    Rated(i16),
    /// The user cooked the recipe.
    Cooked,
    /// The user added the recipe to their favourites.
    Favourited,
    /// The user skipped a suggestion of the recipe.
    Skipped,
}

/// The magnitude of a signal, in thousandths.
pub open spec fn signal_value(s: PreferenceSignal) -> int {
    match s {
        PreferenceSignal::Rated(r) => {
            if r == 5 {
                1000
            } else if r == 4 {
                600
            } else if r == 3 {
                200
            } else if r == 2 {
                -200
            } else if r == 1 {
                -600
            } else {
                0
            }
        },
        PreferenceSignal::Cooked => 500,
        PreferenceSignal::Favourited => 800,
        PreferenceSignal::Skipped => -300,
    }
}

impl PreferenceSignal {
    /// The signal's magnitude in thousandths: ratings 5..1 give
    /// 1.0, 0.6, 0.2, -0.2, -0.6 (any other rating 0); cooking 0.5,
    /// favouriting 0.8, skipping -0.3.
    pub fn value(self) -> (r: i64)
        ensures
            r == signal_value(self),
            -600 <= r <= 1000,
    {
        match self {
            PreferenceSignal::Rated(5) => 1000,
            PreferenceSignal::Rated(4) => 600,
            PreferenceSignal::Rated(3) => 200,
            PreferenceSignal::Rated(2) => -200,
            PreferenceSignal::Rated(1) => -600,
            PreferenceSignal::Rated(_) => 0,
            PreferenceSignal::Cooked => 500,
            PreferenceSignal::Favourited => 800,
            PreferenceSignal::Skipped => -300,
        }
    }
}

} // verus!
