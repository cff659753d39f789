//! A ternary helper on booleans, for inline conditional text.

use vstd::prelude::*;

verus! {

/// Picks one of two values by a condition.
pub trait Choosable<T> {
    /// The condition that decides.
    spec fn chosen(&self) -> bool;

    /// Returns `if_true` where the condition holds and `if_false` where it
    /// does not. Both have been evaluated by the caller.
    fn choose_from(&self, if_true: T, if_false: T) -> (r: T)
        ensures
            r == if self.chosen() {
                if_true
            } else {
                if_false
            },
    ;

    /// Calls the one of the two functions that the condition selects and
    /// returns its result; the other is never called.
    fn choose_with<F>(&self, if_true: F, if_false: F) -> (r: T) where F: FnOnce() -> T
        requires
            self.chosen() ==> if_true.requires(()),
            !self.chosen() ==> if_false.requires(()),
        ensures
            self.chosen() ==> if_true.ensures((), r),
            !self.chosen() ==> if_false.ensures((), r),
    ;
}

impl<T> Choosable<T> for bool {
    open spec fn chosen(&self) -> bool {
        *self
    }

    fn choose_from(&self, if_true: T, if_false: T) -> (r: T) {
        if *self {
            if_true
        } else {
            if_false
        }
    }

    fn choose_with<F>(&self, if_true: F, if_false: F) -> (r: T) where F: FnOnce() -> T {
        if *self {
            if_true()
        } else {
            if_false()
        }
    }
}

} // verus!
