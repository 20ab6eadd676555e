//! Utilities for working with the `Option` type.

use vstd::prelude::*;

verus! {

/// Adds mapping methods to the `Option` type.
pub trait OptionOps: Sized {
    type Item;

    /// The value that the option holds, if it holds one.
    spec fn held(&self) -> Option<Self::Item>;

    /// The result of `f` on the value, if there is a value.
    fn map_ref<U, F: FnOnce(&Self::Item) -> U>(&self, f: F) -> (r: Option<U>)
        requires
            self.held() matches Some(x) ==> call_requires(f, (&x,)),
        ensures
            match self.held() {
                Some(x) => r matches Some(y) && call_ensures(f, (&x,), y),
                None => r is None,
            },
    ;

    /// Calls `f` on the value, if there is a value.
    fn for_each<U, F: FnOnce(Self::Item) -> U>(self, f: F)
        requires
            self.held() matches Some(x) ==> call_requires(f, (x,)),
    ;

    /// Calls `f` on the value, if there is a value.
    fn for_each_ref<U, F: FnOnce(&Self::Item) -> U>(&self, f: F)
        requires
            self.held() matches Some(x) ==> call_requires(f, (&x,)),
    ;

    /// The two values as a pair, if there are two.
    fn zip<U>(self, other: Option<U>) -> (r: Option<(Self::Item, U)>)
        ensures
            r == (match (self.held(), other) {
                (Some(a), Some(b)) => Some((a, b)),
                _ => None,
            }),
    ;

    /// The result of `f` on the two values, if there are two.
    fn zip_with<U, R, F: FnOnce(Self::Item, U) -> R>(self, other: Option<U>, f: F) -> (r: Option<R>)
        requires
            forall|a: Self::Item, b: U| call_requires(f, (a, b)),
        ensures
            match (self.held(), other) {
                (Some(a), Some(b)) => r matches Some(y) && call_ensures(f, (a, b), y),
                _ => r is None,
            },
    ;
}

impl<T> OptionOps for Option<T> {
    type Item = T;

    open spec fn held(&self) -> Option<T> {
        *self
    }

    fn map_ref<U, F: FnOnce(&T) -> U>(&self, f: F) -> (r: Option<U>) {
        match self {
            Some(x) => Some(f(x)),
            None => None,
        }
    }

    fn for_each<U, F: FnOnce(T) -> U>(self, f: F) {
        if let Some(x) = self {
            f(x);
        }
    }

    fn for_each_ref<U, F: FnOnce(&T) -> U>(&self, f: F) {
        if let Some(x) = self {
            f(x);
        }
    }

    fn zip<U>(self, other: Option<U>) -> (r: Option<(T, U)>) {
        match (self, other) {
            (Some(a), Some(b)) => Some((a, b)),
            _ => None,
        }
    }

    fn zip_with<U, R, F: FnOnce(T, U) -> R>(self, other: Option<U>, f: F) -> (r: Option<R>) {
        match (self, other) {
            (Some(a), Some(b)) => Some(f(a, b)),
            _ => None,
        }
    }
}

} // verus!
