//! Filters that pick counters by their key or by their value.

use vstd::prelude::*;
use crate::text::{contains, ends_with, starts_with, str_contains, str_ends_with, str_starts_with};

verus! {

/// Something that says of a counter whether it is wanted.
pub trait Filter: Sized {
    /// Whether the filter can be asked.
    open spec fn ready(&self) -> bool {
        true
    }

    /// Whether `verdict` is what the filter says of the counter `key` with `value`.
    open spec fn admits(&self, key: Seq<char>, value: u64, verdict: bool) -> bool {
        true
    }

    /// Asks the filter about the counter `key` with `value`. The filter
    /// stays as it is.
    fn apply(&mut self, key: &str, value: u64) -> (verdict: bool)
        requires
            old(self).ready(),
        ensures
            old(self).admits(key@, value, verdict),
            *final(self) == *old(self),
    ;
}

/// Accepts all keys.
pub struct All;

impl Filter for All {
    open spec fn ready(&self) -> bool {
        true
    }

    open spec fn admits(&self, key: Seq<char>, value: u64, verdict: bool) -> bool {
        verdict
    }

    fn apply(&mut self, key: &str, value: u64) -> (verdict: bool) {
        true
    }
}

/// Selects keys using a callback.
pub struct Select<F: Fn(&str, u64) -> bool>(pub F);

impl<F: Fn(&str, u64) -> bool> Filter for Select<F> {
    /// The callback takes every counter.
    open spec fn ready(&self) -> bool {
        forall|key: &str, value: u64| call_requires(self.0, (key, value))
    }

    /// The verdict is one that the callback may return.
    open spec fn admits(&self, key: Seq<char>, value: u64, verdict: bool) -> bool {
        exists|k: &str| k@ == key && #[trigger] call_ensures(self.0, (k, value), verdict)
    }

    fn apply(&mut self, key: &str, value: u64) -> (verdict: bool) {
        (self.0)(key, value)
    }
}

/// Accepts keys that contain a given sub-string.
pub struct Contains<'l>(pub &'l str);

impl<'l> Filter for Contains<'l> {
    open spec fn ready(&self) -> bool {
        true
    }

    open spec fn admits(&self, key: Seq<char>, value: u64, verdict: bool) -> bool {
        verdict == contains(key, self.0@)
    }

    fn apply(&mut self, key: &str, value: u64) -> (verdict: bool) {
        str_contains(key, self.0)
    }
}

/// A sub-string by itself accepts the keys that contain it.
impl<'l> Filter for &'l str {
    open spec fn ready(&self) -> bool {
        true
    }

    open spec fn admits(&self, key: Seq<char>, value: u64, verdict: bool) -> bool {
        verdict == contains(key, self@)
    }

    fn apply(&mut self, key: &str, value: u64) -> (verdict: bool) {
        str_contains(key, *self)
    }
}

/// Accepts keys that start with a given sub-string.
pub struct StartsWith<'l>(pub &'l str);

impl<'l> Filter for StartsWith<'l> {
    open spec fn ready(&self) -> bool {
        true
    }

    open spec fn admits(&self, key: Seq<char>, value: u64, verdict: bool) -> bool {
        verdict == starts_with(key, self.0@)
    }

    fn apply(&mut self, key: &str, value: u64) -> (verdict: bool) {
        str_starts_with(key, self.0)
    }
}

/// Accepts keys that end with a given sub-string.
pub struct EndsWith<'l>(pub &'l str);

impl<'l> Filter for EndsWith<'l> {
    open spec fn ready(&self) -> bool {
        true
    }

    open spec fn admits(&self, key: Seq<char>, value: u64, verdict: bool) -> bool {
        verdict == ends_with(key, self.0@)
    }

    fn apply(&mut self, key: &str, value: u64) -> (verdict: bool) {
        str_ends_with(key, self.0)
    }
}

/// Accepts counters that are greater than a given value.
pub struct GreaterThan(pub u64);

impl Filter for GreaterThan {
    open spec fn ready(&self) -> bool {
        true
    }

    open spec fn admits(&self, key: Seq<char>, value: u64, verdict: bool) -> bool {
        verdict == (value > self.0)
    }

    fn apply(&mut self, key: &str, value: u64) -> (verdict: bool) {
        value > self.0
    }
}

/// Accepts counters that are less than a given value.
pub struct LessThan(pub u64);

impl Filter for LessThan {
    open spec fn ready(&self) -> bool {
        true
    }

    open spec fn admits(&self, key: Seq<char>, value: u64, verdict: bool) -> bool {
        verdict == (value < self.0)
    }

    fn apply(&mut self, key: &str, value: u64) -> (verdict: bool) {
        value < self.0
    }
}

} // verus!
