//! `==` on errors and failures.

use vstd::prelude::*;
use crate::framework::response::api_fail::{ApiErrors, ApiFailure, errors_match, failures_match};

verus! {

impl PartialEq for ApiErrors {
    /// Compares the errors' codes and messages only.
    fn eq(&self, other: &Self) -> (r: bool) {
        self.same_errors(other)
    }
}

impl vstd::std_specs::cmp::PartialEqSpecImpl for ApiErrors {
    open spec fn obeys_eq_spec() -> bool {
        true
    }

    open spec fn eq_spec(&self, other: &ApiErrors) -> bool {
        errors_match(self.errors@, other.errors@)
    }
}

impl Eq for ApiErrors {
}

impl PartialEq for ApiFailure {
    fn eq(&self, other: &Self) -> (r: bool) {
        self.same_as(other)
    }
}

impl vstd::std_specs::cmp::PartialEqSpecImpl for ApiFailure {
    open spec fn obeys_eq_spec() -> bool {
        true
    }

    open spec fn eq_spec(&self, other: &ApiFailure) -> bool {
        failures_match(*self, *other)
    }
}

impl Eq for ApiFailure {
}

} // verus!
