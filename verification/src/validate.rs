//! Shape validation for usernames and passwords.
//!
//! Lengths are measured in bytes of the UTF-8 encoding, the unit that
//! `str::len` reports; all four bounds are inclusive.

use vstd::prelude::*;

verus! {

/// Rules for validation.
///
/// All bounds are inclusive and measured in bytes of the UTF-8 encoding.
#[derive(Clone, Copy, Debug)]
pub struct ValidationRules {
    /// The minimum username size
    pub name_min: usize,
    /// The maximum username size
    pub name_max: usize,
    /// The minimum password size
    pub pass_min: usize,
    /// The maximum password size
    pub pass_max: usize,
}

/// The result of a validation.
#[derive(Clone, Copy, Debug, PartialEq, Eq, Structural)]
pub enum Validated {
    /// The given inputs are valid
    Valid,
    /// The given pass is invalid
    InvalidPass,
    /// The given name is invalid
    InvalidName,
}

impl ValidationRules {
    /// The username's length lies within the name bounds.
    pub open spec fn name_ok(self, name: &str) -> bool {
        self.name_min <= name.len() <= self.name_max
    }

    /// The password's length lies within the password bounds.
    pub open spec fn pass_ok(self, pass: &str) -> bool {
        self.pass_min <= pass.len() <= self.pass_max
    }

    /// The outcome `validate` owes: the name is checked first, so when both
    /// inputs are out of bounds the answer is `InvalidName`.
    pub open spec fn validate_spec(self, name: &str, pass: &str) -> Validated {
        if !self.name_ok(name) {
            Validated::InvalidName
        } else if !self.pass_ok(pass) {
            Validated::InvalidPass
        } else {
            Validated::Valid
        }
    }

    /// Validates the given values.
    pub fn validate(&self, name: &str, pass: &str) -> (r: Validated)
        ensures
            r == self.validate_spec(name, pass),
    {
        if name.len() < self.name_min || name.len() > self.name_max {
            Validated::InvalidName
        } else if pass.len() < self.pass_min || pass.len() > self.pass_max {
            Validated::InvalidPass
        } else {
            Validated::Valid
        }
    }

    /// Validates the given values.
    pub fn is_valid(&self, name: &str, pass: &str) -> (r: bool)
        ensures
            r == (self.validate_spec(name, pass) == Validated::Valid),
    {
        matches!(self.validate(name, pass), Validated::Valid)
    }
}

} // verus!
