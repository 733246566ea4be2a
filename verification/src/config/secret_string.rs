//! A string whose value is masked wherever it is shown.

use crate::config::list_env::{mask, maskable, masked};
use vstd::prelude::*;
use vstd::string::*;

verus! {

/// String wrapper that masks sensitive values in logs and serialization.
#[derive(Clone)]
pub struct SecretString {
    /// The actual sensitive string value
    pub value: String,
}

impl SecretString {
    /// Creates a new `SecretString` from a string slice.
    pub fn new(value: &str) -> (res: Self)
        ensures
            res.value@ == value@,
    {
        Self { value: String::from_str(value) }
    }

    /// Returns the unmasked string value (use with caution).
    pub fn get_string(&self) -> (res: String)
        ensures
            res@ == self.value@,
    {
        self.value.clone()
    }

    /// The masked text shown for the secret in logs and serialized output.
    pub fn masked(&self) -> (res: String)
        requires
            maskable(self.value@),
        ensures
            res@ == masked(self.value@),
    {
        mask(self.value.clone())
    }
}

impl From<String> for SecretString {
    /// Converts a String into a `SecretString`.
    fn from(value: String) -> (res: Self) {
        SecretString { value }
    }
}

impl vstd::std_specs::convert::FromSpecImpl<String> for SecretString {
    open spec fn obeys_from_spec() -> bool {
        true
    }

    open spec fn from_spec(v: String) -> Self {
        SecretString { value: v }
    }
}

} // verus!
