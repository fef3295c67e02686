//! An opaque wrapper for secret configuration values (passwords,
//! authorization tokens). The wrapper has no printing trait, so a secret's
//! textual form cannot leak into logs or error messages; the raw value is
//! available only through the explicit `expose_secret` accessor, meant to be
//! called solely at the point of use.

use vstd::prelude::*;

verus! {

pub struct SecretString {
    inner: String,
}

impl View for SecretString {
    type V = Seq<char>;

    closed spec fn view(&self) -> Seq<char> {
        self.inner@
    }
}

impl SecretString {
    pub fn new(value: String) -> (r: SecretString)
        ensures
            r@ == value@,
    {
        SecretString { inner: value }
    }

    pub fn expose_secret(&self) -> (r: &String)
        ensures
            r@ == self@,
    {
        &self.inner
    }
}

} // verus!
