//! Decisions of the authoring macros of native Plugins: which items they accept, and what they
//! generate for them.
use vstd::prelude::*;

pub mod attributes;
pub mod config;
pub mod descriptor;
pub mod expansion;
pub mod fields;
pub mod plugin_struct;
pub mod shape;

verus! {

/// Why an authored item was refused.
#[derive(Debug, PartialEq, Eq)]
pub struct AuthoringError {
    pub detail: String,
}

impl View for AuthoringError {
    type V = Seq<char>;

    open spec fn view(&self) -> Seq<char> {
        self.detail@
    }
}

/// An item was refused for the stated reason.
pub fn refused(detail: &str) -> (r: AuthoringError)
    ensures
        r@ == detail@,
{
    AuthoringError { detail: detail.to_owned() }
}

} // verus!
