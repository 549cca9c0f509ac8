//! Data types of the address book's sharing service.

use vstd::prelude::*;

verus! {

/// The locales that a recent-activity template was requested in.
#[derive(Clone, Debug, Default)]
pub struct RequestedLocalesType {
    pub string: Vec<String>,
}

} // verus!
