//! A WinDivert filter expression.
use vstd::prelude::*;

use crate::text::{trim, trim_str};

verus! {

#[derive(Debug, Clone, PartialEq, Eq)]
pub struct WinDivertFilter {
    pub expression: String,
}

impl Default for WinDivertFilter {
    /// The filter that matches everything.
    fn default() -> (r: Self)
        ensures
            r.expression@ == "true"@,
    {
        WinDivertFilter { expression: "true".to_owned() }
    }
}

impl WinDivertFilter {
    /// The trimmed expression; `None` when blank.
    pub fn new(expression: &str) -> (r: Option<Self>)
        ensures
            r is Some == (trim(expression@).len() > 0),
            r matches Some(f) ==> f.expression@ == trim(expression@),
    {
        let trimmed = trim_str(expression);
        if trimmed.as_str().unicode_len() == 0 {
            return None;
        }
        Some(WinDivertFilter { expression: trimmed })
    }

    pub fn expression(&self) -> (r: &str)
        ensures
            r@ == self.expression@,
    {
        self.expression.as_str()
    }

    pub fn is_empty(&self) -> (r: bool)
        ensures
            r == (self.expression@.len() == 0),
    {
        self.expression.as_str().unicode_len() == 0
    }
}

} // verus!
