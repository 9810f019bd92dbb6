//! Log line layout configuration.
//!
//! The encoder holds the line pattern with its placeholders; the
//! rendering of records against a live logging framework is I/O and
//! lives with the caller.

use vstd::prelude::*;

verus! {

/// The pattern a log line is laid out by.
#[derive(Debug)]
pub struct CustomEncoder {
    pattern: String,
}

impl CustomEncoder {
    /// The configured pattern.
    pub closed spec fn spec_pattern(&self) -> Seq<char> {
        self.pattern@
    }

    /// An encoder for this line pattern.
    pub fn new(pattern: &str) -> (r: Self)
        ensures
            r.spec_pattern() == pattern@,
    {
        CustomEncoder { pattern: pattern.to_owned() }
    }

    /// The line pattern, with its placeholders.
    pub fn pattern(&self) -> (r: &str)
        ensures
            r@ == self.spec_pattern(),
    {
        self.pattern.as_str()
    }
}

} // verus!
