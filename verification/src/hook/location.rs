use vstd::prelude::*;

use crate::text::{decimal_string, decimal_text};

verus! {

/// Where a hook was declared: a source file and a 1-based line in it.
#[derive(Debug, PartialEq)]
pub struct HookLocation {
    pub file: String,
    pub line: u32,
}

/// A location with its file name as a sequence of characters.
pub struct HookLocationView {
    pub file: Seq<char>,
    pub line: u32,
}

impl View for HookLocation {
    type V = HookLocationView;

    open spec fn view(&self) -> HookLocationView {
        HookLocationView { file: self.file@, line: self.line }
    }
}

impl Clone for HookLocation {
    fn clone(&self) -> (r: Self)
        ensures
            r@ == self@,
    {
        HookLocation { file: self.file.clone(), line: self.line }
    }
}

impl HookLocation {
    /// The text `file:line`.
    pub open spec fn text(self) -> Seq<char> {
        (self.file@ + seq![':']) + decimal_text(self.line as nat)
    }

    /// The location as `file:line`, the form in which diagnostics quote it.
    pub fn to_string(&self) -> (r: String)
        ensures
            r@ == self.text(),
    {
        let mut r = self.file.clone();
        r.push(':');
        let digits = decimal_string(self.line);
        r.append(digits.as_str());
        r
    }
}

} // verus!
