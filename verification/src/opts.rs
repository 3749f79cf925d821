//! Options of the command line that take a word.
use vstd::prelude::*;
use vstd::string::*;

use crate::text::str_eq;

verus! {

/// When to print in colour.
#[derive(Clone, Copy, PartialEq, Eq, Structural, Debug)]
pub enum ColorAlways {
    Auto,
    Always,
    Never,
}

/// What a word of the `--color` option means, if anything.
pub open spec fn spec_color(s: Seq<char>) -> Option<ColorAlways> {
    if s == "auto"@ {
        Some(ColorAlways::Auto)
    } else if s == "always"@ {
        Some(ColorAlways::Always)
    } else if s == "never"@ {
        Some(ColorAlways::Never)
    } else {
        None
    }
}

impl ColorAlways {
    /// Reads "auto", "always" or "never"; any other word is refused with
    /// "expected auto|always|never".
    pub fn parse(s: &str) -> (r: Result<ColorAlways, &'static str>)
        ensures
            match r {
                Ok(c) => spec_color(s@) == Some(c),
                Err(e) => spec_color(s@) is None && e@ == "expected auto|always|never"@,
            },
    {
        if str_eq(s, "auto") {
            Ok(ColorAlways::Auto)
        } else if str_eq(s, "always") {
            Ok(ColorAlways::Always)
        } else if str_eq(s, "never") {
            Ok(ColorAlways::Never)
        } else {
            Err("expected auto|always|never")
        }
    }
}

impl std::str::FromStr for ColorAlways {
    type Err = &'static str;

    fn from_str(s: &str) -> (r: Result<Self, Self::Err>)
        ensures
            match r {
                Ok(c) => spec_color(s@) == Some(c),
                Err(e) => spec_color(s@) is None && e@ == "expected auto|always|never"@,
            },
    {
        ColorAlways::parse(s)
    }
}

} // verus!
