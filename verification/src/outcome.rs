//! The two-valued result that both password checks hand out.

use vstd::prelude::*;

verus! {

/// Whether a text pleased the rules or not.
#[derive(Clone, Copy, Debug, PartialEq, Eq, Structural)]
pub enum Outcome {
    Nice,
    Naughty,
}

impl Outcome {
    /// The status signal that accompanies a bare outcome: 200 for nice, 400 for naughty.
    pub open spec fn spec_status(self) -> u16 {
        match self {
            Outcome::Nice => 200,
            Outcome::Naughty => 400,
        }
    }

    /// The word by which the outcome is reported: `nice` or `naughty`.
    pub open spec fn spec_label(self) -> Seq<char> {
        match self {
            Outcome::Nice => "nice"@,
            Outcome::Naughty => "naughty"@,
        }
    }

    /// Returns the word by which the outcome is reported.
    pub fn label(self) -> (word: String)
        ensures
            word@ == self.spec_label(),
    {
        match self {
            Outcome::Nice => "nice".to_string(),
            Outcome::Naughty => "naughty".to_string(),
        }
    }

    /// Returns the status signal that accompanies this outcome.
    pub fn status(self) -> (code: u16)
        ensures
            code == self.spec_status(),
    {
        match self {
            Outcome::Nice => 200,
            Outcome::Naughty => 400,
        }
    }
}

} // verus!
