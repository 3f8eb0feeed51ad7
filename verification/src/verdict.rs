//! Verdict codes for a test case and for the whole submission, and the
//! mapping from the isolation tool's raw status token to a verdict.

use vstd::prelude::*;

verus! {

/// The outcome of judging one test case or a whole submission.
#[derive(Clone, Copy, Debug, PartialEq, Eq, Structural)]
pub enum Verdict {
    /// Accepted.
    Ac,
    /// Wrong answer.
    Wa,
    /// Time limit exceeded.
    Tle,
    /// Memory limit exceeded.
    Mle,
    /// Runtime error.
    Re,
    /// Compile error.
    Ce,
    /// System error.
    Se,
    /// Waiting for judge: the initial state, before any worker finished the case.
    Wj,
}

impl Verdict {
    /// The wire code of this verdict, as written into verdict files and events.
    pub open spec fn spec_code(self) -> Seq<char> {
        match self {
            Verdict::Ac => "AC"@,
            Verdict::Wa => "WA"@,
            Verdict::Tle => "TLE"@,
            Verdict::Mle => "MLE"@,
            Verdict::Re => "RE"@,
            Verdict::Ce => "CE"@,
            Verdict::Se => "SE"@,
            Verdict::Wj => "WJ"@,
        }
    }

    /// The wire code of this verdict as a string.
    pub fn code(self) -> (r: String)
        ensures
            r@ == self.spec_code(),
    {
        match self {
            Verdict::Ac => String::from_str("AC"),
            Verdict::Wa => String::from_str("WA"),
            Verdict::Tle => String::from_str("TLE"),
            Verdict::Mle => String::from_str("MLE"),
            Verdict::Re => String::from_str("RE"),
            Verdict::Ce => String::from_str("CE"),
            Verdict::Se => String::from_str("SE"),
            Verdict::Wj => String::from_str("WJ"),
        }
    }
}

/// What a raw, non-empty `status` token from the isolation tool's meta report
/// maps to: `RE` stays a runtime error, `SG` (killed by signal, in practice
/// the memory cap) becomes `MLE`, `TO` becomes `TLE`, and any other token is
/// a system error.
pub open spec fn spec_map_status(raw: Seq<char>) -> Verdict {
    if raw == "RE"@ {
        Verdict::Re
    } else if raw == "SG"@ {
        Verdict::Mle
    } else if raw == "TO"@ {
        Verdict::Tle
    } else {
        Verdict::Se
    }
}

} // verus!
