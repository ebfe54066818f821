use vstd::prelude::*;
use vstd::string::StringExecFns;
use crate::spawn::{decimal, decimal_text};

verus! {

/// The text shown for the current score `n`.
pub open spec fn current_score_text_spec(n: nat) -> Seq<char> {
    "Current score: "@ + decimal(n)
}

/// The text shown for the high score `n`.
pub open spec fn high_score_text_spec(n: nat) -> Seq<char> {
    "High score: "@ + decimal(n)
}

/// The text shown for the current score `n`.
pub fn current_score_text(n: u64) -> (r: String)
    ensures
        r@ == current_score_text_spec(n as nat),
{
    let mut r = String::from_str("Current score: ");
    r.append(decimal_text(n).as_str());
    r
}

/// The text shown for the high score `n`.
pub fn high_score_text(n: u64) -> (r: String)
    ensures
        r@ == high_score_text_spec(n as nat),
{
    let mut r = String::from_str("High score: ");
    r.append(decimal_text(n).as_str());
    r
}

} // verus!
