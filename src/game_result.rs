use vstd::prelude::*;

use crate::pieces::str_eq;

verus! {

/// The final points of a finished game from the client's side.
#[derive(Clone, Copy, Debug, PartialEq, Eq, Structural)]
pub enum Score {
    DRAW(u8),
    WIN(u8, u8),
    LOSS(u8, u8),
}

/// The result of a finished game.
#[derive(Clone, Copy, Debug, PartialEq, Eq, Structural)]
pub struct GameResult {
    pub score: Score,
}

impl GameResult {
    /// The result for a client with `mine` points against an opponent with `theirs`.
    pub fn from_points(mine: u8, theirs: u8) -> (r: GameResult)
        ensures
            r.score == (if mine > theirs {
                Score::WIN(mine, theirs)
            } else if mine < theirs {
                Score::LOSS(mine, theirs)
            } else {
                Score::DRAW(mine)
            }),
    {
        let score = if mine > theirs {
            Score::WIN(mine, theirs)
        } else if mine < theirs {
            Score::LOSS(mine, theirs)
        } else {
            Score::DRAW(mine)
        };
        GameResult { score }
    }
}

/// Why a game ended, with the reason the server gave.
#[derive(Clone, Copy, Debug)]
pub enum Cause<'a> {
    Regular,
    Left(&'a str),
    RuleViolation(&'a str),
    SoftTimeout(&'a str),
    HardTimeout(&'a str),
}

/// Whether `s` names a cause of the end of a game.
pub open spec fn is_cause_name(s: Seq<char>) -> bool {
    s == "REGULAR"@ || s == "LEFT"@ || s == "RULE_VIOLATION"@ || s == "SOFT_TIMEOUT"@ || s
        == "HARD_TIMEOUT"@
}

impl<'a> Cause<'a> {
    /// The cause named `s` ("REGULAR", "LEFT", "RULE_VIOLATION", "SOFT_TIMEOUT",
    /// "HARD_TIMEOUT"), carrying `reason`.
    pub fn from_str(s: &str, reason: &'a str) -> (r: Result<Self, ()>)
        requires
            is_cause_name(s@),
        ensures
            s@ == "REGULAR"@ ==> r matches Ok(Cause::Regular),
            s@ == "LEFT"@ ==> (r matches Ok(Cause::Left(x)) && x@ == reason@),
            s@ == "RULE_VIOLATION"@ ==> (r matches Ok(Cause::RuleViolation(x)) && x@ == reason@),
            s@ == "SOFT_TIMEOUT"@ ==> (r matches Ok(Cause::SoftTimeout(x)) && x@ == reason@),
            s@ == "HARD_TIMEOUT"@ ==> (r matches Ok(Cause::HardTimeout(x)) && x@ == reason@),
    {
        proof {
            reveal_strlit("REGULAR");
            reveal_strlit("LEFT");
            reveal_strlit("RULE_VIOLATION");
            reveal_strlit("SOFT_TIMEOUT");
            reveal_strlit("HARD_TIMEOUT");
            assert("REGULAR"@.len() == 7 && "LEFT"@.len() == 4 && "RULE_VIOLATION"@.len() == 14);
            assert("SOFT_TIMEOUT"@.len() == 12 && "HARD_TIMEOUT"@.len() == 12);
            assert("SOFT_TIMEOUT"@[0] != "HARD_TIMEOUT"@[0]);
        }
        if str_eq(s, "REGULAR") {
            Ok(Cause::Regular)
        } else if str_eq(s, "LEFT") {
            Ok(Cause::Left(reason))
        } else if str_eq(s, "RULE_VIOLATION") {
            Ok(Cause::RuleViolation(reason))
        } else if str_eq(s, "SOFT_TIMEOUT") {
            Ok(Cause::SoftTimeout(reason))
        } else {
            Ok(Cause::HardTimeout(reason))
        }
    }
}

} // verus!
