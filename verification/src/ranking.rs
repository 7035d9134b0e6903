//! Keys of the per-challenge leaderboard store.

use vstd::prelude::*;

use crate::text::{i32_to_string, spec_i64_string};

verus! {

/// One leaderboard: a challenge in one language.
#[derive(Clone, PartialEq, Eq, Debug)]
pub struct ChallengeLeaderboard {
    pub challenge_id: i32,
    pub language: String,
}

/// The store key of a leaderboard: the fixed prefix, the challenge id and
/// the language name, separated by NUL bytes.
pub open spec fn spec_leaderboard_name(challenge_id: int, language: Seq<char>) -> Seq<char> {
    "challenge_scores"@ + seq!['\u{0}'] + spec_i64_string(challenge_id) + seq!['\u{0}'] + language
}

impl ChallengeLeaderboard {
    /// Renders the store key of this leaderboard.
    pub fn get_name(&self) -> (r: String)
        ensures
            r@ == spec_leaderboard_name(self.challenge_id as int, self.language@),
    {
        let mut out = String::new();
        out.append("challenge_scores");
        out.append("\u{0}");
        let id = i32_to_string(self.challenge_id);
        out.append(id.as_str());
        out.append("\u{0}");
        out.append(self.language.as_str());
        proof {
            reveal_strlit("\u{0}");
            assert("\u{0}"@ =~= seq!['\u{0}']);
            assert(out@ =~= spec_leaderboard_name(self.challenge_id as int, self.language@));
        }
        out
    }
}

} // verus!
