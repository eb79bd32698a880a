//! Scoreboard records and the rules the score handlers decide by. The
//! record store itself is an external collaborator; these are the checks
//! and thresholds computed on plain values around its calls.

use vstd::prelude::*;

verus! {

/// One scoreboard entry.
#[derive(Debug, Clone, PartialEq)]
pub struct PlayerScore {
    pub player_name: String,
    pub player_score: i32,
}

/// A record is acceptable when the name has three to twenty characters and
/// the score lies in `[0, 1_000_000]`.
pub open spec fn spec_valid_score(s: PlayerScore) -> bool {
    &&& 3 <= s.player_name@.len() <= 20
    &&& 0 <= s.player_score <= 1000000
}

impl PlayerScore {
    pub fn validate(&self) -> (ok: bool)
        ensures
            ok == spec_valid_score(*self),
    {
        let len = self.player_name.as_str().unicode_len();
        3 <= len && len <= 20 && 0 <= self.player_score && self.player_score <= 1000000
    }

    /// The failing fields of a record, named for an error response; `None`
    /// for a valid record.
    pub fn validation_message(&self) -> (r: Option<String>)
        ensures
            r is None <==> spec_valid_score(*self),
            ({
                let name_ok = 3 <= self.player_name@.len() <= 20;
                let score_ok = 0 <= self.player_score <= 1000000;
                &&& (!name_ok && score_ok ==> r is Some && r.unwrap()@
                    == "player_name: length must be in 3..=20"@)
                &&& (name_ok && !score_ok ==> r is Some && r.unwrap()@
                    == "player_score: must be in 0..=1000000"@)
                &&& (!name_ok && !score_ok ==> r is Some && r.unwrap()@
                    == "player_name: length must be in 3..=20"@ + "; "@
                    + "player_score: must be in 0..=1000000"@)
            }),
    {
        let name_len = self.player_name.as_str().unicode_len();
        let name_ok = 3 <= name_len && name_len <= 20;
        let score_ok = 0 <= self.player_score && self.player_score <= 1000000;
        if name_ok && score_ok {
            None
        } else if !name_ok && score_ok {
            Some(String::from_str("player_name: length must be in 3..=20"))
        } else if name_ok {
            Some(String::from_str("player_score: must be in 0..=1000000"))
        } else {
            Some(
                String::from_str("player_name: length must be in 3..=20").concat("; ").concat(
                    "player_score: must be in 0..=1000000",
                ),
            )
        }
    }
}

proof fn lemma_desc_adjacent_implies_all(s: Seq<PlayerScore>, a: int, b: int)
    requires
        forall|k: int|
            0 <= k && k + 1 < s.len() ==> #[trigger] s[k].player_score >= s[k + 1].player_score,
        0 <= a <= b < s.len(),
    ensures
        s[a].player_score >= s[b].player_score,
    decreases b - a,
{
    if a < b {
        lemma_desc_adjacent_implies_all(s, a, b - 1);
    }
}

/// Whether `scores` is ordered best-first, as [`check_if_record_worthy`]
/// asks. The store promises this order; a caller that merely received a
/// board can test it here instead of trusting it.
pub fn is_sorted_descending(scores: &Vec<PlayerScore>) -> (b: bool)
    ensures
        b == spec_sorted_descending(scores@),
{
    let n = scores.len();
    let mut i: usize = 1;
    while i < n
        invariant
            n == scores@.len(),
            i >= 1,
            forall|k: int|
                0 <= k && k + 1 < i ==> #[trigger] scores@[k].player_score >= scores@[k
                    + 1].player_score,
        decreases n - i,
    {
        if scores[i - 1].player_score < scores[i].player_score {
            proof {
                assert(!spec_sorted_descending(scores@)) by {
                    if spec_sorted_descending(scores@) {
                        assert(scores@[i - 1].player_score >= scores@[i as int].player_score);
                    }
                }
            }
            return false;
        }
        i = i + 1;
    }
    proof {
        assert forall|a: int, b: int|
            0 <= a < b < scores@.len() implies scores@[a].player_score
            >= scores@[b].player_score by {
            lemma_desc_adjacent_implies_all(scores@, a, b);
        }
    }
    true
}

/// The scoreboard as handed back by the store: best score first.
pub open spec fn spec_sorted_descending(s: Seq<PlayerScore>) -> bool {
    forall|i: int, j: int| 0 <= i < j < s.len() ==> s[i].player_score >= s[j].player_score
}

/// Only the ten best scores are kept.
pub const SCOREBOARD_CAPACITY: usize = 10;

/// The score a new record must reach: the lowest of the current top ten,
/// or `1` while the board is empty (so a score of zero never enters an
/// empty board).
pub open spec fn spec_worthiness_threshold(s: Seq<PlayerScore>) -> int {
    if s.len() == 0 {
        1
    } else if s.len() <= SCOREBOARD_CAPACITY {
        s[s.len() - 1].player_score as int
    } else {
        s[SCOREBOARD_CAPACITY as int - 1].player_score as int
    }
}

pub fn worthiness_threshold(scores: &Vec<PlayerScore>) -> (t: i32)
    requires
        spec_sorted_descending(scores@),
    ensures
        t == spec_worthiness_threshold(scores@),
{
    let n = scores.len();
    if n == 0 {
        1
    } else if n <= SCOREBOARD_CAPACITY {
        scores[n - 1].player_score
    } else {
        scores[SCOREBOARD_CAPACITY - 1].player_score
    }
}

/// Whether `score` earns a place on the board `scores` (best first): it
/// must reach the worthiness threshold.
pub fn check_if_record_worthy(scores: &Vec<PlayerScore>, score: &PlayerScore) -> (worthy: bool)
    requires
        spec_sorted_descending(scores@),
    ensures
        worthy == (score.player_score >= spec_worthiness_threshold(scores@)),
{
    let threshold = worthiness_threshold(scores);
    score.player_score >= threshold
}

} // verus!
