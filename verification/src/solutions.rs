//! Solutions: scoring, the decisions behind a submission, and leaderboard
//! windows.

use vstd::prelude::*;

use vstd::string::StringSliceAdditionalSpecFns;

verus! {

/// A submitted solution: just the code.
#[derive(Clone, PartialEq, Eq, Debug)]
pub struct NewSolution {
    pub code: String,
}

/// A stored solution.
#[derive(Clone, PartialEq, Eq, Debug)]
pub struct Solution {
    pub id: i32,
    pub language: String,
    pub version: String,
    pub challenge: i32,
    pub solution: NewSolution,
    pub author: i32,
    pub score: i32,
}

/// The best stored code of one author for one challenge and language.
#[derive(Clone, PartialEq, Eq, Debug)]
pub struct Code {
    pub code: String,
    pub score: i32,
    pub id: i32,
    pub valid: bool,
    /// Seconds since the Unix epoch.
    pub last_improved_date: i64,
}

/// One row of a leaderboard.
#[derive(Clone, PartialEq, Eq, Debug)]
pub struct LeaderboardEntry {
    pub id: i32,
    pub author_id: i32,
    pub author_name: String,
    pub author_avatar: String,
    pub score: i32,
}

/// Which part of a leaderboard a caller wants to see.
#[derive(Clone, Copy, PartialEq, Eq, Structural, Debug)]
pub enum RankingMode {
    Top,
    Me,
}

impl Default for RankingMode {
    /// The top of the board, unless asked otherwise.
    fn default() -> (r: RankingMode)
        ensures
            r == RankingMode::Top,
    {
        RankingMode::Top
    }
}

/// A solution that no longer passes its challenge's current judge.
#[derive(Clone, PartialEq, Eq, Debug)]
pub struct InvalidatedSolution {
    pub language: String,
    pub challenge_id: i32,
    pub challenge_name: String,
}

// ---------------------------------------------------------------------------
// Scoring
// ---------------------------------------------------------------------------

/// The number of carriage-return-line-feed pairs in `b`, counted left to
/// right without overlap.
pub open spec fn spec_crlf_count(b: Seq<u8>) -> nat
    decreases b.len(),
{
    if b.len() < 2 {
        0
    } else if b[0] == ('\r' as u8) && b[1] == ('\n' as u8) {
        1 + spec_crlf_count(b.skip(2))
    } else {
        spec_crlf_count(b.skip(1))
    }
}

pub proof fn lemma_crlf_count_bound(b: Seq<u8>)
    ensures
        spec_crlf_count(b) <= b.len(),
    decreases b.len(),
{
    if b.len() >= 2 {
        if b[0] == ('\r' as u8) && b[1] == ('\n' as u8) {
            lemma_crlf_count_bound(b.skip(2));
        } else {
            lemma_crlf_count_bound(b.skip(1));
        }
    }
}

/// The score of a solution: its length in bytes, with each Windows line
/// break counted as a single character.
pub open spec fn spec_solution_score(b: Seq<u8>) -> nat {
    (b.len() - spec_crlf_count(b)) as nat
}

/// Computes a solution's score from its code.
pub fn solution_score(code: &String) -> (r: usize)
    ensures
        r == spec_solution_score(vstd::utf8::encode_utf8(code@)),
{
    let s = code.as_str();
    let b = s.as_bytes();
    proof {
        assert(s.spec_bytes() == vstd::utf8::encode_utf8(code@));
    }
    let n = b.len();
    let mut count: usize = 0;
    let mut i: usize = 0;
    proof {
        assert(b@.skip(0) =~= b@);
        lemma_crlf_count_bound(b@);
    }
    while i < n
        invariant
            i <= n,
            n == b@.len(),
            count <= i,
            spec_crlf_count(b@) == count + spec_crlf_count(b@.skip(i as int)),
        decreases n - i,
    {
        let ghost rest = b@.skip(i as int);
        proof {
            if rest.len() >= 2 {
                assert(rest[0] == b@[i as int]);
                assert(rest[1] == b@[i as int + 1]);
            }
            assert(rest.skip(1) =~= b@.skip(i as int + 1));
            if i + 2 <= n {
                assert(rest.skip(2) =~= b@.skip(i as int + 2));
            }
            lemma_crlf_count_bound(rest);
        }
        if n - i >= 2 && b[i] == ('\r' as u8) && b[i + 1] == ('\n' as u8) {
            count = count + 1;
            i = i + 2;
        } else {
            i = i + 1;
        }
    }
    proof {
        assert(b@.skip(n as int) =~= Seq::<u8>::empty());
    }
    n - count
}

// ---------------------------------------------------------------------------
// The decisions behind a solution submission
// ---------------------------------------------------------------------------

/// What the service does with one solution submission.
#[derive(Clone, Copy, PartialEq, Eq, Structural, Debug)]
pub enum SolutionPlan {
    /// The run failed: nothing is saved.
    Reject,
    /// First passing solution of this author here: store it.
    Insert,
    /// Overwrite the stored solution; `refresh_date` says whether the
    /// improvement date moves to now.
    Replace { refresh_date: bool },
    /// Passed, but no better than what is stored: keep the stored one.
    Keep,
}

/// Decides one solution submission. A failing run saves nothing. With no
/// stored code the passing solution is inserted. A stored solution is
/// overwritten when it is invalid or its score is no better; the improvement
/// date refreshes when the score strictly improves or the stored code was
/// invalid.
pub fn plan_new_solution(tests_pass: bool, previous: Option<&Code>, new_score: i32) -> (r:
    SolutionPlan)
    ensures
        ({
            match r {
                SolutionPlan::Reject => !tests_pass,
                SolutionPlan::Insert => tests_pass && previous is None,
                SolutionPlan::Replace { refresh_date } => tests_pass && (previous matches Some(w)
                    && (!w.valid || w.score >= new_score) && refresh_date == (new_score < w.score
                    || !w.valid)),
                SolutionPlan::Keep => tests_pass && (previous matches Some(w) && w.valid && w.score
                    < new_score),
            }
        }),
{
    if !tests_pass {
        SolutionPlan::Reject
    } else {
        match previous {
            None => SolutionPlan::Insert,
            Some(w) => {
                if !w.valid || w.score >= new_score {
                    SolutionPlan::Replace { refresh_date: new_score < w.score || !w.valid }
                } else {
                    SolutionPlan::Keep
                }
            },
        }
    }
}

/// The HTTP status the service answers a submission with.
pub fn plan_status(p: &SolutionPlan) -> (r: u16)
    ensures
        ({
            match p {
                SolutionPlan::Reject => r == 400,
                SolutionPlan::Insert => r == 201,
                SolutionPlan::Replace { .. } => r == 201,
                SolutionPlan::Keep => r == 200,
            }
        }),
{
    match p {
        SolutionPlan::Reject => 400,
        SolutionPlan::Insert => 201,
        SolutionPlan::Replace { .. } => 201,
        SolutionPlan::Keep => 200,
    }
}

/// Whether the response flags the author's stored solution as invalidated: a
/// failing run on top of stored code that is already invalid.
pub fn previous_solution_invalid(tests_pass: bool, previous: Option<&Code>) -> (r: bool)
    ensures
        r == (!tests_pass && (previous matches Some(w) && !w.valid)),
{
    match previous {
        Some(w) => !tests_pass && !w.valid,
        None => false,
    }
}

/// What the background revalidation does with one re-judged solution.
#[derive(Clone, Copy, PartialEq, Eq, Structural, Debug)]
pub enum InvalidationAction {
    /// The solution still passes: stamp it as validated now.
    MarkValidated,
    /// The solution no longer passes: mark it invalid.
    Invalidate,
}

/// Decides what happens to a solution whose challenge changed since it was
/// last validated, from the outcome of re-judging it. Either way the outcome
/// is logged.
pub fn invalidation_action(tests_pass: bool) -> (r: InvalidationAction)
    ensures
        r == (if tests_pass {
            InvalidationAction::MarkValidated
        } else {
            InvalidationAction::Invalidate
        }),
{
    if tests_pass {
        InvalidationAction::MarkValidated
    } else {
        InvalidationAction::Invalidate
    }
}

// ---------------------------------------------------------------------------
// Leaderboard windows
// ---------------------------------------------------------------------------

/// The first index of `entries` whose row is the given user's, if any.
pub open spec fn spec_find_position(entries: Seq<LeaderboardEntry>, user_id: Option<i32>) -> Option<
    int,
>
    decreases entries.len(),
{
    if entries.len() == 0 {
        None
    } else if user_id matches Some(u) && entries[0].id == u {
        Some(0)
    } else {
        match spec_find_position(entries.drop_first(), user_id) {
            Some(i) => Some(1 + i),
            None => None,
        }
    }
}

/// Where the viewer's window centres: their first row, or the top of the
/// board when they have none.
pub open spec fn spec_position(entries: Seq<LeaderboardEntry>, user_id: Option<i32>) -> int {
    match spec_find_position(entries, user_id) {
        Some(i) => i,
        None => 0,
    }
}

pub proof fn lemma_position_bound(entries: Seq<LeaderboardEntry>, user_id: Option<i32>)
    ensures
        0 <= spec_position(entries, user_id) <= entries.len(),
        spec_find_position(entries, user_id) matches Some(i) ==> i < entries.len(),
    decreases entries.len(),
{
    if entries.len() > 0 {
        lemma_position_bound(entries.drop_first(), user_id);
    }
}

/// The window bounds around the viewer's entry: up to ten entries starting
/// at most ten before it, pulled back so the window fits the board.
pub open spec fn spec_window_bounds(len: int, index: int) -> (int, int) {
    let start = if index >= 10 {
        index - 10
    } else {
        0
    };
    let end = start + 10;
    if end >= len {
        let diff = if start <= end - len {
            start
        } else {
            end - len
        };
        (start - diff, if end - diff <= len {
            end - diff
        } else {
            len
        })
    } else {
        (start, end)
    }
}


pub proof fn lemma_window_bounds_valid(len: int, index: int)
    requires
        0 <= len,
        0 <= index <= len,
    ensures
        ({
            let (lo, hi) = spec_window_bounds(len, index);
            0 <= lo <= hi <= len
        }),
{
}

/// Cuts the window a viewer sees out of a whole leaderboard: the top ten, or
/// the ten rows around the viewer's own entry.
pub fn leaderboard_window(entries: Vec<LeaderboardEntry>, user_id: Option<i32>, mode: RankingMode)
    -> (r: Vec<LeaderboardEntry>)
    requires
        entries@.len() + 10 <= usize::MAX,
    ensures
        mode == RankingMode::Top ==> r@ == entries@.take(
            if entries@.len() <= 10 {
                entries@.len() as int
            } else {
                10
            },
        ),
        mode == RankingMode::Me ==> r@ == entries@.subrange(
            spec_window_bounds(entries@.len() as int, spec_position(entries@, user_id)).0,
            spec_window_bounds(entries@.len() as int, spec_position(entries@, user_id)).1,
        ),
{
    let ghost ev = entries@;
    match mode {
        RankingMode::Top => {
            let mut entries = entries;
            if entries.len() > 10 {
                entries.truncate(10);
            }
            proof {
                if ev.len() <= 10 {
                    assert(entries@ =~= ev.take(ev.len() as int));
                }
            }
            entries
        },
        RankingMode::Me => {
            let n = entries.len();
            let mut index: usize = 0;
            let mut found = false;
            let mut j: usize = 0;
            proof {
                assert(ev.skip(0) =~= ev);
                match spec_find_position(ev, user_id) {
                    Some(i) => {
                        assert(i + 0 == i);
                    },
                    None => {},
                }
            }
            while j < n
                invariant
                    j <= n,
                    n == ev.len(),
                    ev == entries@,
                    !found ==> index == 0 && spec_find_position(ev, user_id) == (match
                        spec_find_position(ev.skip(j as int), user_id) {
                        Some(i) => Some(i + j as int),
                        None => Option::<int>::None,
                    }),
                    found ==> index < n && spec_find_position(ev, user_id) == Some(index as int),
                decreases n - j,
            {
                if !found {
                    proof {
                        assert(ev.skip(j as int)[0] == ev[j as int]);
                        assert(ev.skip(j as int).drop_first() =~= ev.skip(j as int + 1));
                    }
                    let matched = match user_id {
                        Some(u) => entries[j].id == u,
                        None => false,
                    };
                    if matched {
                        index = j;
                        found = true;
                    }
                }
                j = j + 1;
            }
            proof {
                if !found {
                    assert(ev.skip(n as int) =~= Seq::<LeaderboardEntry>::empty());
                }
                lemma_position_bound(ev, user_id);
                lemma_window_bounds_valid(n as int, spec_position(ev, user_id));
            }
            let start0: usize = if index >= 10 {
                index - 10
            } else {
                0
            };
            let end0: usize = start0 + 10;
            let (start, end): (usize, usize) = if end0 >= n {
                let diff = if start0 <= end0 - n {
                    start0
                } else {
                    end0 - n
                };
                let e2 = end0 - diff;
                (start0 - diff, if e2 <= n {
                    e2
                } else {
                    n
                })
            } else {
                (start0, end0)
            };
            proof {
                assert((start as int, end as int) == spec_window_bounds(
                    n as int,
                    spec_position(ev, user_id),
                ));
            }
            let mut entries = entries;
            let mut r: Vec<LeaderboardEntry> = Vec::new();
            let mut k: usize = 0;
            proof {
                assert(r@ =~= ev.subrange(start as int, start as int));
            }
            while k < end - start
                invariant
                    k <= end - start,
                    start <= end <= ev.len(),
                    entries@.len() == ev.len() - k,
                    forall|m: int|
                        0 <= m < entries@.len() ==> #[trigger] entries@[m] == (if m < start {
                            ev[m]
                        } else {
                            ev[m + k]
                        }),
                    r@ == ev.subrange(start as int, start as int + k as int),
                decreases end - start - k,
            {
                let ghost pr = r@;
                let x = entries.remove(start);
                r.push(x);
                proof {
                    assert(x == ev[start + k]);
                    assert(r@ =~= ev.subrange(start as int, start as int + k as int + 1));
                    assert forall|m: int|
                        0 <= m < entries@.len() implies #[trigger] entries@[m] == (if m < start {
                            ev[m]
                        } else {
                            ev[m + k + 1]
                        }) by {}
                }
                k = k + 1;
            }
            r
        },
    }
}

} // verus!
