use vstd::prelude::*;

use crate::score::parse_output_score;
use crate::score::score_parse_output;

verus! {

/// The candidate rotation angles, in the order they are evaluated: every
/// quarter-turn multiple from 0 up to and including 270 degrees, ascending.
pub open spec fn candidate_angles() -> Seq<u32> {
    seq![0u32, 90u32, 180u32, 270u32]
}

/// The candidate angle sequence as a vector, ascending from 0.
pub fn candidate_angle_list() -> (r: Vec<u32>)
    ensures
        r@ == candidate_angles(),
{
    let mut r: Vec<u32> = Vec::new();
    r.push(0);
    r.push(90);
    r.push(180);
    r.push(270);
    proof {
        assert(r@ =~= candidate_angles());
    }
    r
}

/// The per-candidate scores of the given tokenizer outputs.
pub open spec fn scores_of(texts: Seq<Seq<char>>) -> Seq<nat> {
    texts.map_values(|t: Seq<char>| parse_output_score(t))
}

/// The running best candidate: the best score seen so far and its angle.
/// Before any candidate is seen it holds the default of score 0 at angle 0.
pub struct SelectionState {
    pub best_angle: u32,
    pub best_score: usize,
}

impl SelectionState {
    /// The state after seeing one more candidate: the candidate takes over
    /// only when its score is strictly greater than the best so far, so the
    /// first-seen candidate keeps every tie.
    pub open spec fn observed(self, angle: u32, score: usize) -> SelectionState {
        if score > self.best_score {
            SelectionState { best_angle: angle, best_score: score }
        } else {
            self
        }
    }

    /// The "no winner yet" state.
    pub fn start() -> (r: SelectionState)
        ensures
            r.best_angle == 0,
            r.best_score == 0,
    {
        SelectionState { best_angle: 0, best_score: 0 }
    }

    /// Feeds one candidate to the running best, applying the
    /// strict-greater-than rule.
    pub fn observe(&mut self, angle: u32, score: usize)
        ensures
            *final(self) == old(self).observed(angle, score),
    {
        if score > self.best_score {
            self.best_angle = angle;
            self.best_score = score;
        }
    }
}

/// The best (angle, score) pair after the first `n` candidates, folded in
/// ascending angle order from the default of score 0 at angle 0 with the
/// strict-greater-than rule.
pub open spec fn best_after(scores: Seq<nat>, n: int) -> (u32, nat)
    decreases n,
{
    if n <= 0 {
        (0u32, 0nat)
    } else {
        let prev = best_after(scores, n - 1);
        if scores[n - 1] > prev.1 {
            (candidate_angles()[n - 1], scores[n - 1])
        } else {
            prev
        }
    }
}

/// One evaluated candidate: its angle, the tokenizer output that was scored
/// for it, and its score.
pub struct Candidate {
    pub angle: u32,
    pub analysis: Vec<char>,
    pub score: usize,
}

/// What a full selection run reports: the winning angle, its score, and
/// every candidate that was evaluated.
pub struct SelectionOutcome {
    pub winning_angle: u32,
    pub winning_score: usize,
    pub candidates: Vec<Candidate>,
}

fn clone_chars(v: &Vec<char>) -> (r: Vec<char>)
    ensures
        r@ == v@,
{
    let mut r: Vec<char> = Vec::new();
    let mut i: usize = 0;
    while i < v.len()
        invariant
            i <= v@.len(),
            r@ =~= v@.subrange(0, i as int),
        decreases v@.len() - i,
    {
        r.push(v[i]);
        proof {
            assert(r@ =~= v@.subrange(0, i + 1));
        }
        i = i + 1;
    }
    proof {
        assert(r@ =~= v@);
    }
    r
}

/// Picks the upright orientation. `analyses` holds the tokenizer output for
/// the text recognized at each candidate angle, in ascending angle order:
/// the caller rotates the source image to each candidate angle, recognizes
/// text on it, runs the morphological analyzer, and hands the four outputs
/// over. Every candidate is scored; the best score wins, with ties kept by
/// the first angle seen, so an all-zero field reports angle 0.
pub fn select_orientation(analyses: &Vec<Vec<char>>) -> (r: SelectionOutcome)
    requires
        analyses@.len() == 4,
    ensures
        r.winning_angle == best_after(scores_of(analyses@.map_values(|t: Vec<char>| t@)), 4).0,
        r.winning_score == best_after(scores_of(analyses@.map_values(|t: Vec<char>| t@)), 4).1,
        r.candidates@.len() == 4,
        forall|i: int| 0 <= i < 4 ==> {
            &&& (#[trigger] r.candidates@[i]).angle == candidate_angles()[i]
            &&& r.candidates@[i].analysis@ == analyses@[i]@
            &&& r.candidates@[i].score == scores_of(analyses@.map_values(|t: Vec<char>| t@))[i]
        },
{
    let ghost scores = scores_of(analyses@.map_values(|t: Vec<char>| t@));
    let angles = candidate_angle_list();
    let mut state = SelectionState::start();
    let mut candidates: Vec<Candidate> = Vec::new();
    let mut i: usize = 0;
    while i < 4
        invariant
            i <= 4,
            analyses@.len() == 4,
            angles@ == candidate_angles(),
            scores == scores_of(analyses@.map_values(|t: Vec<char>| t@)),
            state.best_angle == best_after(scores, i as int).0,
            state.best_score == best_after(scores, i as int).1,
            candidates@.len() == i,
            forall|j: int| 0 <= j < i ==> {
                &&& (#[trigger] candidates@[j]).angle == candidate_angles()[j]
                &&& candidates@[j].analysis@ == analyses@[j]@
                &&& candidates@[j].score == scores[j]
            },
        decreases 4 - i,
    {
        let score = score_parse_output(&analyses[i]);
        proof {
            assert(analyses@.map_values(|t: Vec<char>| t@)[i as int] == analyses@[i as int]@);
            assert(scores[i as int] == parse_output_score(analyses@[i as int]@));
        }
        state.observe(angles[i], score);
        let text = clone_chars(&analyses[i]);
        candidates.push(Candidate { angle: angles[i], analysis: text, score });
        i = i + 1;
    }
    SelectionOutcome {
        winning_angle: state.best_angle,
        winning_score: state.best_score,
        candidates,
    }
}

/// Selection is deterministic: two independent runs over the same
/// per-candidate tokenizer outputs see the same scores and report the same
/// winning angle and winning score. The outcome of `select_orientation` is a
/// function of its input alone.
pub proof fn lemma_selection_deterministic(first: Seq<Seq<char>>, second: Seq<Seq<char>>)
    requires
        first == second,
    ensures
        scores_of(first) == scores_of(second),
        best_after(scores_of(first), 4) == best_after(scores_of(second), 4),
{
}

/// The winning angle is always a member of the candidate set: never an
/// interpolated or out-of-set value.
pub proof fn lemma_winner_is_a_candidate(scores: Seq<nat>, n: int)
    requires
        0 <= n <= 4,
    ensures
        candidate_angles().contains(best_after(scores, n).0),
    decreases n,
{
    if n <= 0 {
        assert(candidate_angles()[0] == 0u32);
    } else {
        lemma_winner_is_a_candidate(scores, n - 1);
        assert(candidate_angles().contains(candidate_angles()[n - 1]));
    }
}

/// If every candidate scores 0, no candidate ever beats the default, and the
/// reported winner is angle 0 with score 0.
pub proof fn lemma_all_zero_selects_zero(scores: Seq<nat>, n: int)
    requires
        0 <= n <= scores.len(),
        forall|i: int| 0 <= i < scores.len() ==> scores[i] == 0,
    ensures
        best_after(scores, n) == (0u32, 0nat),
    decreases n,
{
    if n > 0 {
        lemma_all_zero_selects_zero(scores, n - 1);
    }
}

/// First-seen wins all ties: when the candidate at angle 0 scores at least
/// as much as every other candidate, angle 0 is the winner, with the score
/// recorded for it. In particular a tie with a later candidate is kept by
/// angle 0, which is evaluated first.
pub proof fn lemma_first_seen_wins_ties(scores: Seq<nat>, n: int)
    requires
        scores.len() == 4,
        1 <= n <= 4,
        forall|i: int| 0 <= i < 4 ==> scores[0] >= #[trigger] scores[i],
    ensures
        best_after(scores, n).0 == 0u32,
        best_after(scores, n).1 == scores[0],
    decreases n,
{
    if n == 1 {
        assert(best_after(scores, 0) == (0u32, 0nat));
        assert(candidate_angles()[0] == 0u32);
        if scores[0] > 0 {
            assert(best_after(scores, 1) == (candidate_angles()[0], scores[0]));
        } else {
            assert(scores[0] == 0);
            assert(best_after(scores, 1) == (0u32, 0nat));
        }
    } else {
        lemma_first_seen_wins_ties(scores, n - 1);
        assert(scores[0] >= scores[n - 1]);
        assert(best_after(scores, n) == best_after(scores, n - 1));
    }
}

/// Candidate `i` is the one the selection rule must pick among the first
/// `n`: no candidate beats its score, and every earlier candidate scores
/// strictly less, so `i` is the first to attain the maximum.
pub open spec fn is_first_best(scores: Seq<nat>, n: int, i: int) -> bool {
    &&& 0 <= i < n
    &&& forall|j: int| 0 <= j < n ==> #[trigger] scores[j] <= scores[i]
    &&& forall|j: int| 0 <= j < i ==> #[trigger] scores[j] < scores[i]
}

/// The selection rule in full: no candidate scores above the reported
/// winning score; when the winning score is positive, the winning angle
/// belongs to the earliest candidate attaining it; and when it is zero, the
/// reported angle is the default 0.
pub proof fn lemma_earliest_best_wins(scores: Seq<nat>, n: int)
    requires
        0 <= n <= scores.len() <= 4,
    ensures
        forall|i: int| 0 <= i < n ==> #[trigger] scores[i] <= best_after(scores, n).1,
        best_after(scores, n).1 > 0 ==> exists|i: int|
            #[trigger] is_first_best(scores, n, i) && scores[i] == best_after(scores, n).1
                && candidate_angles()[i] == best_after(scores, n).0,
        best_after(scores, n).1 == 0 ==> best_after(scores, n).0 == 0u32,
    decreases n,
{
    if n > 0 {
        lemma_earliest_best_wins(scores, n - 1);
        let prev = best_after(scores, n - 1);
        let cur = best_after(scores, n);
        if scores[n - 1] > prev.1 {
            assert(cur == (candidate_angles()[n - 1], scores[n - 1]));
            assert forall|j: int| 0 <= j < n implies #[trigger] scores[j] <= scores[n - 1] by {
                if j < n - 1 {
                    assert(scores[j] <= prev.1);
                }
            }
            assert forall|j: int| 0 <= j < n - 1 implies #[trigger] scores[j] < scores[n - 1] by {
                assert(scores[j] <= prev.1);
            }
            assert(is_first_best(scores, n, n - 1));
        } else {
            assert(cur == prev);
            if prev.1 > 0 {
                let i = choose|i: int|
                    #[trigger] is_first_best(scores, n - 1, i) && scores[i] == prev.1
                        && candidate_angles()[i] == prev.0;
                assert forall|j: int| 0 <= j < n implies #[trigger] scores[j] <= scores[i] by {
                    if j < n - 1 {
                        assert(scores[j] <= scores[i]);
                    } else {
                        assert(scores[n - 1] <= prev.1);
                    }
                }
                assert(is_first_best(scores, n, i));
            }
        }
    }
}

/// The rotation code for leaving the image as it is.
pub const NO_ROTATE: i32 = -1;

/// The rotation code for a quarter turn clockwise, as the geometric library
/// numbers its quarter-turn transforms.
pub const CODE_ROTATE_90_CLOCKWISE: i32 = 0;

/// The rotation code for a half turn.
pub const CODE_ROTATE_180: i32 = 1;

/// The rotation code for a quarter turn counter-clockwise.
pub const CODE_ROTATE_90_COUNTERCLOCKWISE: i32 = 2;

/// The angle, in degrees clockwise, that a rotation code stands for.
pub fn rotate_code_to_angle_int(code: i32) -> (r: i32)
    requires
        code == NO_ROTATE || code == CODE_ROTATE_90_CLOCKWISE || code == CODE_ROTATE_180
            || code == CODE_ROTATE_90_COUNTERCLOCKWISE,
    ensures
        code == NO_ROTATE ==> r == 0,
        code == CODE_ROTATE_90_CLOCKWISE ==> r == 90,
        code == CODE_ROTATE_180 ==> r == 180,
        code == CODE_ROTATE_90_COUNTERCLOCKWISE ==> r == 270,
{
    if code == NO_ROTATE {
        0
    } else if code == CODE_ROTATE_90_CLOCKWISE {
        90
    } else if code == CODE_ROTATE_180 {
        180
    } else {
        270
    }
}

} // verus!
