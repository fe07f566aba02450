//! Choice of the asset to install among the candidates of a release.

use vstd::prelude::*;
use crate::asset::{score, score_of, scored, AssetCandidate, AssetInfo};

verus! {

/// Why no asset was chosen.
#[derive(Clone, Copy, PartialEq, Eq, Structural, Debug)]
pub enum SelectError {
    /// No candidate matched any platform signal.
    NoEligibleAsset,
}

/// The score of the candidate at position `i`.
pub open spec fn score_at(candidates: Seq<AssetCandidate>, i: int) -> nat {
    score_of(candidates[i].file_name@)
}

/// Some candidate has a score above zero.
pub open spec fn has_eligible(candidates: Seq<AssetCandidate>) -> bool {
    exists|i: int| 0 <= i < candidates.len() && score_at(candidates, i) > 0
}

/// The candidate at `i` is the one to choose: it is eligible, none scores
/// higher, and every candidate before it scores lower.
pub open spec fn is_choice(candidates: Seq<AssetCandidate>, i: int) -> bool {
    &&& 0 <= i < candidates.len()
    &&& score_at(candidates, i) > 0
    &&& forall|j: int| 0 <= j < candidates.len() ==> score_at(candidates, j) <= score_at(candidates, i)
    &&& forall|j: int| 0 <= j < i ==> score_at(candidates, j) < score_at(candidates, i)
}

/// The position of the candidate to choose, if any is eligible.
pub open spec fn choice(candidates: Seq<AssetCandidate>) -> Option<int> {
    if exists|i: int| is_choice(candidates, i) {
        Some(choose|i: int| is_choice(candidates, i))
    } else {
        None
    }
}

/// At most one position is the choice: ties at the highest score go to the
/// earliest candidate, so the same list always gives the same choice.
pub proof fn choice_is_unique(candidates: Seq<AssetCandidate>, i: int, j: int)
    requires
        is_choice(candidates, i),
        is_choice(candidates, j),
    ensures
        i == j,
{
    if i < j {
        assert(score_at(candidates, i) < score_at(candidates, j));
        assert(score_at(candidates, j) <= score_at(candidates, i));
    } else if j < i {
        assert(score_at(candidates, j) < score_at(candidates, i));
        assert(score_at(candidates, i) <= score_at(candidates, j));
    }
}

/// Whenever a position is the choice, `choice` names that position.
pub proof fn choice_names_it(candidates: Seq<AssetCandidate>, i: int)
    requires
        is_choice(candidates, i),
    ensures
        choice(candidates) == Some(i),
{
    let picked = choose|k: int| is_choice(candidates, k);
    choice_is_unique(candidates, i, picked);
}

/// Without an eligible candidate there is no choice; an empty list has none.
pub proof fn no_choice_without_eligible(candidates: Seq<AssetCandidate>)
    requires
        !has_eligible(candidates),
    ensures
        choice(candidates) is None,
{
    if exists|i: int| is_choice(candidates, i) {
        let i = choose|i: int| is_choice(candidates, i);
        assert(0 <= i < candidates.len() && score_at(candidates, i) > 0);
    }
}

/// Among the first `n` candidates, the position of the first with the highest score.
proof fn first_best(candidates: Seq<AssetCandidate>, n: int) -> (best: int)
    requires
        0 < n <= candidates.len(),
    ensures
        0 <= best < n,
        forall|j: int| 0 <= j < n ==> score_at(candidates, j) <= score_at(candidates, best),
        forall|j: int| 0 <= j < best ==> score_at(candidates, j) < score_at(candidates, best),
    decreases n,
{
    if n == 1 {
        0
    } else {
        let earlier = first_best(candidates, n - 1);
        if score_at(candidates, n - 1) > score_at(candidates, earlier) {
            n - 1
        } else {
            earlier
        }
    }
}

/// Whenever some candidate is eligible, one is chosen.
pub proof fn eligible_has_choice(candidates: Seq<AssetCandidate>)
    requires
        has_eligible(candidates),
    ensures
        choice(candidates) is Some,
        is_choice(candidates, choice(candidates)->Some_0),
{
    let some = choose|i: int| 0 <= i < candidates.len() && score_at(candidates, i) > 0;
    let best = first_best(candidates, candidates.len() as int);
    assert(score_at(candidates, some) <= score_at(candidates, best));
    assert(is_choice(candidates, best));
    choice_names_it(candidates, best);
}

/// The position of the first candidate with the highest score, if that score
/// is above zero.
pub fn select_index(candidates: &Vec<AssetCandidate>) -> (found: Option<usize>)
    ensures
        match found {
            Some(i) => choice(candidates@) == Some(i as int),
            None => choice(candidates@) is None,
        },
        found is Some <==> has_eligible(candidates@),
{
    let n: usize = candidates.len();
    let mut best: usize = 0;
    let mut best_score: u8 = 0;
    let mut at: usize = 0;
    while at < n
        invariant
            n == candidates@.len(),
            at <= n,
            best_score == 0 ==> forall|j: int| 0 <= j < at ==> score_at(candidates@, j) == 0,
            best_score > 0 ==> best < at && best_score == score_at(candidates@, best as int),
            forall|j: int| 0 <= j < at ==> score_at(candidates@, j) <= best_score,
            forall|j: int| 0 <= j < best ==> score_at(candidates@, j) < best_score,
            best_score == 0 ==> best == 0,
        decreases n - at,
    {
        let points: u8 = score(candidates[at].file_name.as_str());
        if points > best_score {
            best = at;
            best_score = points;
        }
        at += 1;
    }
    if best_score > 0 {
        proof {
            assert(is_choice(candidates@, best as int));
            choice_names_it(candidates@, best as int);
        }
        Some(best)
    } else {
        proof {
            assert(!has_eligible(candidates@));
            no_choice_without_eligible(candidates@);
        }
        None
    }
}

/// Chooses the asset to install: the first candidate with the highest score.
/// Candidates that match no platform signal are never chosen.
pub fn select(candidates: &Vec<AssetCandidate>) -> (chosen: Result<AssetInfo, SelectError>)
    ensures
        match choice(candidates@) {
            Some(i) => chosen is Ok && chosen->Ok_0.wf() && chosen->Ok_0@ == scored(candidates@[i]@),
            None => chosen == Err::<AssetInfo, SelectError>(SelectError::NoEligibleAsset),
        },
        chosen is Ok <==> has_eligible(candidates@),
{
    match select_index(candidates) {
        Some(i) => {
            let c = &candidates[i];
            let info = AssetInfo::new(
                c.download_url.clone(),
                c.file_name.clone(),
                c.content_type.clone(),
            );
            Ok(info)
        },
        None => Err(SelectError::NoEligibleAsset),
    }
}

} // verus!
