//! The order of preference among scored assets: eligible assets only, those
//! with the higher score first, and equal scores in the order they came in.

use vstd::prelude::*;
use crate::asset::{score_is_at_most_three, scored, AssetCandidate, AssetInfo, AssetView};
use crate::select::{choice, eligible_has_choice, has_eligible, is_choice, score_at};

verus! {

/// The plain values of a list of scored assets.
pub open spec fn views(assets: Seq<AssetInfo>) -> Seq<AssetView> {
    assets.map_values(|a: AssetInfo| a@)
}

/// The candidates of a release, each with its score.
pub open spec fn scored_all(candidates: Seq<AssetCandidate>) -> Seq<AssetView> {
    candidates.map_values(|c: AssetCandidate| scored(c@))
}

/// The test for an asset's score to be `points`.
pub open spec fn has_score(points: nat) -> spec_fn(AssetView) -> bool {
    |a: AssetView| a.matches == points
}

/// The assets that score `points`, in the order they came in.
pub open spec fn with_score(assets: Seq<AssetView>, points: nat) -> Seq<AssetView> {
    assets.filter(has_score(points))
}

/// The assets in order of preference: those that score three, then those
/// that score two, then those that score one. Assets that score zero are
/// left out.
pub open spec fn ranking(assets: Seq<AssetView>) -> Seq<AssetView> {
    with_score(assets, 3) + with_score(assets, 2) + with_score(assets, 1)
}

/// Filtering a list with one more element at its end.
proof fn with_score_push(assets: Seq<AssetView>, asset: AssetView, points: nat)
    ensures
        with_score(assets.push(asset), points) == if asset.matches == points {
            with_score(assets, points).push(asset)
        } else {
            with_score(assets, points)
        },
{
    reveal(Seq::filter);
    assert(assets.push(asset).drop_last() =~= assets);
}

/// Where no asset scores `points`, none is kept.
proof fn with_score_of_none(assets: Seq<AssetView>, points: nat)
    requires
        forall|i: int| 0 <= i < assets.len() ==> assets[i].matches != points,
    ensures
        with_score(assets, points) == Seq::<AssetView>::empty(),
    decreases assets.len(),
{
    reveal(Seq::filter);
    if assets.len() > 0 {
        with_score_of_none(assets.drop_last(), points);
    }
}

/// Where every asset scores `points`, all are kept.
proof fn with_score_of_all(assets: Seq<AssetView>, points: nat)
    requires
        forall|i: int| 0 <= i < assets.len() ==> assets[i].matches == points,
    ensures
        with_score(assets, points) == assets,
    decreases assets.len(),
{
    reveal(Seq::filter);
    if assets.len() > 0 {
        with_score_of_all(assets.drop_last(), points);
        assert(assets.drop_last().push(assets.last()) =~= assets);
    }
}

/// The first asset that scores `points` is the first that is kept.
proof fn with_score_head(assets: Seq<AssetView>, points: nat, i: int)
    requires
        0 <= i < assets.len(),
        assets[i].matches == points,
        forall|j: int| 0 <= j < i ==> assets[j].matches != points,
    ensures
        with_score(assets, points).len() > 0,
        with_score(assets, points)[0] == assets[i],
{
    let before = assets.take(i);
    let from = assets.skip(i);
    let one = seq![assets[i]];
    let after = assets.skip(i + 1);
    assert(assets =~= before + (one + after));
    Seq::filter_distributes_over_add(before, one + after, has_score(points));
    Seq::filter_distributes_over_add(one, after, has_score(points));
    with_score_of_none(before, points);
    with_score_of_all(one, points);
    assert(with_score(assets, points) =~= one + with_score(after, points));
}

/// Scores every candidate, keeping the order.
pub fn score_all(candidates: &Vec<AssetCandidate>) -> (assets: Vec<AssetInfo>)
    ensures
        views(assets@) == scored_all(candidates@),
{
    let n: usize = candidates.len();
    let mut assets: Vec<AssetInfo> = Vec::new();
    let mut at: usize = 0;
    while at < n
        invariant
            n == candidates@.len(),
            at <= n,
            assets@.len() == at,
            forall|i: int| 0 <= i < at ==> assets@[i]@ == scored(candidates@[i]@),
        decreases n - at,
    {
        let c = &candidates[at];
        assets.push(
            AssetInfo::new(c.download_url.clone(), c.file_name.clone(), c.content_type.clone()),
        );
        at += 1;
    }
    proof {
        assert(views(assets@) =~= scored_all(candidates@));
    }
    assets
}

/// Appends to `out` the assets that score `points`, in the order they stand in.
fn gather(assets: &Vec<AssetInfo>, points: u8, out: &mut Vec<AssetInfo>)
    ensures
        views(final(out)@) == views(old(out)@) + with_score(views(assets@), points as nat),
{
    let n: usize = assets.len();
    let mut at: usize = 0;
    proof {
        assert(assets@.take(0) =~= Seq::<AssetInfo>::empty());
        assert(views(assets@.take(0)) =~= Seq::<AssetView>::empty());
        with_score_of_none(views(assets@.take(0)), points as nat);
        assert(views(out@) + Seq::<AssetView>::empty() =~= views(out@));
    }
    while at < n
        invariant
            n == assets@.len(),
            at <= n,
            views(out@) == views(old(out)@) + with_score(
                views(assets@.take(at as int)),
                points as nat,
            ),
        decreases n - at,
    {
        let asset = &assets[at];
        proof {
            let seen = assets@.take(at as int);
            assert(assets@.take(at + 1) =~= seen.push(*asset));
            assert(views(seen.push(*asset)) =~= views(seen).push(asset@));
            with_score_push(views(seen), asset@, points as nat);
        }
        if asset.matches() == points {
            let ghost before = out@;
            out.push(asset.clone());
            proof {
                assert(views(out@) =~= views(before).push(asset@));
                assert(views(out@) =~= views(old(out)@) + with_score(
                    views(assets@.take(at as int)),
                    points as nat,
                ).push(asset@));
            }
        }
        at += 1;
    }
    proof {
        assert(assets@.take(n as int) =~= assets@);
    }
}

/// Puts scored assets in order of preference: assets that score zero are
/// left out, higher scores come first, and assets of equal score keep the
/// order they came in.
pub fn rank(assets: &Vec<AssetInfo>) -> (ranked: Vec<AssetInfo>)
    ensures
        views(ranked@) == ranking(views(assets@)),
{
    let mut ranked: Vec<AssetInfo> = Vec::new();
    proof {
        assert(views(ranked@) =~= Seq::<AssetView>::empty());
    }
    gather(assets, 3, &mut ranked);
    gather(assets, 2, &mut ranked);
    gather(assets, 1, &mut ranked);
    proof {
        assert(views(ranked@) =~= ranking(views(assets@)));
    }
    ranked
}

/// An asset is kept exactly when it is in the list and scores `points`.
proof fn with_score_contains(assets: Seq<AssetView>, points: nat, asset: AssetView)
    ensures
        with_score(assets, points).contains(asset) <==> assets.contains(asset) && asset.matches
            == points,
    decreases assets.len(),
{
    if assets.len() == 0 {
        with_score_of_none(assets, points);
    } else {
        let front = assets.drop_last();
        let last = assets.last();
        assert(front.push(last) =~= assets);
        with_score_push(front, last, points);
        with_score_contains(front, points, asset);
        let kept = with_score(assets, points);
        let kept_front = with_score(front, points);
        if kept.contains(asset) {
            let i = choose|i: int| 0 <= i < kept.len() && kept[i] == asset;
            if last.matches == points && i == kept.len() - 1 {
                assert(assets[assets.len() - 1] == asset);
            } else {
                assert(kept_front[i] == asset);
                let j = choose|j: int| 0 <= j < front.len() && front[j] == asset;
                assert(assets[j] == asset);
            }
        }
        if assets.contains(asset) && asset.matches == points {
            let j = choose|j: int| 0 <= j < assets.len() && assets[j] == asset;
            if j == assets.len() - 1 {
                assert(kept[kept.len() - 1] == asset);
            } else {
                assert(front[j] == asset);
                let i = choose|i: int| 0 <= i < kept_front.len() && kept_front[i] == asset;
                assert(kept[i] == asset);
            }
        }
    }
}

/// Keeping the assets of one score among those kept for another leaves
/// nothing; for the same score it changes nothing.
proof fn with_score_twice(assets: Seq<AssetView>, first: nat, second: nat)
    ensures
        with_score(with_score(assets, first), second) == if first == second {
            with_score(assets, first)
        } else {
            Seq::<AssetView>::empty()
        },
{
    broadcast use vstd::seq_lib::group_filter_ensures;

    let kept = with_score(assets, first);
    assert forall|i: int| 0 <= i < kept.len() implies kept[i].matches == first by {
        assert(has_score(first)(kept[i]));
    }
    if first == second {
        with_score_of_all(kept, first);
    } else {
        with_score_of_none(kept, second);
    }
}

/// Every asset in the ranking scores between one and three.
pub proof fn ranking_scores(assets: Seq<AssetView>, i: int)
    requires
        0 <= i < ranking(assets).len(),
    ensures
        1 <= ranking(assets)[i].matches <= 3,
        i < with_score(assets, 3).len() ==> ranking(assets)[i].matches == 3,
        with_score(assets, 3).len() <= i < with_score(assets, 3).len() + with_score(
            assets,
            2,
        ).len() ==> ranking(assets)[i].matches == 2,
        with_score(assets, 3).len() + with_score(assets, 2).len() <= i ==> ranking(
            assets,
        )[i].matches == 1,
{
    broadcast use vstd::seq_lib::group_filter_ensures;

    let three = with_score(assets, 3);
    let two = with_score(assets, 2);
    let one = with_score(assets, 1);
    if i < three.len() {
        assert(has_score(3)(three[i]));
    } else if i < three.len() + two.len() {
        assert(has_score(2)(two[i - three.len()]));
    } else {
        assert(has_score(1)(one[i - three.len() - two.len()]));
    }
}

/// The ranking descends: no asset stands before one with a higher score.
pub proof fn ranking_descends(assets: Seq<AssetView>, i: int, j: int)
    requires
        0 <= i <= j < ranking(assets).len(),
    ensures
        ranking(assets)[i].matches >= ranking(assets)[j].matches,
{
    ranking_scores(assets, i);
    ranking_scores(assets, j);
}

/// The ranking holds the eligible assets and no others: an asset stands in
/// it exactly when it is in the list and scores between one and three.
pub proof fn ranking_holds_the_eligible(assets: Seq<AssetView>, asset: AssetView)
    ensures
        ranking(assets).contains(asset) <==> assets.contains(asset) && 1 <= asset.matches <= 3,
{
    let three = with_score(assets, 3);
    let two = with_score(assets, 2);
    let one = with_score(assets, 1);
    let all = ranking(assets);
    with_score_contains(assets, 3, asset);
    with_score_contains(assets, 2, asset);
    with_score_contains(assets, 1, asset);
    if all.contains(asset) {
        let i = choose|i: int| 0 <= i < all.len() && all[i] == asset;
        if i < three.len() {
            assert(three[i] == asset);
        } else if i < three.len() + two.len() {
            assert(two[i - three.len()] == asset);
        } else {
            assert(one[i - three.len() - two.len()] == asset);
        }
    }
    if three.contains(asset) {
        let i = choose|i: int| 0 <= i < three.len() && three[i] == asset;
        assert(all[i] == asset);
    }
    if two.contains(asset) {
        let i = choose|i: int| 0 <= i < two.len() && two[i] == asset;
        assert(all[three.len() + i] == asset);
    }
    if one.contains(asset) {
        let i = choose|i: int| 0 <= i < one.len() && one[i] == asset;
        assert(all[three.len() + two.len() + i] == asset);
    }
}

/// The ranking is stable: the assets of each score stand in it in the order
/// they came in.
pub proof fn ranking_is_stable(assets: Seq<AssetView>, points: nat)
    requires
        1 <= points <= 3,
    ensures
        with_score(ranking(assets), points) == with_score(assets, points),
{
    let three = with_score(assets, 3);
    let two = with_score(assets, 2);
    let one = with_score(assets, 1);
    Seq::filter_distributes_over_add(three + two, one, has_score(points));
    Seq::filter_distributes_over_add(three, two, has_score(points));
    with_score_twice(assets, 3, points);
    with_score_twice(assets, 2, points);
    with_score_twice(assets, 1, points);
    assert(with_score(ranking(assets), points) =~= with_score(three, points) + with_score(
        two,
        points,
    ) + with_score(one, points));
}

/// The ranking keeps as many of each asset as the list holds of it among
/// the eligible: nothing is lost and nothing is doubled.
pub proof fn ranking_keeps_counts(assets: Seq<AssetView>)
    requires
        forall|i: int| 0 <= i < assets.len() ==> assets[i].matches <= 3,
    ensures
        ranking(assets).to_multiset() == assets.filter(|a: AssetView| a.matches > 0).to_multiset(),
    decreases assets.len(),
{
    broadcast use vstd::seq_lib::lemma_multiset_commutative;
    broadcast use vstd::seq_lib::to_multiset_build;

    let eligible = |a: AssetView| a.matches > 0;
    reveal(Seq::filter);
    if assets.len() == 0 {
        with_score_of_none(assets, 3);
        with_score_of_none(assets, 2);
        with_score_of_none(assets, 1);
        assert(ranking(assets) =~= assets.filter(eligible));
    } else {
        let front = assets.drop_last();
        let last = assets.last();
        assert(front.push(last) =~= assets);
        ranking_keeps_counts(front);
        with_score_push(front, last, 3);
        with_score_push(front, last, 2);
        with_score_push(front, last, 1);
        let three = with_score(front, 3);
        let two = with_score(front, 2);
        let one = with_score(front, 1);
        assert(ranking(front).to_multiset() =~= three.to_multiset().add(two.to_multiset()).add(
            one.to_multiset(),
        ));
        assert(ranking(assets).to_multiset() =~= with_score(assets, 3).to_multiset().add(
            with_score(assets, 2).to_multiset(),
        ).add(with_score(assets, 1).to_multiset()));
        if last.matches == 0 {
            assert(assets.filter(eligible) == front.filter(eligible));
        } else {
            assert(assets.filter(eligible) == front.filter(eligible).push(last));
            assert(ranking(assets).to_multiset() =~= ranking(front).to_multiset().insert(last));
        }
    }
}

/// The chosen candidate is the head of the ranking: to choose is to rank
/// all candidates and to take the first. Where nothing is chosen the ranking
/// is empty.
pub proof fn choice_heads_ranking(candidates: Seq<AssetCandidate>)
    ensures
        match choice(candidates) {
            Some(i) => ranking(scored_all(candidates)).len() > 0 && ranking(
                scored_all(candidates),
            )[0] == scored(candidates[i]@),
            None => ranking(scored_all(candidates)).len() == 0,
        },
{
    let assets = scored_all(candidates);
    assert forall|j: int| 0 <= j < assets.len() implies (#[trigger] assets[j]).matches
        == score_at(candidates, j) by {}
    if has_eligible(candidates) {
        eligible_has_choice(candidates);
        let i = choice(candidates)->Some_0;
        let top = score_at(candidates, i);
        score_is_at_most_three(candidates[i].file_name@);
        assert forall|j: int| 0 <= j < assets.len() implies (#[trigger] assets[j]).matches
            <= top by {
            assert(score_at(candidates, j) <= top);
        }
        assert forall|j: int| 0 <= j < i implies (#[trigger] assets[j]).matches != top by {
            assert(score_at(candidates, j) < top);
        }
        with_score_head(assets, top, i);
        if top < 3 {
            with_score_of_none(assets, 3);
        }
        if top < 2 {
            with_score_of_none(assets, 2);
        }
    } else {
        assert(choice(candidates) is None) by {
            if choice(candidates) is Some {
                let i = choose|i: int| is_choice(candidates, i);
                assert(0 <= i < candidates.len() && score_at(candidates, i) > 0);
            }
        }
        assert forall|j: int| 0 <= j < assets.len() implies (#[trigger] assets[j]).matches
            == 0 by {
            if score_at(candidates, j) > 0 {
                assert(0 <= j < candidates.len() && score_at(candidates, j) > 0);
            }
        }
        with_score_of_none(assets, 3);
        with_score_of_none(assets, 2);
        with_score_of_none(assets, 1);
    }
}

} // verus!
