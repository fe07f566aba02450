use binstaller::asset::{AssetCandidate, AssetInfo};
use binstaller::rank::{rank, score_all};
use binstaller::select::select;

fn candidates(names: &[&str]) -> Vec<AssetCandidate> {
    names
        .iter()
        .map(|name| AssetCandidate {
            download_url: format!("https://example.com/{}", name),
            file_name: name.to_string(),
            content_type: "application/gzip".to_string(),
        })
        .collect()
}

fn names(assets: &[AssetInfo]) -> Vec<String> {
    assets.iter().map(|asset| asset.file_name().to_string()).collect()
}

#[test]
fn score_all_keeps_order_and_texts() {
    let list = candidates(&["a-darwin", "b-linux", "c-linux-x86_64-musl"]);
    let scored = score_all(&list);
    assert_eq!(names(&scored), vec!["a-darwin", "b-linux", "c-linux-x86_64-musl"]);
    let scores: Vec<u8> = scored.iter().map(|asset| asset.matches()).collect();
    assert_eq!(scores, vec![0, 1, 3]);
    assert_eq!(scored[1].download_url(), "https://example.com/b-linux");
    assert_eq!(scored[1].content_type(), "application/gzip");
    assert!(score_all(&Vec::new()).is_empty());
}

#[test]
fn rank_orders_by_descending_score() {
    let list = candidates(&["a-darwin", "b-linux", "c-linux-x86_64-gnu", "d-linux-x86_64"]);
    let ranked = rank(&score_all(&list));
    assert_eq!(names(&ranked), vec!["c-linux-x86_64-gnu", "d-linux-x86_64", "b-linux"]);
}

#[test]
fn rank_leaves_out_zero_scores() {
    let list = candidates(&["a-darwin", "b-windows", "notes.txt"]);
    assert!(rank(&score_all(&list)).is_empty());
    assert!(rank(&Vec::new()).is_empty());
}

#[test]
fn rank_is_stable_among_equal_scores() {
    let list = candidates(&[
        "a-linux",
        "b-x86_64-gnu",
        "c-musl",
        "d-linux-x86_64",
        "e-darwin",
        "f-gnu",
        "g-linux-musl",
    ]);
    let ranked = rank(&score_all(&list));
    assert_eq!(
        names(&ranked),
        vec!["b-x86_64-gnu", "d-linux-x86_64", "g-linux-musl", "a-linux", "c-musl", "f-gnu"]
    );
}

#[test]
fn select_returns_the_head_of_the_ranking() {
    let lists = [
        candidates(&["a-darwin", "b-linux", "c-linux-x86_64-gnu", "d-linux-x86_64"]),
        candidates(&["a-linux", "b-linux"]),
        candidates(&["a-gnu", "b-linux-x86_64", "c-x86_64-musl"]),
    ];
    for list in lists.iter() {
        let ranked = rank(&score_all(list));
        let chosen = select(list).unwrap();
        assert_eq!(chosen.file_name(), ranked[0].file_name());
        assert_eq!(chosen.download_url(), ranked[0].download_url());
    }
}
