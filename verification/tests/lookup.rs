use binstaller::asset::AssetCandidate;
use binstaller::lookup::{
    first_releases_url, latest_assets, releases_url, remove_all, search_url, LookupError,
};

#[test]
fn search_url_appends_the_term() {
    assert_eq!(search_url("ripgrep"), "https://api.github.com/search/repositories?q=ripgrep");
    assert_eq!(search_url(""), "https://api.github.com/search/repositories?q=");
}

#[test]
fn releases_url_drops_the_placeholder() {
    assert_eq!(
        releases_url("https://api.github.com/repos/owner/tool/releases{/id}"),
        "https://api.github.com/repos/owner/tool/releases"
    );
    assert_eq!(
        releases_url("https://api.github.com/repos/owner/tool/releases"),
        "https://api.github.com/repos/owner/tool/releases"
    );
    assert_eq!(releases_url("{/id}"), "");
    assert_eq!(releases_url(""), "");
    assert_eq!(releases_url("{/id"), "{/id");
}

#[test]
fn remove_all_takes_out_every_occurrence() {
    assert_eq!(remove_all("a{/id}b{/id}c", "{/id}"), "abc");
    assert_eq!(remove_all("{/id}{/id}", "{/id}"), "");
    assert_eq!(remove_all("xabxab", "ab"), "xx");
    assert_eq!(remove_all("abc", ""), "abc");
    assert_eq!(remove_all("ab", "abc"), "ab");
    assert_eq!(remove_all("grüße{/id}", "{/id}"), "grüße");
}

#[test]
fn remove_all_does_not_search_what_is_left() {
    assert_eq!(remove_all("aabb", "ab"), "ab");
    assert_eq!(remove_all("aaa", "aa"), "a");
}

#[test]
fn first_releases_url_takes_the_first_result() {
    let templates = vec![
        "https://api.github.com/repos/a/tool/releases{/id}".to_string(),
        "https://api.github.com/repos/b/tool/releases{/id}".to_string(),
    ];
    assert_eq!(
        first_releases_url(&templates),
        Ok("https://api.github.com/repos/a/tool/releases".to_string())
    );
    assert_eq!(first_releases_url(&Vec::new()), Err(LookupError::NoSearchResult));
}

#[test]
fn latest_assets_takes_the_first_release() {
    let asset = |name: &str| AssetCandidate {
        download_url: format!("https://example.com/{}", name),
        file_name: name.to_string(),
        content_type: "application/zip".to_string(),
    };
    let releases = vec![vec![asset("new-a"), asset("new-b")], vec![asset("old-a")]];
    let latest = latest_assets(&releases).unwrap();
    assert_eq!(latest.len(), 2);
    assert_eq!(latest[0].file_name, "new-a");
    assert_eq!(latest[1].file_name, "new-b");
    let none: Vec<Vec<AssetCandidate>> = Vec::new();
    assert_eq!(latest_assets(&none).err(), Some(LookupError::NoRelease));
    let empty_release: Vec<Vec<AssetCandidate>> = vec![Vec::new()];
    assert!(latest_assets(&empty_release).unwrap().is_empty());
}

#[test]
fn lookup_failures_have_messages() {
    assert_eq!(LookupError::NoSearchResult.message(), "the search found no repository");
    assert_eq!(LookupError::NoRelease.message(), "the repository has published no release");
}
