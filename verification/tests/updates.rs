use kagerou::updates::{newer_than, GithubRelease};

fn release(tag: &str) -> GithubRelease {
    GithubRelease {
        tag_name: tag.into(),
        html_url: "https://github.com/binido/Kagerou/releases/tag/x".into(),
    }
}

#[test]
fn a_newer_tag_is_offered_with_its_page() {
    let current = "0.3.0";
    let info = newer_than(current, &release("v0.4.0")).unwrap();
    assert_eq!(info.version, "0.4.0");
    assert_eq!(info.url, "https://github.com/binido/Kagerou/releases/tag/x");
    let info = newer_than(current, &release("1.0.0-rc.1")).unwrap();
    assert_eq!(info.version, "1.0.0-rc.1");
}

#[test]
fn the_same_or_an_older_release_is_not_offered() {
    let current = "0.3.0";
    assert_eq!(newer_than(current, &release("v0.3.0")), None);
    assert_eq!(newer_than(current, &release("v0.2.9")), None);
    assert_eq!(newer_than(current, &release("0.3.0-beta.1")), None);
}

#[test]
fn a_tag_that_is_not_a_version_is_ignored() {
    let current = "0.3.0";
    assert_eq!(newer_than(current, &release("nightly")), None);
    assert_eq!(newer_than(current, &release("vv1.0.0")), None);
    assert_eq!(newer_than(current, &release("")), None);
}

#[test]
fn a_running_version_that_does_not_parse_offers_nothing() {
    assert_eq!(newer_than("dev build", &release("v9.0.0")), None);
}

#[test]
fn the_offered_version_is_written_the_way_semver_writes_it() {
    let info = newer_than("0.3.0", &release("v0.4.0+build.7")).unwrap();
    assert_eq!(info.version, "0.4.0+build.7");
}
