use dockerfile_updater::{find_candidate_tag, sort_dedup, Strategy, Tag};

fn tags(list: &[&str]) -> Vec<Tag> {
    list.iter().map(|s| s.parse().unwrap()).collect()
}

fn pick(current: &str, list: &[&str], s: Strategy) -> Option<String> {
    let cur: Tag = current.parse().unwrap();
    find_candidate_tag(&cur, &tags(list), &s).map(|t| t.to_string())
}

#[test]
fn select_latest_patch_in_same_variant() {
    assert_eq!(
        pick(
            "1.29.3-alpine3.22-slim",
            &["1.29.3-alpine3.22-slim", "1.29.4-alpine3.22-slim", "1.29.3-alpine3.23-slim"],
            Strategy::Latest
        ),
        Some("1.29.4-alpine3.22-slim".to_owned())
    );
}

#[test]
fn select_latest_major() {
    assert_eq!(
        pick("8.0-alpine", &["9.0-alpine", "10.0-alpine", "8.1-alpine"], Strategy::LatestMajor),
        None
    );
    assert_eq!(
        pick("8.0.0-alpine", &["9.0.0-alpine", "10.0.0-alpine", "8.1.0-alpine"], Strategy::LatestMajor),
        Some("10.0.0-alpine".to_owned())
    );
}

#[test]
fn select_variant_bump() {
    assert_eq!(
        pick("1.5.1-11_base", &["1.5.1-14_base", "1.5.1-10_base", "1.6.0-11_base"], Strategy::Latest),
        Some("1.6.0-11_base".to_owned())
    );
    assert_eq!(
        pick("1.5.1-11_base", &["1.5.1-14_base", "1.5.1-10_base", "1.6.0-11_base"], Strategy::LatestPatch),
        Some("1.5.1-14_base".to_owned())
    );
}

#[test]
fn select_next_patch_takes_the_first() {
    assert_eq!(
        pick("9.0.1-debian-12-r8", &["9.0.1-debian-12-r9", "9.0.1-debian-13-r8"], Strategy::NextPatch),
        Some("9.0.1-debian-12-r9".to_owned())
    );
    assert_eq!(
        pick("9.0.1-debian-12-r8", &["9.0.1-debian-12-r9", "9.0.1-debian-13-r8"], Strategy::LatestPatch),
        Some("9.0.1-debian-13-r8".to_owned())
    );
}

#[test]
fn select_minor_strategies() {
    let list = ["2.6.0", "2.7.3", "2.5.9", "3.0.0"];
    assert_eq!(pick("2.5.0", &list, Strategy::NextMinor), Some("2.6.0".to_owned()));
    assert_eq!(pick("2.5.0", &list, Strategy::LatestMinor), Some("2.7.3".to_owned()));
    assert_eq!(pick("2.5.0", &list, Strategy::NextMajor), Some("3.0.0".to_owned()));
    assert_eq!(pick("2.5.0", &[], Strategy::Latest), None);
}

#[test]
fn sort_dedup_orders_and_merges() {
    let out = sort_dedup(tags(&["2.0.0", "1.0.0", "2.0.0", "latest", "1.0.0-alpine"]));
    let names: Vec<String> = out.iter().map(|t| t.to_string()).collect();
    assert_eq!(names, vec!["1.0.0", "1.0.0-alpine", "2.0.0", "latest"]);
}

#[test]
fn strategy_default_and_names() {
    assert_eq!(Strategy::default(), Strategy::Latest);
    assert_eq!(Strategy::NextPatch.name(), "next-patch");
}
