use libfetch::assets::{find_matching_asset, pattern_is_well_formed};
use libfetch::errors::ErrorKind;

fn names(list: &[&str]) -> Vec<String> {
    list.iter().map(|s| String::from(*s)).collect()
}

#[test]
fn first_matching_asset_wins() {
    let assets = names(&[
        "tool-linux-arm64.tar.gz",
        "tool-win-x64.zip",
        "tool-win-avx2-x64.zip",
    ]);
    let found = find_matching_asset("win-.*x64", &assets).expect("a name matches");
    assert_eq!(found, "tool-win-x64.zip");
}

#[test]
fn no_matching_asset_is_its_own_error() {
    let assets = names(&["tool-linux-arm64.tar.gz"]);
    let e = find_matching_asset("win", &assets).expect_err("nothing matches");
    assert_eq!(e.kind(), ErrorKind::NoMatchingAsset);
    assert_eq!(e.describe(), "no matching asset found");
}

#[test]
fn malformed_pattern_is_a_parse_error() {
    let assets = names(&["anything"]);
    let e = find_matching_asset("*bad(", &assets).expect_err("pattern is malformed");
    assert_eq!(e.kind(), ErrorKind::Parse);
}

#[test]
fn malformed_pattern_fails_even_with_no_assets() {
    let assets: Vec<String> = Vec::new();
    let e = find_matching_asset("*bad(", &assets).expect_err("pattern is malformed");
    assert_eq!(e.kind(), ErrorKind::Parse);
}

#[test]
fn pattern_check_needs_no_assets() {
    assert!(pattern_is_well_formed("win-.*x64").is_ok());
    let e = pattern_is_well_formed("*bad(").expect_err("pattern is malformed");
    assert_eq!(e.kind(), ErrorKind::Parse);
}
