use libfetch::errors::ErrorKind;
use libfetch::plan::{
    check_same_repository, decide_install, decide_upgrade, tag_to_persist, upgrade_allowed,
    InstallDecision, UpgradeDecision,
};
use libfetch::state::VersionInfo;

#[test]
fn fresh_install_when_no_state_exists() {
    assert_eq!(decide_install(false, false), InstallDecision::FreshInstall);
    assert_eq!(decide_install(false, true), InstallDecision::FreshInstall);
}

#[test]
fn second_call_without_upgrade_is_a_no_op() {
    assert_eq!(decide_install(true, false), InstallDecision::AlreadyInstalled);
}

#[test]
fn upgrade_request_consults_the_remote() {
    assert_eq!(decide_install(true, true), InstallDecision::CheckRemote);
}

#[test]
fn upgrade_skipped_when_tags_are_equal() {
    assert_eq!(decide_upgrade("v1.2.3", "v1.2.3"), UpgradeDecision::UpToDate);
}

#[test]
fn upgrade_reinstalls_when_tags_differ() {
    assert_eq!(decide_upgrade("v1.2.3", "v1.3.0"), UpgradeDecision::Reinstall);
}

#[test]
fn foreign_state_fails_the_upgrade_path() {
    let persisted = VersionInfo { tag_name: String::from("v1"), repo: String::from("a/b") };
    let e = check_same_repository(&persisted, "c/d").expect_err("foreign state must fail");
    assert_eq!(e.kind(), ErrorKind::ForeignInstallation);
    assert_eq!(e.describe(), "installed version is for a different repository: a/b");
}

#[test]
fn matching_state_passes_the_guard() {
    let persisted = VersionInfo { tag_name: String::from("v1"), repo: String::from("a/b") };
    assert!(check_same_repository(&persisted, "a/b").is_ok());
}

#[test]
fn explicit_version_is_persisted_verbatim() {
    assert_eq!(tag_to_persist("v3.5.1"), Some(String::from("v3.5.1")));
    assert_eq!(tag_to_persist(""), None);
}

#[test]
fn only_latest_installs_may_upgrade() {
    assert!(upgrade_allowed(true));
    assert!(!upgrade_allowed(false));
}
