//! The install/upgrade state machine: what one install call must do, read
//! from the persisted state, the configuration, and (when consulted) the
//! remote latest tag.

use vstd::prelude::*;

use crate::errors::Error;
use crate::state::{VersionInfo, VersionInfoView};
use crate::text::str_eq;

verus! {

/// The first decision of an install call, before any network traffic.
#[derive(Clone, Copy, PartialEq, Eq, Structural, Debug)]
pub enum InstallDecision {
    /// No state record exists: download, extract, then write state.
    FreshInstall,
    /// State exists and upgrading was not requested: succeed with no work.
    AlreadyInstalled,
    /// State exists and upgrading was requested: consult the remote.
    CheckRemote,
}

/// The first decision, from whether a state record exists and whether the
/// caller allows upgrading.
pub open spec fn decide_install_spec(state_file_exists: bool, allow_upgrade: bool) -> InstallDecision {
    if !state_file_exists {
        InstallDecision::FreshInstall
    } else if !allow_upgrade {
        InstallDecision::AlreadyInstalled
    } else {
        InstallDecision::CheckRemote
    }
}

/// Decide between fresh install, no-op and remote check.
pub fn decide_install(state_file_exists: bool, allow_upgrade: bool) -> (r: InstallDecision)
    ensures
        r == decide_install_spec(state_file_exists, allow_upgrade),
{
    if !state_file_exists {
        InstallDecision::FreshInstall
    } else if !allow_upgrade {
        InstallDecision::AlreadyInstalled
    } else {
        InstallDecision::CheckRemote
    }
}

/// The decision on the upgrade path once the remote latest tag is known.
#[derive(Clone, Copy, PartialEq, Eq, Structural, Debug)]
pub enum UpgradeDecision {
    /// The persisted tag equals the remote latest: succeed with no work.
    UpToDate,
    /// Remove the installation and re-install the remote latest.
    Reinstall,
}

/// The upgrade decision: re-install exactly when the tags differ.
pub open spec fn decide_upgrade_spec(persisted_tag: Seq<char>, latest_tag: Seq<char>) -> UpgradeDecision {
    if persisted_tag == latest_tag {
        UpgradeDecision::UpToDate
    } else {
        UpgradeDecision::Reinstall
    }
}

/// Compare the persisted tag with the remote latest tag.
pub fn decide_upgrade(persisted_tag: &str, latest_tag: &str) -> (r: UpgradeDecision)
    ensures
        r == decide_upgrade_spec(persisted_tag@, latest_tag@),
{
    if str_eq(persisted_tag, latest_tag) {
        UpgradeDecision::UpToDate
    } else {
        UpgradeDecision::Reinstall
    }
}

/// Guard on the upgrade path, checked before any network call and before
/// any destructive filesystem work: state persisted by another repository
/// must never be overwritten.
pub fn check_same_repository(persisted: &VersionInfo, configured_repo: &str) -> (r: Result<
    (),
    Error,
>)
    ensures
        r is Ok <==> persisted.repo@ == configured_repo@,
        r is Err ==> r->Err_0 is ForeignInstallation && r->Err_0->ForeignInstallation_0@
            == persisted.repo@,
{
    if str_eq(persisted.repo.as_str(), configured_repo) {
        Ok(())
    } else {
        Err(Error::ForeignInstallation(persisted.repo.clone()))
    }
}

/// Which tag the state record persists after a fresh install: an
/// explicitly requested version verbatim, without validation against the
/// remote; `None` when the request was for the latest release, whose
/// resolved tag must be fetched and persisted instead.
pub fn tag_to_persist(version: &str) -> (r: Option<String>)
    ensures
        match r {
            Option::Some(tag) => version@.len() > 0 && tag@ == version@,
            Option::None => version@.len() == 0,
        },
{
    if version.is_empty() {
        None
    } else {
        Some(version.to_owned())
    }
}

/// Whether an install call may take the upgrade path: only a call that
/// targets the latest release upgrades in place; an explicitly pinned
/// version is installed once and left alone.
pub fn upgrade_allowed(targets_latest: bool) -> (r: bool)
    ensures
        r == targets_latest,
{
    targets_latest
}

/// The observable outcome of one whole install call.
#[derive(Clone, Copy, PartialEq, Eq, Structural, Debug)]
pub enum InstallOutcome {
    /// Download, extract and write state into an empty directory.
    Fresh,
    /// Succeed without any network fetch or filesystem change.
    NoOp,
    /// Fail with a foreign-installation error; nothing is touched.
    Foreign,
    /// Remove the installation, re-download the latest, rewrite state.
    Upgrade,
}

/// The outcome of one install call as a function of the persisted state,
/// the configured repository, the upgrade flag, and the remote latest tag
/// (consulted only on the upgrade path).
pub open spec fn install_outcome_spec(
    persisted: Option<VersionInfoView>,
    configured_repo: Seq<char>,
    allow_upgrade: bool,
    latest_tag: Seq<char>,
) -> InstallOutcome {
    match persisted {
        Option::None => InstallOutcome::Fresh,
        Option::Some(v) => if !allow_upgrade {
            InstallOutcome::NoOp
        } else if v.repo != configured_repo {
            InstallOutcome::Foreign
        } else if v.tag_name == latest_tag {
            InstallOutcome::NoOp
        } else {
            InstallOutcome::Upgrade
        },
    }
}

/// The step decisions compose to the one-shot outcome: what
/// [`decide_install`], [`check_same_repository`] and [`decide_upgrade`]
/// return in sequence is exactly [`install_outcome_spec`].
pub proof fn lemma_decisions_compose(
    persisted: Option<VersionInfoView>,
    configured_repo: Seq<char>,
    allow_upgrade: bool,
    latest_tag: Seq<char>,
)
    ensures
        decide_install_spec(persisted is Some, allow_upgrade) == InstallDecision::FreshInstall
            ==> install_outcome_spec(persisted, configured_repo, allow_upgrade, latest_tag)
            == InstallOutcome::Fresh,
        decide_install_spec(persisted is Some, allow_upgrade) == InstallDecision::AlreadyInstalled
            ==> install_outcome_spec(persisted, configured_repo, allow_upgrade, latest_tag)
            == InstallOutcome::NoOp,
        decide_install_spec(persisted is Some, allow_upgrade) == InstallDecision::CheckRemote ==> {
            let v = persisted->Some_0;
            if v.repo != configured_repo {
                install_outcome_spec(persisted, configured_repo, allow_upgrade, latest_tag)
                    == InstallOutcome::Foreign
            } else if decide_upgrade_spec(v.tag_name, latest_tag) == UpgradeDecision::UpToDate {
                install_outcome_spec(persisted, configured_repo, allow_upgrade, latest_tag)
                    == InstallOutcome::NoOp
            } else {
                install_outcome_spec(persisted, configured_repo, allow_upgrade, latest_tag)
                    == InstallOutcome::Upgrade
            }
        },
{
}

/// Idempotence of installation: with no state the call is a fresh install,
/// and once state exists a call without the upgrade flag succeeds as a
/// no-op whatever the remote holds — in particular it needs no fetch, since
/// the outcome does not depend on the remote tag.
pub proof fn lemma_install_idempotence(
    v: VersionInfoView,
    configured_repo: Seq<char>,
    allow_upgrade: bool,
    latest_tag: Seq<char>,
    other_latest_tag: Seq<char>,
)
    ensures
        install_outcome_spec(Option::None, configured_repo, allow_upgrade, latest_tag)
            == InstallOutcome::Fresh,
        install_outcome_spec(Option::Some(v), configured_repo, false, latest_tag)
            == InstallOutcome::NoOp,
        install_outcome_spec(Option::Some(v), configured_repo, false, latest_tag)
            == install_outcome_spec(Option::Some(v), configured_repo, false, other_latest_tag),
{
}

/// Upgrade skip: when the persisted tag equals the remote latest tag, the
/// upgrade path succeeds without any download, extraction or state change.
pub proof fn lemma_upgrade_skip(
    v: VersionInfoView,
    configured_repo: Seq<char>,
    latest_tag: Seq<char>,
)
    requires
        v.repo == configured_repo,
        v.tag_name == latest_tag,
    ensures
        install_outcome_spec(Option::Some(v), configured_repo, true, latest_tag)
            == InstallOutcome::NoOp,
{
}

/// Foreign-repository guard: state persisted by another repository makes
/// any upgrade-path call fail, never upgrade — so nothing destructive
/// happens — and the outcome does not depend on the remote tag, so no
/// fetch is needed to reach the failure.
pub proof fn lemma_foreign_repo_guard(
    v: VersionInfoView,
    configured_repo: Seq<char>,
    latest_tag: Seq<char>,
    other_latest_tag: Seq<char>,
)
    requires
        v.repo != configured_repo,
    ensures
        install_outcome_spec(Option::Some(v), configured_repo, true, latest_tag)
            == InstallOutcome::Foreign,
        install_outcome_spec(Option::Some(v), configured_repo, true, latest_tag)
            != InstallOutcome::Upgrade,
        install_outcome_spec(Option::Some(v), configured_repo, true, latest_tag)
            == install_outcome_spec(Option::Some(v), configured_repo, true, other_latest_tag),
{
}

} // verus!
