use binary_manager::manager::{
    BinaryManager, BinaryVersionsJsonContent, FileProbe, LocalDirEntry, SessionStart,
};
use binary_manager::pipeline::{DownloadError, RemoteVersionEntry};
use binary_manager::version::SemVer;

fn v(major: u64, minor: u64, patch: u64) -> SemVer {
    SemVer::new(major, minor, patch)
}

fn pre(major: u64, minor: u64, patch: u64, tag: &str) -> SemVer {
    SemVer::with_pre(major, minor, patch, tag.as_bytes().to_vec()).unwrap()
}

fn doc(name: &str, constraint: &str) -> BinaryVersionsJsonContent {
    BinaryVersionsJsonContent { binaries: vec![(name.to_string(), constraint.to_string())] }
}

fn manager(constraint: Option<&str>, tag: Option<&str>) -> BinaryManager {
    let requirements = match constraint {
        Some(c) => doc("node", c),
        None => BinaryVersionsJsonContent { binaries: vec![] },
    };
    BinaryManager::new(
        "node".to_string(),
        None,
        &requirements,
        tag.map(|t| t.to_string()),
        false,
    )
}

fn entry(version: SemVer) -> RemoteVersionEntry {
    RemoteVersionEntry { version, assets: vec![] }
}

fn all_present() -> FileProbe {
    FileProbe {
        folder_resolved: true,
        binary_present: true,
        exe_variant_present: false,
        marker_present: false,
    }
}

fn dir_entry(name: &str) -> LocalDirEntry {
    LocalDirEntry { name: name.to_string(), is_dir: true, probe: all_present() }
}

#[test]
fn matches_agrees_with_range_evaluation() {
    let m = manager(Some(">=1.0.0, <2.0.0"), None);
    assert!(m.check_if_version_meet_requirements(&v(1, 0, 0)));
    assert!(m.check_if_version_meet_requirements(&v(1, 9, 9)));
    assert!(!m.check_if_version_meet_requirements(&v(0, 9, 9)));
    assert!(!m.check_if_version_meet_requirements(&v(2, 0, 0)));
    assert!(!m.check_if_version_meet_requirements(&v(2, 1, 0)));
}

#[test]
fn prerelease_without_required_tag_is_rejected_in_range() {
    // the range accepts both prereleases (a comparator names the same
    // numeric triple with a prerelease, as semver demands); only the
    // required tag separates them
    let m = manager(Some(">=1.5.0-a, <2.0.0"), Some("rc"));
    assert!(m.check_if_version_meet_requirements(&pre(1, 5, 0, "rc.1")));
    assert!(!m.check_if_version_meet_requirements(&pre(1, 5, 0, "beta.1")));
}

#[test]
fn malformed_constraint_fails_open() {
    let m = manager(Some("not a constraint !!"), None);
    assert!(m.check_if_version_meet_requirements(&v(0, 0, 1)));
    assert!(m.check_if_version_meet_requirements(&v(99, 0, 0)));
}

#[test]
fn missing_constraint_fails_open() {
    let m = manager(None, None);
    assert!(m.check_if_version_meet_requirements(&v(42, 0, 0)));
}

#[test]
fn select_with_both_lists_empty_is_none() {
    let mut m = manager(None, None);
    assert_eq!(m.select_highest_version(), None);
}

#[test]
fn select_prefers_whichever_side_is_ahead() {
    // online 1.2.0, local 1.3.0: the local build wins
    let mut m = manager(None, None);
    m.check_for_updates(&vec![entry(v(1, 2, 0))]);
    m.read_local_versions(&vec![dir_entry("1.3.0")]);
    let selected = m.select_highest_version().unwrap();
    assert!(selected.same(&v(1, 3, 0)));
}

#[test]
fn select_with_empty_local_takes_online() {
    let mut m = manager(None, None);
    m.check_for_updates(&vec![entry(v(2, 0, 0))]);
    let selected = m.select_highest_version().unwrap();
    assert!(selected.same(&v(2, 0, 0)));
}

#[test]
fn check_for_updates_filters_and_sorts_descending() {
    let mut m = manager(Some(">=1.0.0, <2.0.0"), None);
    m.check_for_updates(&vec![
        entry(v(1, 1, 0)),
        entry(v(2, 1, 0)),
        entry(v(1, 5, 0)),
        entry(v(0, 9, 0)),
        entry(v(1, 3, 0)),
    ]);
    let kept: Vec<String> =
        m.online_versions_list.iter().map(|e| e.version.canonical_string()).collect();
    assert_eq!(kept, vec!["1.5.0", "1.3.0", "1.1.0"]);
}

#[test]
fn check_for_updates_replaces_the_previous_list() {
    let mut m = manager(None, None);
    m.check_for_updates(&vec![entry(v(1, 1, 0))]);
    m.check_for_updates(&vec![entry(v(1, 2, 0))]);
    assert_eq!(m.online_versions_list.len(), 1);
    assert!(m.online_versions_list[0].version.same(&v(1, 2, 0)));
}

#[test]
fn read_local_versions_skips_unparseable_and_incomplete_entries() {
    let mut m = manager(None, None);
    let mut no_files = dir_entry("1.2.0");
    no_files.probe.binary_present = false;
    let mut file_not_dir = dir_entry("1.6.0");
    file_not_dir.is_dir = false;
    m.read_local_versions(&vec![
        dir_entry("not-a-version"),
        no_files,
        file_not_dir,
        dir_entry("1.4.0"),
    ]);
    assert_eq!(m.local_available_versions_list.len(), 1);
    assert!(m.local_available_versions_list[0].same(&v(1, 4, 0)));
}

#[test]
fn rescanning_does_not_change_the_selection() {
    let mut m = manager(None, None);
    let listing = vec![dir_entry("1.4.0"), dir_entry("1.2.0")];
    m.read_local_versions(&listing);
    let first = m.select_highest_version().unwrap();
    m.read_local_versions(&listing);
    let second = m.select_highest_version().unwrap();
    assert!(first.same(&second));
    assert!(second.same(&v(1, 4, 0)));
}

#[test]
fn exceeds_requirements_is_purely_diagnostic() {
    let mut m = manager(Some(">=1.0.0, <2.0.0"), None);
    m.check_for_updates(&vec![entry(v(1, 5, 0)), entry(v(2, 1, 0))]);
    // 2.1.0 was rejected, and nothing kept online tops it
    assert!(m.check_if_version_exceeds_requirements(&v(2, 1, 0)));
    assert!(!m.check_if_version_exceeds_requirements(&v(1, 0, 0)));
}

#[test]
fn files_exist_check_needs_a_version_and_an_artifact() {
    let m = manager(None, None);
    let version = v(1, 0, 0);
    assert!(m.check_if_files_for_version_exist(Some(&version), &all_present()));
    assert!(!m.check_if_files_for_version_exist(None, &all_present()));
    let mut probe = all_present();
    probe.binary_present = false;
    assert!(!m.check_if_files_for_version_exist(Some(&version), &probe));
    probe.marker_present = true;
    assert!(m.check_if_files_for_version_exist(Some(&version), &probe));
    probe.folder_resolved = false;
    assert!(!m.check_if_files_for_version_exist(Some(&version), &probe));
}

#[test]
fn used_version_is_set_only_explicitly() {
    let mut m = manager(None, None);
    assert!(m.get_used_version().is_none());
    assert_eq!(m.get_base_dir(), Err(DownloadError::NoVersionSelected));
    m.check_for_updates(&vec![entry(v(1, 5, 0))]);
    let selected = m.select_highest_version().unwrap();
    assert!(m.get_used_version().is_none());
    m.set_used_version(selected);
    assert!(m.get_used_version().unwrap().same(&v(1, 5, 0)));
    assert_eq!(m.get_base_dir(), Ok("1.5.0".to_string()));
}

#[test]
fn binary_subfolder_is_returned_as_given() {
    let requirements = BinaryVersionsJsonContent { binaries: vec![] };
    let m = BinaryManager::new(
        "wallet".to_string(),
        Some("bundle".to_string()),
        &requirements,
        None,
        true,
    );
    assert_eq!(m.binary_subfolder(), Some(&"bundle".to_string()));
}

#[test]
fn end_to_end_policy_selection_and_download_start() {
    // constraint ">=1.0.0, <2.0.0"; remote offers 1.5.0 and 2.1.0; the
    // disk holds a complete 1.4.0
    let mut m = manager(Some(">=1.0.0, <2.0.0"), None);
    m.check_for_updates(&vec![entry(v(1, 5, 0)), entry(v(2, 1, 0))]);
    assert_eq!(m.online_versions_list.len(), 1);
    assert!(m.online_versions_list[0].version.same(&v(1, 5, 0)));
    m.read_local_versions(&vec![dir_entry("1.4.0")]);
    let selected = m.select_highest_version().unwrap();
    assert!(selected.same(&v(1, 5, 0)));
    // files for 1.5.0 are absent, so a download session begins for it
    let absent = FileProbe {
        folder_resolved: true,
        binary_present: false,
        exe_variant_present: false,
        marker_present: false,
    };
    assert!(!m.check_if_files_for_version_exist(Some(&selected), &absent));
    match m.download_version_with_retries(Some(&selected)) {
        SessionStart::Begun(session) => {
            assert!(session.entry.version.same(&v(1, 5, 0)));
            assert_eq!(session.attempts_started, 1);
        },
        SessionStart::Refused(e) => panic!("session refused: {:?}", e),
    }
}

#[test]
fn download_without_selection_or_entry_is_refused() {
    let mut m = manager(None, None);
    match m.download_version_with_retries(None) {
        SessionStart::Refused(e) => assert_eq!(e, DownloadError::NoVersionSelected),
        SessionStart::Begun(_) => panic!("session began without a version"),
    }
    m.check_for_updates(&vec![entry(v(1, 0, 0))]);
    let missing = v(1, 1, 0);
    match m.download_version_with_retries(Some(&missing)) {
        SessionStart::Refused(e) => assert_eq!(e, DownloadError::AssetNotFound),
        SessionStart::Begun(_) => panic!("session began for an unadvertised version"),
    }
}
