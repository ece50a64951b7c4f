use binary_manager::pipeline::{
    DownloadError, DownloadPipeline, DownloadSession, PipelineAction, PipelineEvent,
    PipelinePhase, PlatformAsset, RemoteVersionEntry, SessionAction, SessionPhase, SourceKind,
};
use binary_manager::relay::{ProgressRelay, RelayAction, RelayEvent, RELAY_FULL};
use binary_manager::version::SemVer;

fn asset(fallback: Option<&str>) -> PlatformAsset {
    PlatformAsset {
        name: "node-linux-x64.zip".to_string(),
        primary_url: "https://primary.example/node.zip".to_string(),
        fallback_url: fallback.map(|u| u.to_string()),
        source: SourceKind::Generic,
    }
}

fn entry(version: SemVer) -> RemoteVersionEntry {
    RemoteVersionEntry { version, assets: vec![] }
}

/// A tiny host: applies each action's disk effect to `dest_present`.
fn apply(action: &PipelineAction, dest_present: &mut bool) {
    match action {
        PipelineAction::AbortCleanup => *dest_present = false,
        _ => {},
    }
}

fn apply_event(event: &PipelineEvent, dest_present: &mut bool) {
    if let PipelineEvent::DestinationPrepared(_) = event {
        *dest_present = true;
    }
}

fn drive(pipeline: &mut DownloadPipeline, event: PipelineEvent, dest_present: &mut bool)
    -> PipelineAction {
    apply_event(&event, dest_present);
    let action = pipeline.step(event);
    apply(&action, dest_present);
    action
}

#[test]
fn successful_run_without_checksum() {
    let mut dest = false;
    let mut p = DownloadPipeline::new(SemVer::new(1, 5, 0), false);
    assert_eq!(
        drive(&mut p, PipelineEvent::AssetResolved(Some(asset(None))), &mut dest),
        PipelineAction::ResolveFolder
    );
    assert_eq!(
        drive(&mut p, PipelineEvent::FolderResolved(true), &mut dest),
        PipelineAction::PrepareDestination
    );
    assert_eq!(
        drive(&mut p, PipelineEvent::DestinationPrepared(true), &mut dest),
        PipelineAction::PrepareStaging
    );
    assert_eq!(
        drive(&mut p, PipelineEvent::StagingPrepared(true), &mut dest),
        PipelineAction::Download {
            url: "https://primary.example/node.zip".to_string(),
            from_mirror: false,
        }
    );
    assert_eq!(
        drive(&mut p, PipelineEvent::DownloadFinished(true), &mut dest),
        PipelineAction::Extract
    );
    assert_eq!(
        drive(&mut p, PipelineEvent::Extracted(true), &mut dest),
        PipelineAction::FinishCleanup
    );
    assert_eq!(p.phase, PipelinePhase::Complete);
    assert!(!p.staged_from_fallback);
    assert!(dest, "a completed install leaves the destination in place");
}

#[test]
fn checksum_match_completes_the_run() {
    let mut dest = false;
    let mut p = DownloadPipeline::new(SemVer::new(1, 5, 0), true);
    drive(&mut p, PipelineEvent::AssetResolved(Some(asset(None))), &mut dest);
    drive(&mut p, PipelineEvent::FolderResolved(true), &mut dest);
    drive(&mut p, PipelineEvent::DestinationPrepared(true), &mut dest);
    drive(&mut p, PipelineEvent::StagingPrepared(true), &mut dest);
    drive(&mut p, PipelineEvent::DownloadFinished(true), &mut dest);
    assert_eq!(
        drive(&mut p, PipelineEvent::Extracted(true), &mut dest),
        PipelineAction::FetchChecksumFile
    );
    assert_eq!(
        drive(&mut p, PipelineEvent::ChecksumFileFetched(true), &mut dest),
        PipelineAction::ReadExpectedChecksum { asset_name: "node-linux-x64.zip".to_string() }
    );
    assert_eq!(
        drive(&mut p, PipelineEvent::ExpectedChecksumRead(Some(vec![0xab, 0xcd])), &mut dest),
        PipelineAction::ComputeStagedChecksum
    );
    assert_eq!(
        drive(&mut p, PipelineEvent::StagedChecksumComputed(Some(vec![0xab, 0xcd])), &mut dest),
        PipelineAction::FinishCleanup
    );
    assert_eq!(p.phase, PipelinePhase::Complete);
    assert!(dest);
}

#[test]
fn checksum_mismatch_removes_the_destination() {
    let mut dest = false;
    let mut p = DownloadPipeline::new(SemVer::new(1, 5, 0), true);
    drive(&mut p, PipelineEvent::AssetResolved(Some(asset(None))), &mut dest);
    drive(&mut p, PipelineEvent::FolderResolved(true), &mut dest);
    drive(&mut p, PipelineEvent::DestinationPrepared(true), &mut dest);
    drive(&mut p, PipelineEvent::StagingPrepared(true), &mut dest);
    drive(&mut p, PipelineEvent::DownloadFinished(true), &mut dest);
    drive(&mut p, PipelineEvent::Extracted(true), &mut dest);
    drive(&mut p, PipelineEvent::ChecksumFileFetched(true), &mut dest);
    drive(&mut p, PipelineEvent::ExpectedChecksumRead(Some(vec![0xab, 0xcd])), &mut dest);
    assert!(dest, "the directory exists right before verification");
    let action =
        drive(&mut p, PipelineEvent::StagedChecksumComputed(Some(vec![0x00, 0x01])), &mut dest);
    assert_eq!(action, PipelineAction::AbortCleanup);
    assert_eq!(p.phase, PipelinePhase::Failed(DownloadError::ChecksumMismatch));
    assert!(!dest, "a checksum mismatch leaves no installation directory behind");
}

#[test]
fn extraction_failure_cleans_up_and_is_not_retried_within_the_run() {
    let mut dest = false;
    let mut p = DownloadPipeline::new(SemVer::new(1, 5, 0), false);
    drive(&mut p, PipelineEvent::AssetResolved(Some(asset(None))), &mut dest);
    drive(&mut p, PipelineEvent::FolderResolved(true), &mut dest);
    drive(&mut p, PipelineEvent::DestinationPrepared(true), &mut dest);
    drive(&mut p, PipelineEvent::StagingPrepared(true), &mut dest);
    drive(&mut p, PipelineEvent::DownloadFinished(true), &mut dest);
    let action = drive(&mut p, PipelineEvent::Extracted(false), &mut dest);
    assert_eq!(action, PipelineAction::AbortCleanup);
    assert_eq!(p.phase, PipelinePhase::Failed(DownloadError::ExtractionFailed));
    assert!(!dest);
}

#[test]
fn fallback_is_tried_and_its_download_is_the_staged_one() {
    let mut dest = false;
    let mut staged_content: Option<&str> = None;
    let mut p = DownloadPipeline::new(SemVer::new(1, 5, 0), false);
    drive(
        &mut p,
        PipelineEvent::AssetResolved(Some(asset(Some("https://fallback.example/node.zip")))),
        &mut dest,
    );
    drive(&mut p, PipelineEvent::FolderResolved(true), &mut dest);
    drive(&mut p, PipelineEvent::DestinationPrepared(true), &mut dest);
    let first_download = drive(&mut p, PipelineEvent::StagingPrepared(true), &mut dest);
    assert_eq!(
        first_download,
        PipelineAction::Download {
            url: "https://primary.example/node.zip".to_string(),
            from_mirror: false,
        }
    );
    // the primary is unreachable; the pipeline must retry on the fallback
    let second_download = drive(&mut p, PipelineEvent::DownloadFinished(false), &mut dest);
    assert_eq!(
        second_download,
        PipelineAction::Download {
            url: "https://fallback.example/node.zip".to_string(),
            from_mirror: false,
        }
    );
    // the host performs it and stages the fallback's bytes
    staged_content = Some("fallback-content");
    assert_eq!(
        drive(&mut p, PipelineEvent::DownloadFinished(true), &mut dest),
        PipelineAction::Extract
    );
    drive(&mut p, PipelineEvent::Extracted(true), &mut dest);
    assert_eq!(p.phase, PipelinePhase::Complete);
    assert!(p.staged_from_fallback);
    assert_eq!(staged_content, Some("fallback-content"));
}

#[test]
fn primary_failure_without_fallback_fails_the_run() {
    let mut dest = false;
    let mut p = DownloadPipeline::new(SemVer::new(1, 5, 0), false);
    drive(&mut p, PipelineEvent::AssetResolved(Some(asset(None))), &mut dest);
    drive(&mut p, PipelineEvent::FolderResolved(true), &mut dest);
    drive(&mut p, PipelineEvent::DestinationPrepared(true), &mut dest);
    drive(&mut p, PipelineEvent::StagingPrepared(true), &mut dest);
    let action = drive(&mut p, PipelineEvent::DownloadFinished(false), &mut dest);
    assert_eq!(action, PipelineAction::AbortCleanup);
    assert_eq!(p.phase, PipelinePhase::Failed(DownloadError::DownloadFailed));
    assert!(!dest);
}

#[test]
fn deterministic_failure_is_attempted_exactly_three_times() {
    let mut session = DownloadSession::begin(entry(SemVer::new(1, 5, 0)), false);
    let mut restarts = 0;
    let mut reports = 0;
    // the adapter can never resolve an asset: every attempt dies at its
    // first step
    loop {
        match session.step(PipelineEvent::AssetResolved(None)) {
            SessionAction::Restart { cleanup, entry } => {
                assert_eq!(cleanup, PipelineAction::Report);
                assert!(entry.version.same(&SemVer::new(1, 5, 0)));
                restarts += 1;
            },
            SessionAction::ReportFailure(cleanup) => {
                assert_eq!(cleanup, PipelineAction::Report);
                reports += 1;
                break;
            },
            other => panic!("unexpected session action: {:?}", other),
        }
    }
    assert_eq!(restarts, 2, "two restarts after the first failure");
    assert_eq!(reports, 1, "exactly one telemetry request");
    assert_eq!(session.attempts_started, 3);
    assert_eq!(session.telemetry_events, 1);
    assert_eq!(session.phase, SessionPhase::Failed(DownloadError::AssetNotFound));
}

#[test]
fn session_succeeds_on_a_later_attempt() {
    let mut session = DownloadSession::begin(entry(SemVer::new(1, 5, 0)), false);
    // first attempt: the asset resolves but the transfer fails
    assert!(matches!(
        session.step(PipelineEvent::AssetResolved(Some(asset(None)))),
        SessionAction::Drive(PipelineAction::ResolveFolder)
    ));
    assert!(matches!(
        session.step(PipelineEvent::FolderResolved(true)),
        SessionAction::Drive(PipelineAction::PrepareDestination)
    ));
    assert!(matches!(
        session.step(PipelineEvent::DestinationPrepared(true)),
        SessionAction::Drive(PipelineAction::PrepareStaging)
    ));
    assert!(matches!(
        session.step(PipelineEvent::StagingPrepared(true)),
        SessionAction::Drive(PipelineAction::Download { .. })
    ));
    assert!(matches!(
        session.step(PipelineEvent::DownloadFinished(false)),
        SessionAction::Restart { .. }
    ));
    assert_eq!(session.attempts_started, 2);
    // second attempt runs through
    session.step(PipelineEvent::AssetResolved(Some(asset(None))));
    session.step(PipelineEvent::FolderResolved(true));
    session.step(PipelineEvent::DestinationPrepared(true));
    session.step(PipelineEvent::StagingPrepared(true));
    session.step(PipelineEvent::DownloadFinished(true));
    match session.step(PipelineEvent::Extracted(true)) {
        SessionAction::Finished(cleanup) => assert_eq!(cleanup, PipelineAction::FinishCleanup),
        other => panic!("unexpected session action: {:?}", other),
    }
    assert_eq!(session.phase, SessionPhase::Succeeded);
    assert_eq!(session.telemetry_events, 0);
}

#[test]
fn relay_forwards_rounded_fractions_and_completes_at_full() {
    let mut relay = ProgressRelay::new();
    assert_eq!(
        relay.step(RelayEvent::Progress(0)),
        RelayAction::Forward { raw: 0, rounded_unit: 0, last: false }
    );
    assert_eq!(
        relay.step(RelayEvent::Progress(4999)),
        RelayAction::Forward { raw: 4999, rounded_unit: 0, last: false }
    );
    assert_eq!(
        relay.step(RelayEvent::Progress(5000)),
        RelayAction::Forward { raw: 5000, rounded_unit: 1, last: false }
    );
    assert_eq!(
        relay.step(RelayEvent::Progress(RELAY_FULL)),
        RelayAction::Forward { raw: RELAY_FULL, rounded_unit: 1, last: true }
    );
    assert!(relay.done);
}

#[test]
fn relay_stops_on_shutdown_without_reporting() {
    let mut relay = ProgressRelay::new();
    relay.step(RelayEvent::Progress(2500));
    assert_eq!(relay.step(RelayEvent::Shutdown), RelayAction::Stop);
    assert!(relay.done);
}
