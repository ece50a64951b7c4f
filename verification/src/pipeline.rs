//! The download pipeline for one selected version, and the retry session
//! around it.
//!
//! The pipeline is a state machine. Each call to [`DownloadPipeline::step`]
//! consumes the outcome of the previous outside operation (an event) and
//! returns the next operation to perform (an action); the host performs
//! disk and network work, the machine makes every decision. The staged
//! order is the one a crash-safe install needs: resolve the platform
//! asset, resolve the installation root, empty the destination directory,
//! recreate the `in_progress` staging directory, download (primary, then
//! fallback), extract, optionally verify the checksum, and clean up.
//!
//! Every failure past the point where the destination directory may exist
//! answers with [`PipelineAction::AbortCleanup`], so a failed run never
//! leaves the version directory behind — a partial install is never
//! visible as a completed one.

use vstd::prelude::*;

use crate::version::{bytes_eq, SemVer};

verus! {

/// Where a platform asset is hosted: a trusted mirror (safe for
/// streaming/content-length shortcuts) or a generic host.
#[derive(Clone, Copy, Debug, PartialEq, Eq, Structural)]
pub enum SourceKind {
    Mirror,
    Generic,
}

/// The downloadable artifact of one version for the current platform.
#[derive(Debug, PartialEq, Eq)]
pub struct PlatformAsset {
    pub name: String,
    pub primary_url: String,
    pub fallback_url: Option<String>,
    pub source: SourceKind,
}

/// One version advertised by the remote catalog, with its assets.
#[derive(Debug, PartialEq, Eq)]
pub struct RemoteVersionEntry {
    pub version: SemVer,
    pub assets: Vec<PlatformAsset>,
}

impl PlatformAsset {
    /// A copy equal to `self`.
    pub fn duplicate(&self) -> (r: PlatformAsset)
        ensures
            r == *self,
    {
        PlatformAsset {
            name: self.name.clone(),
            primary_url: self.primary_url.clone(),
            fallback_url: match &self.fallback_url {
                Some(u) => Some(u.clone()),
                None => None,
            },
            source: self.source,
        }
    }
}

impl RemoteVersionEntry {
    /// A copy whose version has the same value and whose assets are equal.
    pub fn duplicate(&self) -> (r: RemoteVersionEntry)
        ensures
            r.version@ == self.version@,
            r.assets@ == self.assets@,
    {
        let mut assets: Vec<PlatformAsset> = Vec::new();
        let mut i: usize = 0;
        while i < self.assets.len()
            invariant
                i <= self.assets@.len(),
                assets@ =~= self.assets@.take(i as int),
            decreases self.assets@.len() - i,
        {
            assets.push(self.assets[i].duplicate());
            i = i + 1;
        }
        proof {
            assert(assets@ =~= self.assets@);
        }
        RemoteVersionEntry { version: self.version.duplicate(), assets }
    }
}

/// Why a pipeline run (or the whole retry session) failed.
#[derive(Clone, Copy, Debug, PartialEq, Eq, Structural)]
pub enum DownloadError {
    /// No version was selected before the download was requested.
    NoVersionSelected,
    /// The selected version has no catalog entry, or the catalog could not
    /// name an asset for this platform.
    AssetNotFound,
    /// The installation root could not be resolved.
    FolderUnavailable,
    /// The destination or staging directory could not be prepared.
    StagingFailed,
    /// The transfer failed on the primary location and on the fallback if
    /// one exists, or checksum material could not be retrieved.
    DownloadFailed,
    /// The staged archive could not be unpacked.
    ExtractionFailed,
    /// The staged archive's checksum did not match the published one, or
    /// could not be computed.
    ChecksumMismatch,
}

/// Where a pipeline run stands between two steps.
#[derive(Clone, Copy, Debug, PartialEq, Eq, Structural)]
pub enum PipelinePhase {
    ResolvingAsset,
    ResolvingFolder,
    PreparingDestination,
    PreparingStaging,
    DownloadingPrimary,
    DownloadingFallback,
    Extracting,
    FetchingChecksumFile,
    ReadingExpectedChecksum,
    ComputingStagedChecksum,
    Complete,
    Failed(DownloadError),
}

/// The outcome of the outside operation the pipeline asked for last.
#[derive(Debug, PartialEq, Eq)]
pub enum PipelineEvent {
    /// The catalog's answer to [`PipelineAction::ResolveAsset`].
    AssetResolved(Option<PlatformAsset>),
    /// Whether the installation root could be resolved.
    FolderResolved(bool),
    /// Whether the destination directory now exists and is empty.
    DestinationPrepared(bool),
    /// Whether the `in_progress` staging directory was recreated empty.
    StagingPrepared(bool),
    /// Whether the transfer into the staging file succeeded.
    DownloadFinished(bool),
    /// Whether extraction into the destination directory succeeded.
    Extracted(bool),
    /// Whether the checksum file was fetched.
    ChecksumFileFetched(bool),
    /// The expected checksum for the asset, if it could be read.
    ExpectedChecksumRead(Option<Vec<u8>>),
    /// The checksum computed over the staged archive, if it could be.
    StagedChecksumComputed(Option<Vec<u8>>),
}

/// The outside operation the host must perform next.
#[derive(Debug, PartialEq, Eq)]
pub enum PipelineAction {
    /// Ask the catalog adapter for this entry's platform asset; answer
    /// with [`PipelineEvent::AssetResolved`].
    ResolveAsset(RemoteVersionEntry),
    /// Resolve the installation root; answer with `FolderResolved`.
    ResolveFolder,
    /// Make the version's destination directory exist empty (removing any
    /// stale content first); answer with `DestinationPrepared`.
    PrepareDestination,
    /// Recreate the `in_progress` staging directory empty; answer with
    /// `StagingPrepared`.
    PrepareStaging,
    /// Stream the asset from `url` into the staging file, with a fresh
    /// progress stream; answer with `DownloadFinished`.
    Download { url: String, from_mirror: bool },
    /// Unpack the staged archive into the destination directory; answer
    /// with `Extracted`.
    Extract,
    /// Fetch the checksum file for the version; answer with
    /// `ChecksumFileFetched`.
    FetchChecksumFile,
    /// Read the expected checksum for the named asset out of the fetched
    /// checksum file; answer with `ExpectedChecksumRead`.
    ReadExpectedChecksum { asset_name: String },
    /// Compute the checksum of the staged archive; answer with
    /// `StagedChecksumComputed`.
    ComputeStagedChecksum,
    /// Success: remove the staging directory. The run is over.
    FinishCleanup,
    /// Failure: remove the version's destination directory (staging
    /// included). The run is over or restarts.
    AbortCleanup,
    /// Failure before the destination directory could have been created;
    /// nothing on disk to touch.
    Report,
}

/// One download attempt for one version.
#[derive(Debug)]
pub struct DownloadPipeline {
    pub version: SemVer,
    pub validate_checksum: bool,
    /// Set by [`PipelineEvent::AssetResolved`].
    pub asset: Option<PlatformAsset>,
    /// Set by [`PipelineEvent::ExpectedChecksumRead`].
    pub expected_checksum: Option<Vec<u8>>,
    /// Whether the staged archive came from the fallback location.
    pub staged_from_fallback: bool,
    pub phase: PipelinePhase,
}

impl DownloadPipeline {
    /// A fresh attempt for `version`, waiting for the platform asset.
    pub fn new(version: SemVer, validate_checksum: bool) -> (r: DownloadPipeline)
        ensures
            r == (DownloadPipeline {
                version,
                validate_checksum,
                asset: None,
                expected_checksum: None,
                staged_from_fallback: false,
                phase: PipelinePhase::ResolvingAsset,
            }),
    {
        DownloadPipeline {
            version,
            validate_checksum,
            asset: None,
            expected_checksum: None,
            staged_from_fallback: false,
            phase: PipelinePhase::ResolvingAsset,
        }
    }

    /// Whether the run is over.
    pub open spec fn is_terminal(self) -> bool {
        self.phase is Complete || self.phase is Failed
    }

    /// The state carries what its phase needs: an asset once one was
    /// resolved, and the expected checksum while comparing.
    pub open spec fn wf(self) -> bool {
        &&& match self.phase {
            PipelinePhase::ResolvingAsset => true,
            PipelinePhase::Complete => true,
            PipelinePhase::Failed(_) => true,
            _ => self.asset is Some,
        }
        &&& self.phase is ComputingStagedChecksum ==> self.expected_checksum is Some
    }

    /// Whether `ev` is the kind of answer the current phase awaits.
    pub open spec fn expects(self, ev: PipelineEvent) -> bool {
        match ev {
            PipelineEvent::AssetResolved(_) => self.phase is ResolvingAsset,
            PipelineEvent::FolderResolved(_) => self.phase is ResolvingFolder,
            PipelineEvent::DestinationPrepared(_) => self.phase is PreparingDestination,
            PipelineEvent::StagingPrepared(_) => self.phase is PreparingStaging,
            PipelineEvent::DownloadFinished(_) => self.phase is DownloadingPrimary
                || self.phase is DownloadingFallback,
            PipelineEvent::Extracted(_) => self.phase is Extracting,
            PipelineEvent::ChecksumFileFetched(_) => self.phase is FetchingChecksumFile,
            PipelineEvent::ExpectedChecksumRead(_) => self.phase is ReadingExpectedChecksum,
            PipelineEvent::StagedChecksumComputed(_) => self.phase is ComputingStagedChecksum,
        }
    }

    /// The transition relation of one attempt: from a state and the event
    /// it awaits to the next state and the next action.
    pub open spec fn step_spec(self, ev: PipelineEvent) -> (DownloadPipeline, PipelineAction) {
        match ev {
            PipelineEvent::AssetResolved(found) => match found {
                Some(a) => (
                    DownloadPipeline { asset: Some(a), phase: PipelinePhase::ResolvingFolder, ..self },
                    PipelineAction::ResolveFolder,
                ),
                None => (
                    DownloadPipeline { phase: PipelinePhase::Failed(DownloadError::AssetNotFound), ..self },
                    PipelineAction::Report,
                ),
            },
            PipelineEvent::FolderResolved(ok) => if ok {
                (
                    DownloadPipeline { phase: PipelinePhase::PreparingDestination, ..self },
                    PipelineAction::PrepareDestination,
                )
            } else {
                (
                    DownloadPipeline { phase: PipelinePhase::Failed(DownloadError::FolderUnavailable), ..self },
                    PipelineAction::Report,
                )
            },
            PipelineEvent::DestinationPrepared(ok) => if ok {
                (
                    DownloadPipeline { phase: PipelinePhase::PreparingStaging, ..self },
                    PipelineAction::PrepareStaging,
                )
            } else {
                (
                    DownloadPipeline { phase: PipelinePhase::Failed(DownloadError::StagingFailed), ..self },
                    PipelineAction::AbortCleanup,
                )
            },
            PipelineEvent::StagingPrepared(ok) => if ok {
                (
                    DownloadPipeline { phase: PipelinePhase::DownloadingPrimary, ..self },
                    PipelineAction::Download {
                        url: self.asset->0.primary_url,
                        from_mirror: self.asset->0.source is Mirror,
                    },
                )
            } else {
                (
                    DownloadPipeline { phase: PipelinePhase::Failed(DownloadError::StagingFailed), ..self },
                    PipelineAction::AbortCleanup,
                )
            },
            PipelineEvent::DownloadFinished(ok) => if ok {
                (
                    DownloadPipeline {
                        phase: PipelinePhase::Extracting,
                        staged_from_fallback: self.phase is DownloadingFallback,
                        ..self
                    },
                    PipelineAction::Extract,
                )
            } else if self.phase is DownloadingPrimary && self.asset->0.fallback_url is Some {
                (
                    DownloadPipeline { phase: PipelinePhase::DownloadingFallback, ..self },
                    PipelineAction::Download {
                        url: self.asset->0.fallback_url->0,
                        from_mirror: self.asset->0.source is Mirror,
                    },
                )
            } else {
                (
                    DownloadPipeline { phase: PipelinePhase::Failed(DownloadError::DownloadFailed), ..self },
                    PipelineAction::AbortCleanup,
                )
            },
            PipelineEvent::Extracted(ok) => if !ok {
                (
                    DownloadPipeline { phase: PipelinePhase::Failed(DownloadError::ExtractionFailed), ..self },
                    PipelineAction::AbortCleanup,
                )
            } else if self.validate_checksum {
                (
                    DownloadPipeline { phase: PipelinePhase::FetchingChecksumFile, ..self },
                    PipelineAction::FetchChecksumFile,
                )
            } else {
                (
                    DownloadPipeline { phase: PipelinePhase::Complete, ..self },
                    PipelineAction::FinishCleanup,
                )
            },
            PipelineEvent::ChecksumFileFetched(ok) => if ok {
                (
                    DownloadPipeline { phase: PipelinePhase::ReadingExpectedChecksum, ..self },
                    PipelineAction::ReadExpectedChecksum { asset_name: self.asset->0.name },
                )
            } else {
                (
                    DownloadPipeline { phase: PipelinePhase::Failed(DownloadError::DownloadFailed), ..self },
                    PipelineAction::AbortCleanup,
                )
            },
            PipelineEvent::ExpectedChecksumRead(read) => match read {
                Some(c) => (
                    DownloadPipeline {
                        expected_checksum: Some(c),
                        phase: PipelinePhase::ComputingStagedChecksum,
                        ..self
                    },
                    PipelineAction::ComputeStagedChecksum,
                ),
                None => (
                    DownloadPipeline { phase: PipelinePhase::Failed(DownloadError::DownloadFailed), ..self },
                    PipelineAction::AbortCleanup,
                ),
            },
            PipelineEvent::StagedChecksumComputed(actual) => match actual {
                Some(c) => if c@ == self.expected_checksum->0@ {
                    (
                        DownloadPipeline { phase: PipelinePhase::Complete, ..self },
                        PipelineAction::FinishCleanup,
                    )
                } else {
                    (
                        DownloadPipeline { phase: PipelinePhase::Failed(DownloadError::ChecksumMismatch), ..self },
                        PipelineAction::AbortCleanup,
                    )
                },
                None => (
                    DownloadPipeline { phase: PipelinePhase::Failed(DownloadError::ChecksumMismatch), ..self },
                    PipelineAction::AbortCleanup,
                ),
            },
        }
    }

    /// Consumes the outcome of the last action and decides the next one.
    pub fn step(&mut self, ev: PipelineEvent) -> (a: PipelineAction)
        requires
            old(self).wf(),
            !old(self).is_terminal(),
            old(self).expects(ev),
        ensures
            (*final(self), a) == old(self).step_spec(ev),
            final(self).wf(),
            final(self).version == old(self).version,
            final(self).validate_checksum == old(self).validate_checksum,
    {
        match ev {
            PipelineEvent::AssetResolved(found) => match found {
                Some(a) => {
                    self.asset = Some(a);
                    self.phase = PipelinePhase::ResolvingFolder;
                    PipelineAction::ResolveFolder
                },
                None => {
                    self.phase = PipelinePhase::Failed(DownloadError::AssetNotFound);
                    PipelineAction::Report
                },
            },
            PipelineEvent::FolderResolved(ok) => if ok {
                self.phase = PipelinePhase::PreparingDestination;
                PipelineAction::PrepareDestination
            } else {
                self.phase = PipelinePhase::Failed(DownloadError::FolderUnavailable);
                PipelineAction::Report
            },
            PipelineEvent::DestinationPrepared(ok) => if ok {
                self.phase = PipelinePhase::PreparingStaging;
                PipelineAction::PrepareStaging
            } else {
                self.phase = PipelinePhase::Failed(DownloadError::StagingFailed);
                PipelineAction::AbortCleanup
            },
            PipelineEvent::StagingPrepared(ok) => if ok {
                self.phase = PipelinePhase::DownloadingPrimary;
                let (url, from_mirror) = match &self.asset {
                    Some(a) => (a.primary_url.clone(), matches!(a.source, SourceKind::Mirror)),
                    None => {
                        assert(false);
                        (String::new(), false)
                    },
                };
                PipelineAction::Download { url, from_mirror }
            } else {
                self.phase = PipelinePhase::Failed(DownloadError::StagingFailed);
                PipelineAction::AbortCleanup
            },
            PipelineEvent::DownloadFinished(ok) => if ok {
                self.staged_from_fallback = matches!(self.phase, PipelinePhase::DownloadingFallback);
                self.phase = PipelinePhase::Extracting;
                PipelineAction::Extract
            } else {
                let primary = matches!(self.phase, PipelinePhase::DownloadingPrimary);
                let fallback: Option<(String, bool)> = match &self.asset {
                    Some(a) => match &a.fallback_url {
                        Some(u) => Some((u.clone(), matches!(a.source, SourceKind::Mirror))),
                        None => None,
                    },
                    None => {
                        assert(false);
                        None
                    },
                };
                match fallback {
                    Some((url, from_mirror)) if primary => {
                        self.phase = PipelinePhase::DownloadingFallback;
                        PipelineAction::Download { url, from_mirror }
                    },
                    _ => {
                        self.phase = PipelinePhase::Failed(DownloadError::DownloadFailed);
                        PipelineAction::AbortCleanup
                    },
                }
            },
            PipelineEvent::Extracted(ok) => if !ok {
                self.phase = PipelinePhase::Failed(DownloadError::ExtractionFailed);
                PipelineAction::AbortCleanup
            } else if self.validate_checksum {
                self.phase = PipelinePhase::FetchingChecksumFile;
                PipelineAction::FetchChecksumFile
            } else {
                self.phase = PipelinePhase::Complete;
                PipelineAction::FinishCleanup
            },
            PipelineEvent::ChecksumFileFetched(ok) => if ok {
                self.phase = PipelinePhase::ReadingExpectedChecksum;
                let asset_name = match &self.asset {
                    Some(a) => a.name.clone(),
                    None => {
                        assert(false);
                        String::new()
                    },
                };
                PipelineAction::ReadExpectedChecksum { asset_name }
            } else {
                self.phase = PipelinePhase::Failed(DownloadError::DownloadFailed);
                PipelineAction::AbortCleanup
            },
            PipelineEvent::ExpectedChecksumRead(read) => match read {
                Some(c) => {
                    self.expected_checksum = Some(c);
                    self.phase = PipelinePhase::ComputingStagedChecksum;
                    PipelineAction::ComputeStagedChecksum
                },
                None => {
                    self.phase = PipelinePhase::Failed(DownloadError::DownloadFailed);
                    PipelineAction::AbortCleanup
                },
            },
            PipelineEvent::StagedChecksumComputed(actual) => match actual {
                Some(c) => {
                    let matched = match &self.expected_checksum {
                        Some(e) => bytes_eq(&c, e),
                        None => {
                            assert(false);
                            false
                        },
                    };
                    if matched {
                        self.phase = PipelinePhase::Complete;
                        PipelineAction::FinishCleanup
                    } else {
                        self.phase = PipelinePhase::Failed(DownloadError::ChecksumMismatch);
                        PipelineAction::AbortCleanup
                    }
                },
                None => {
                    self.phase = PipelinePhase::Failed(DownloadError::ChecksumMismatch);
                    PipelineAction::AbortCleanup
                },
            },
        }
    }
}

/// An abstract view of the selected version's installation directory over
/// one pipeline run, under the assumption that the host performs each
/// action as specified (in particular, that removals succeed; a failed
/// preparation is recorded conservatively as "may be present").
#[verifier::ext_equal]
pub ghost struct DestDirModel {
    pub present: bool,
}

/// How the host's answer changes the directory: once destination
/// preparation has been attempted the directory may exist, whatever the
/// outcome.
pub open spec fn apply_event(d: DestDirModel, ev: PipelineEvent) -> DestDirModel {
    match ev {
        PipelineEvent::DestinationPrepared(_) => DestDirModel { present: true },
        _ => d,
    }
}

/// How performing an action changes the directory: an abort removes it.
pub open spec fn apply_action(d: DestDirModel, a: PipelineAction) -> DestDirModel {
    match a {
        PipelineAction::AbortCleanup => DestDirModel { present: false },
        _ => d,
    }
}

/// Atomicity of failure. Whichever event a step consumes: if it fails the
/// run with any error that can arise once the destination directory may
/// exist, the step's action removes that directory; and the errors that
/// leave the directory alone (`AssetNotFound`, `FolderUnavailable`) can
/// only arise before anything was created. A checksum mismatch therefore
/// never leaves the version visible as installed.
pub proof fn lemma_failed_run_leaves_no_destination(
    p: DownloadPipeline,
    ev: PipelineEvent,
    d: DestDirModel,
)
    requires
        p.wf(),
        !p.is_terminal(),
        p.expects(ev),
        p.step_spec(ev).0.phase is Failed,
    ensures
        !(p.step_spec(ev).0.phase == PipelinePhase::Failed(DownloadError::AssetNotFound))
            && !(p.step_spec(ev).0.phase == PipelinePhase::Failed(DownloadError::FolderUnavailable))
            ==> !apply_action(apply_event(d, ev), p.step_spec(ev).1).present,
        p.step_spec(ev).0.phase == PipelinePhase::Failed(DownloadError::ChecksumMismatch)
            ==> !apply_action(apply_event(d, ev), p.step_spec(ev).1).present,
{
}

/// How many times a failing download is attempted before giving up.
pub const MAX_DOWNLOAD_ATTEMPTS: u8 = 3;

/// Where a retry session stands.
#[derive(Clone, Copy, Debug, PartialEq, Eq, Structural)]
pub enum SessionPhase {
    Running,
    Succeeded,
    Failed(DownloadError),
}

/// What the host must do with a session step's outcome.
#[derive(Debug, PartialEq, Eq)]
pub enum SessionAction {
    /// Perform the pipeline action and feed its event back.
    Drive(PipelineAction),
    /// The attempt failed but retries remain: perform the cleanup action,
    /// then begin the next attempt by resolving the entry's platform asset
    /// again, with a fresh progress stream.
    Restart { cleanup: PipelineAction, entry: RemoteVersionEntry },
    /// Every attempt failed: perform the cleanup action, emit exactly one
    /// error-telemetry event, and report the error to the caller.
    ReportFailure(PipelineAction),
    /// The attempt succeeded: perform the success cleanup. The version is
    /// installed.
    Finished(PipelineAction),
}

/// A bounded-retry download session: up to [`MAX_DOWNLOAD_ATTEMPTS`]
/// sequential pipeline attempts for the same version, each with its own
/// progress stream, telemetry emitted exactly once, on the final failure.
#[derive(Debug)]
pub struct DownloadSession {
    /// The catalog entry of the selected version, re-resolved per attempt.
    pub entry: RemoteVersionEntry,
    /// The attempt currently running.
    pub pipeline: DownloadPipeline,
    /// How many attempts have begun, this one included.
    pub attempts_started: u8,
    /// How many telemetry events the host was told to emit.
    pub telemetry_events: u8,
    pub phase: SessionPhase,
}

impl DownloadSession {
    /// A running session is within the attempt bound, has emitted no
    /// telemetry, and holds a well-formed non-terminal attempt; a failed
    /// one has exhausted the bound and emitted exactly one event.
    pub open spec fn wf(self) -> bool {
        &&& match self.phase {
            SessionPhase::Running => {
                &&& 1 <= self.attempts_started <= MAX_DOWNLOAD_ATTEMPTS
                &&& self.telemetry_events == 0
                &&& self.pipeline.wf()
                &&& !self.pipeline.is_terminal()
            },
            SessionPhase::Succeeded => self.telemetry_events == 0,
            SessionPhase::Failed(_) => {
                &&& self.attempts_started == MAX_DOWNLOAD_ATTEMPTS
                &&& self.telemetry_events == 1
            },
        }
        &&& self.entry.version@ == self.pipeline.version@
    }

    /// A fresh session for the given catalog entry, on its first attempt.
    pub fn begin(entry: RemoteVersionEntry, validate_checksum: bool) -> (r: DownloadSession)
        ensures
            r.wf(),
            r.phase is Running,
            r.attempts_started == 1,
            r.telemetry_events == 0,
            r.entry.version@ == entry.version@,
            r.entry.assets@ == entry.assets@,
            r.pipeline.version@ == entry.version@,
            r.pipeline.validate_checksum == validate_checksum,
            r.pipeline.phase is ResolvingAsset,
    {
        let version = entry.version.duplicate();
        DownloadSession {
            entry,
            pipeline: DownloadPipeline::new(version, validate_checksum),
            attempts_started: 1,
            telemetry_events: 0,
            phase: SessionPhase::Running,
        }
    }

    /// Drives the current attempt by one step and decides whether to keep
    /// going, retry, give up, or finish.
    ///
    /// The contract carries the retry bound: a session only ever fails
    /// after exactly [`MAX_DOWNLOAD_ATTEMPTS`] attempts, telemetry is
    /// requested exactly on that final transition, the error reported is
    /// the last attempt's, and a retry starts a fresh pipeline for the
    /// same version with the same checksum policy.
    pub fn step(&mut self, ev: PipelineEvent) -> (a: SessionAction)
        requires
            old(self).wf(),
            old(self).phase is Running,
            old(self).pipeline.expects(ev),
        ensures
            final(self).wf(),
            final(self).entry.version@ == old(self).entry.version@,
            final(self).entry.assets@ == old(self).entry.assets@,
            ({
                let (p2, act) = old(self).pipeline.step_spec(ev);
                &&& p2.phase is Complete ==> {
                    &&& final(self).phase is Succeeded
                    &&& final(self).attempts_started == old(self).attempts_started
                    &&& final(self).telemetry_events == 0
                    &&& a == SessionAction::Finished(act)
                }
                &&& (p2.phase is Failed && old(self).attempts_started < MAX_DOWNLOAD_ATTEMPTS)
                    ==> {
                    &&& final(self).phase is Running
                    &&& final(self).attempts_started == old(self).attempts_started + 1
                    &&& final(self).telemetry_events == 0
                    &&& final(self).pipeline.phase is ResolvingAsset
                    &&& final(self).pipeline.version@ == old(self).pipeline.version@
                    &&& final(self).pipeline.validate_checksum == old(
                        self,
                    ).pipeline.validate_checksum
                    &&& a matches SessionAction::Restart { cleanup, entry } && cleanup == act
                        && entry.version@ == old(self).entry.version@ && entry.assets@ == old(
                        self,
                    ).entry.assets@
                }
                &&& (p2.phase is Failed && old(self).attempts_started == MAX_DOWNLOAD_ATTEMPTS)
                    ==> {
                    &&& final(self).phase == SessionPhase::Failed(p2.phase->Failed_0)
                    &&& final(self).attempts_started == MAX_DOWNLOAD_ATTEMPTS
                    &&& final(self).telemetry_events == 1
                    &&& a == SessionAction::ReportFailure(act)
                }
                &&& !p2.is_terminal() ==> {
                    &&& final(self).phase is Running
                    &&& final(self).attempts_started == old(self).attempts_started
                    &&& final(self).telemetry_events == 0
                    &&& final(self).pipeline == p2
                    &&& a == SessionAction::Drive(act)
                }
            }),
    {
        let act = self.pipeline.step(ev);
        match self.pipeline.phase {
            PipelinePhase::Complete => {
                self.phase = SessionPhase::Succeeded;
                SessionAction::Finished(act)
            },
            PipelinePhase::Failed(e) => {
                if self.attempts_started < MAX_DOWNLOAD_ATTEMPTS {
                    self.attempts_started = self.attempts_started + 1;
                    let version = self.pipeline.version.duplicate();
                    let validate = self.pipeline.validate_checksum;
                    self.pipeline = DownloadPipeline::new(version, validate);
                    SessionAction::Restart { cleanup: act, entry: self.entry.duplicate() }
                } else {
                    self.phase = SessionPhase::Failed(e);
                    self.telemetry_events = self.telemetry_events + 1;
                    SessionAction::ReportFailure(act)
                }
            },
            _ => SessionAction::Drive(act),
        }
    }
}

/// The retry bound, read off the session invariant: a failed session has
/// started exactly [`MAX_DOWNLOAD_ATTEMPTS`] attempts and asked for
/// exactly one telemetry event — and a failed session takes no further
/// steps, so neither number can change afterwards.
pub proof fn lemma_retry_bound(s: DownloadSession)
    requires
        s.wf(),
        s.phase is Failed,
    ensures
        s.attempts_started == MAX_DOWNLOAD_ATTEMPTS,
        s.telemetry_events == 1,
{
}

/// Fallback behavior: a failed primary transfer retries against the
/// fallback location when the asset names one, and a run that goes on to
/// succeed that way records that the staged archive came from the
/// fallback.
pub proof fn lemma_fallback_is_used(p: DownloadPipeline)
    requires
        p.wf(),
        p.phase is DownloadingPrimary,
        p.asset->0.fallback_url is Some,
    ensures
        p.step_spec(PipelineEvent::DownloadFinished(false)).0.phase is DownloadingFallback,
        p.step_spec(PipelineEvent::DownloadFinished(false)).1 == (PipelineAction::Download {
            url: p.asset->0.fallback_url->0,
            from_mirror: p.asset->0.source is Mirror,
        }),
        p.step_spec(PipelineEvent::DownloadFinished(false)).0.step_spec(
            PipelineEvent::DownloadFinished(true),
        ).0.phase is Extracting,
        p.step_spec(PipelineEvent::DownloadFinished(false)).0.step_spec(
            PipelineEvent::DownloadFinished(true),
        ).0.staged_from_fallback,
{
}

} // verus!
