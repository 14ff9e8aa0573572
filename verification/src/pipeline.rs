//! The per-release pipeline as a state machine, and the policies the
//! runner around it follows.
//!
//! One unit of work carries one resolved download through download,
//! verification and unpacking.  The runner performs the outside steps
//! and feeds their outcomes back as events; every decision — which
//! state follows which outcome, that a failure sticks, that units never
//! see each other — is taken here.

use vstd::prelude::*;

verus! {

/// Why a unit of work failed.
#[derive(Debug, Clone, Copy, PartialEq, Eq, Structural)]
pub enum UnitError {
    /// The payload asset's suffix is unsupported; decided before any
    /// network traffic.
    Resolution,
    /// Listing, download or manifest fetch failed on the wire.
    Transport,
    /// The payload's digest does not match the manifest.
    Validation,
    /// Decompression, archive reading or writing entries failed.
    Extraction,
}

/// Where one unit of work stands.
#[derive(Debug, Clone, Copy, PartialEq, Eq, Structural)]
pub enum UnitState {
    /// The release is resolved and scheduled.
    Selected,
    /// The payload is streaming to disk.
    Downloading,
    /// The payload is on disk.
    Downloaded,
    /// The payload is being checked against its manifest.
    Validating,
    /// The digest matched.
    Validated,
    /// The release publishes no manifest; verification is skipped.
    SkippedNoManifest,
    /// A pre-existing install at the target path is being removed.
    OverwriteCheck,
    /// The archive is being unpacked into the install path.
    Unpacking,
    /// The release is installed.
    Installed,
    /// The unit failed; no later event revives it.
    Failed(UnitError),
}

/// The outcome of one outside step, handed back by the runner.
#[derive(Debug, Clone, Copy, PartialEq, Eq, Structural)]
pub enum UnitEvent {
    /// The download began.
    DownloadStarted,
    /// The download finished, or broke on the wire.
    DownloadFinished(bool),
    /// Whether the release carries a checksum manifest.
    ManifestPresent(bool),
    /// The manifest could not be fetched.
    ManifestFetchFailed,
    /// The digest comparison finished with this result.
    HashChecked(bool),
    /// Verification is settled; the install path is next.
    OverwriteCheckStarted,
    /// Any pre-existing install was removed, or removal failed.
    OverwriteCleared(bool),
    /// Unpacking finished, or failed.
    UnpackFinished(bool),
    /// The step itself faulted with this error.
    Faulted(UnitError),
}

/// The state that follows `s` when the runner reports `e`.  A failed
/// unit absorbs every event; an event that does not belong to the
/// current state changes nothing.
pub open spec fn spec_step(s: UnitState, e: UnitEvent) -> UnitState {
    match s {
        UnitState::Failed(_) => s,
        _ => match e {
            UnitEvent::DownloadStarted => if s is Selected {
                UnitState::Downloading
            } else {
                s
            },
            UnitEvent::DownloadFinished(ok) => if s is Downloading {
                if ok {
                    UnitState::Downloaded
                } else {
                    UnitState::Failed(UnitError::Transport)
                }
            } else {
                s
            },
            UnitEvent::ManifestPresent(present) => if s is Downloaded {
                if present {
                    UnitState::Validating
                } else {
                    UnitState::SkippedNoManifest
                }
            } else {
                s
            },
            UnitEvent::ManifestFetchFailed => if s is Validating {
                UnitState::Failed(UnitError::Transport)
            } else {
                s
            },
            UnitEvent::HashChecked(matched) => if s is Validating {
                if matched {
                    UnitState::Validated
                } else {
                    UnitState::Failed(UnitError::Validation)
                }
            } else {
                s
            },
            UnitEvent::OverwriteCheckStarted => if s is Validated || s is SkippedNoManifest {
                UnitState::OverwriteCheck
            } else {
                s
            },
            UnitEvent::OverwriteCleared(ok) => if s is OverwriteCheck {
                if ok {
                    UnitState::Unpacking
                } else {
                    UnitState::Failed(UnitError::Extraction)
                }
            } else {
                s
            },
            UnitEvent::UnpackFinished(ok) => if s is Unpacking {
                if ok {
                    UnitState::Installed
                } else {
                    UnitState::Failed(UnitError::Extraction)
                }
            } else {
                s
            },
            UnitEvent::Faulted(err) => UnitState::Failed(err),
        },
    }
}

/// Advances one unit of work by one reported outcome.
pub fn step(s: UnitState, e: UnitEvent) -> (r: UnitState)
    ensures
        r == spec_step(s, e),
{
    match s {
        UnitState::Failed(_) => s,
        _ => match e {
            UnitEvent::DownloadStarted => if matches!(s, UnitState::Selected) {
                UnitState::Downloading
            } else {
                s
            },
            UnitEvent::DownloadFinished(ok) => if matches!(s, UnitState::Downloading) {
                if ok {
                    UnitState::Downloaded
                } else {
                    UnitState::Failed(UnitError::Transport)
                }
            } else {
                s
            },
            UnitEvent::ManifestPresent(present) => if matches!(s, UnitState::Downloaded) {
                if present {
                    UnitState::Validating
                } else {
                    UnitState::SkippedNoManifest
                }
            } else {
                s
            },
            UnitEvent::ManifestFetchFailed => if matches!(s, UnitState::Validating) {
                UnitState::Failed(UnitError::Transport)
            } else {
                s
            },
            UnitEvent::HashChecked(matched) => if matches!(s, UnitState::Validating) {
                if matched {
                    UnitState::Validated
                } else {
                    UnitState::Failed(UnitError::Validation)
                }
            } else {
                s
            },
            UnitEvent::OverwriteCheckStarted => if matches!(
                s,
                UnitState::Validated | UnitState::SkippedNoManifest,
            ) {
                UnitState::OverwriteCheck
            } else {
                s
            },
            UnitEvent::OverwriteCleared(ok) => if matches!(s, UnitState::OverwriteCheck) {
                if ok {
                    UnitState::Unpacking
                } else {
                    UnitState::Failed(UnitError::Extraction)
                }
            } else {
                s
            },
            UnitEvent::UnpackFinished(ok) => if matches!(s, UnitState::Unpacking) {
                if ok {
                    UnitState::Installed
                } else {
                    UnitState::Failed(UnitError::Extraction)
                }
            } else {
                s
            },
            UnitEvent::Faulted(err) => UnitState::Failed(err),
        },
    }
}

/// The state a unit reaches from `s` after the events `es`, in order.
pub open spec fn spec_run(s: UnitState, es: Seq<UnitEvent>) -> UnitState
    decreases es.len(),
{
    if es.len() == 0 {
        s
    } else {
        spec_run(spec_step(s, es[0]), es.skip(1))
    }
}

/// Runs one unit of work from [`UnitState::Selected`] through the
/// reported outcomes `events`.
pub fn run_unit(events: &Vec<UnitEvent>) -> (r: UnitState)
    ensures
        r == spec_run(UnitState::Selected, events@),
{
    let mut s = UnitState::Selected;
    let mut i: usize = 0;
    proof {
        assert(events@.skip(0) =~= events@);
    }
    while i < events.len()
        invariant
            0 <= i <= events@.len(),
            spec_run(s, events@.skip(i as int)) == spec_run(UnitState::Selected, events@),
        decreases events@.len() - i,
    {
        proof {
            assert(events@.skip(i as int)[0] == events@[i as int]);
            assert(events@.skip(i as int).skip(1) =~= events@.skip(i + 1));
        }
        s = step(s, events[i]);
        i = i + 1;
    }
    proof {
        assert(events@.skip(events@.len() as int) =~= Seq::<UnitEvent>::empty());
    }
    s
}

/// Runs a batch of units, each from [`UnitState::Selected`] through its
/// own events: the outcome at each position is a function of that
/// unit's events alone, so no unit's failure reaches another.
pub fn run_units(units: &Vec<Vec<UnitEvent>>) -> (r: Vec<UnitState>)
    ensures
        r@.len() == units@.len(),
        forall|i: int|
            0 <= i < units@.len() ==> r@[i] == spec_run(UnitState::Selected, units@[i]@),
{
    let mut out: Vec<UnitState> = Vec::new();
    let mut i: usize = 0;
    while i < units.len()
        invariant
            0 <= i <= units@.len(),
            out@.len() == i,
            forall|j: int|
                0 <= j < i ==> out@[j] == spec_run(UnitState::Selected, units@[j]@),
        decreases units@.len() - i,
    {
        let s = run_unit(&units[i]);
        out.push(s);
        i = i + 1;
    }
    out
}

/// A failure sticks: whatever events still arrive, a failed unit stays
/// failed with its original error.
pub proof fn lemma_failure_sticks(err: UnitError, es: Seq<UnitEvent>)
    ensures
        spec_run(UnitState::Failed(err), es) == UnitState::Failed(err),
    decreases es.len(),
{
    if es.len() > 0 {
        lemma_failure_sticks(err, es.skip(1));
    }
}

/// Units are isolated: in any two batches, a unit that is handed the
/// same events reaches the same state, whatever happens to the units
/// around it.
pub proof fn lemma_unit_isolation(a: Seq<Seq<UnitEvent>>, b: Seq<Seq<UnitEvent>>, i: int)
    requires
        0 <= i < a.len(),
        0 <= i < b.len(),
        a[i] == b[i],
    ensures
        spec_run(UnitState::Selected, a[i]) == spec_run(UnitState::Selected, b[i]),
{
}

/// The overwrite policy, read off the machine: a unit starts unpacking
/// only from the overwrite check, and only once the pre-existing
/// install was cleared; and it counts as installed only out of
/// unpacking, and only once unpacking succeeded.  So whatever stood at
/// the install path is gone before any entry of a run is written —
/// running the pipeline twice leaves the second run's content alone.
pub proof fn lemma_overwrite_precedes_install(s: UnitState, e: UnitEvent)
    ensures
        spec_step(s, e) == UnitState::Unpacking && s != UnitState::Unpacking ==> s
            == UnitState::OverwriteCheck && e == UnitEvent::OverwriteCleared(true),
        spec_step(s, e) == UnitState::Installed && s != UnitState::Installed ==> s
            == UnitState::Unpacking && e == UnitEvent::UnpackFinished(true),
{
}

/// Where a single download subscription stands, for a front end that
/// polls its progress.
#[derive(Debug, Clone, PartialEq)]
pub enum State {
    /// The download has not started; holds its URL.
    Ready(String),
    /// Bytes are arriving.
    Downloading { total: u64, downloaded: u64 },
    /// The download ended.
    Finished,
}

/// Advances a download subscription by a progress reading: starting
/// fixes the total, a reading moves the byte count, a finished
/// download stays finished.
pub fn advance_state(state: State, total: u64, read_position: u64) -> (r: State)
    ensures
        state is Ready ==> r == (State::Downloading { total, downloaded: 0u64 }),
        state matches State::Downloading { total: t, downloaded: _ } ==> r == (State::Downloading {
            total: t,
            downloaded: read_position,
        }),
        state is Finished ==> r == State::Finished,
{
    match state {
        State::Ready(_) => State::Downloading { total, downloaded: 0 },
        State::Downloading { total: t, downloaded: _ } => State::Downloading {
            total: t,
            downloaded: read_position,
        },
        State::Finished => State::Finished,
    }
}

/// Whether a resolved release should be downloaded at all: an install
/// that is not on disk always is; one already on disk only with the
/// user's confirmation to overwrite it.
pub fn should_download(already_installed: bool, confirmed_overwrite: bool) -> (r: bool)
    ensures
        r == (!already_installed || confirmed_overwrite),
{
    !already_installed || confirmed_overwrite
}

/// The cumulative byte count after a chunk of `chunk` bytes, capped at
/// the declared total so a lying server cannot push the progress past
/// its end.
pub fn advance_progress(downloaded: u64, chunk: u64, total: u64) -> (r: u64)
    requires
        downloaded <= total,
    ensures
        r == (if downloaded + chunk <= total {
            downloaded + chunk
        } else {
            total as int
        }),
{
    if chunk <= total - downloaded {
        downloaded + chunk
    } else {
        total
    }
}

} // verus!
