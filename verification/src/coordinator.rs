//! One end-to-end update attempt: fetch, dedup check, download, apply.
//!
//! The attempt is a state machine. The caller performs each outside step —
//! the metadata request, the image download, the OS apply call — and feeds
//! the step's result back; the machine decides what follows. Every failure is
//! terminal for the one attempt and is reported in the final phase, never
//! propagated further: the next scheduled tick or manual trigger is the only
//! recovery path.

use vstd::prelude::*;

use crate::dedup::WallpaperState;
use crate::dedup::try_advance_spec;
use crate::feed::extract_image_url;
use crate::feed::first_image_url;

verus! {

/// The two non-error outcomes of one attempt: the wallpaper was changed, or
/// the feed still carried the identifier already applied and nothing was
/// downloaded.
#[derive(Clone, Copy, Debug, PartialEq, Eq, Structural)]
pub enum Outcome {
    Applied,
    Skipped,
}

/// Which step of an attempt failed. Each failure ends only its own attempt.
#[derive(Clone, Copy, Debug, PartialEq, Eq, Structural)]
pub enum UpdateError {
    Metadata,
    Download,
    Apply,
}

/// Where one attempt stands: which outside step its caller must perform next,
/// or how it ended.
pub enum Phase {
    FetchingMetadata,
    Downloading { image_id: Vec<u8> },
    Applying { image_id: Vec<u8>, asset: String },
    Finished { result: Result<Outcome, UpdateError> },
}

/// The mathematical value of a phase.
pub enum PhaseModel {
    Fetching,
    Downloading { image_id: Seq<u8> },
    Applying { image_id: Seq<u8>, asset: Seq<char> },
    Finished { result: Result<Outcome, UpdateError> },
}

impl View for Phase {
    type V = PhaseModel;

    open spec fn view(&self) -> PhaseModel {
        match self {
            Phase::FetchingMetadata => PhaseModel::Fetching,
            Phase::Downloading { image_id } => PhaseModel::Downloading { image_id: image_id@ },
            Phase::Applying { image_id, asset } => PhaseModel::Applying {
                image_id: image_id@,
                asset: asset@,
            },
            Phase::Finished { result } => PhaseModel::Finished { result: *result },
        }
    }
}

pub open spec fn bytes_of(response: Option<&[u8]>) -> Option<Seq<u8>> {
    match response {
        Some(body) => Some(body@),
        None => None,
    }
}

pub open spec fn chars_of(path: Option<String>) -> Option<Seq<char>> {
    match path {
        Some(path) => Some(path@),
        None => None,
    }
}

/// What the metadata step decides: a missing or unreadable document fails the
/// attempt; an identifier is handed to the dedup guard, which either refuses
/// it (the attempt ends `Skipped`, the cell untouched) or records it (the
/// attempt moves on to the download). The cell moves before any download
/// starts.
pub open spec fn metadata_step(state: Option<Seq<u8>>, response: Option<Seq<u8>>) -> (
    PhaseModel,
    Option<Seq<u8>>,
) {
    match response {
        None => (PhaseModel::Finished { result: Err(UpdateError::Metadata) }, state),
        Some(body) => match first_image_url(body) {
            None => (PhaseModel::Finished { result: Err(UpdateError::Metadata) }, state),
            Some(id) => {
                let (advanced, advanced_state) = try_advance_spec(state, id);
                if advanced {
                    (PhaseModel::Downloading { image_id: id }, advanced_state)
                } else {
                    (PhaseModel::Finished { result: Ok(Outcome::Skipped) }, advanced_state)
                }
            },
        },
    }
}

/// What the download step decides: no local asset fails the attempt; a path
/// to a fully written file moves it on to the apply call.
pub open spec fn download_step(phase: PhaseModel, asset: Option<Seq<char>>) -> PhaseModel
    recommends
        phase is Downloading,
{
    match asset {
        None => PhaseModel::Finished { result: Err(UpdateError::Download) },
        Some(path) => PhaseModel::Applying { image_id: phase->Downloading_image_id, asset: path },
    }
}

/// What the apply step decides: the attempt ends, applied or failed.
pub open spec fn apply_step(applied: bool) -> PhaseModel {
    if applied {
        PhaseModel::Finished { result: Ok(Outcome::Applied) }
    } else {
        PhaseModel::Finished { result: Err(UpdateError::Apply) }
    }
}

/// One update attempt. The caller inspects `phase` to learn which outside
/// step to perform, performs it, and reports the result through the matching
/// `on_` method.
pub struct Attempt {
    pub phase: Phase,
}

impl View for Attempt {
    type V = PhaseModel;

    open spec fn view(&self) -> PhaseModel {
        self.phase@
    }
}

impl Attempt {
    /// A fresh attempt, waiting for the metadata document.
    pub fn new() -> (a: Self)
        ensures
            a@ == PhaseModel::Fetching,
    {
        Attempt { phase: Phase::FetchingMetadata }
    }

    /// Report the metadata request's result: the document's bytes, or `None`
    /// for a transport failure. The identifier is read out of the document
    /// and offered to the dedup guard under `state`'s lock.
    pub fn on_metadata(&mut self, state: &mut WallpaperState, response: Option<&[u8]>)
        requires
            old(self)@ is Fetching,
        ensures
            (final(self)@, final(state)@) == metadata_step(old(state)@, bytes_of(response)),
    {
        match response {
            None => {
                self.phase = Phase::Finished { result: Err(UpdateError::Metadata) };
            },
            Some(body) => {
                match extract_image_url(body) {
                    None => {
                        self.phase = Phase::Finished { result: Err(UpdateError::Metadata) };
                    },
                    Some(id) => {
                        if state.try_advance(&id) {
                            self.phase = Phase::Downloading { image_id: id };
                        } else {
                            self.phase = Phase::Finished { result: Ok(Outcome::Skipped) };
                        }
                    },
                }
            },
        }
    }

    /// Report the download's result: the path of the fully written local
    /// asset, or `None` for a transport or file failure.
    pub fn on_download(&mut self, asset: Option<String>)
        requires
            old(self)@ is Downloading,
        ensures
            final(self)@ == download_step(old(self)@, chars_of(asset)),
    {
        match asset {
            None => {
                self.phase = Phase::Finished { result: Err(UpdateError::Download) };
            },
            Some(path) => {
                let mut taken = Phase::FetchingMetadata;
                core::mem::swap(&mut taken, &mut self.phase);
                match taken {
                    Phase::Downloading { image_id } => {
                        self.phase = Phase::Applying { image_id, asset: path };
                    },
                    _ => {
                        assert(false);
                    },
                }
            },
        }
    }

    /// Report the OS apply call's result. The attempt ends here either way.
    pub fn on_apply(&mut self, applied: bool)
        requires
            old(self)@ is Applying,
        ensures
            final(self)@ == apply_step(applied),
    {
        self.phase = Phase::Finished {
            result: if applied {
                Ok(Outcome::Applied)
            } else {
                Err(UpdateError::Apply)
            },
        };
    }
}

/// One whole attempt, each outside result given up front: the metadata step,
/// then — only if an identifier was recorded — the download, then the apply.
/// The dedup cell moves exactly when the metadata step says so, and keeps the
/// new identifier even if the download or apply then fails.
pub open spec fn run_once_spec(
    state: Option<Seq<u8>>,
    response: Option<Seq<u8>>,
    asset: Option<Seq<char>>,
    applied: bool,
) -> (Result<Outcome, UpdateError>, Option<Seq<u8>>) {
    let (fetched, advanced_state) = metadata_step(state, response);
    match fetched {
        PhaseModel::Finished { result } => (result, advanced_state),
        _ => match download_step(fetched, asset) {
            PhaseModel::Finished { result } => (result, advanced_state),
            _ => (apply_step(applied)->Finished_result, advanced_state),
        },
    }
}

/// Drive one whole attempt from results supplied up front; what each step
/// would have returned is a parameter, so the decision logic is checked for
/// every combination of outside behaviours.
pub fn run_once(
    state: &mut WallpaperState,
    response: Option<&[u8]>,
    asset: Option<String>,
    applied: bool,
) -> (r: Result<Outcome, UpdateError>)
    ensures
        (r, final(state)@) == run_once_spec(old(state)@, bytes_of(response), chars_of(asset), applied),
{
    let mut attempt = Attempt::new();
    attempt.on_metadata(state, response);
    if let Phase::Downloading { .. } = &attempt.phase {
        attempt.on_download(asset);
        if let Phase::Applying { .. } = &attempt.phase {
            attempt.on_apply(applied);
        }
    }
    match &attempt.phase {
        Phase::Finished { result } => *result,
        _ => {
            assert(false);
            Err(UpdateError::Metadata)
        },
    }
}

/// Idempotence under an unchanged identifier: after any attempt that saw a
/// readable document, a second attempt fed the same document is refused by
/// the dedup guard. It returns `Skipped`, leaves the cell alone, and its
/// result does not depend on what a download or apply would have returned —
/// those steps are never reached, so no further network or OS work happens.
pub proof fn lemma_unchanged_identifier_skips(
    state: Option<Seq<u8>>,
    response: Seq<u8>,
    asset_first: Option<Seq<char>>,
    applied_first: bool,
    asset_second: Option<Seq<char>>,
    applied_second: bool,
)
    requires
        first_image_url(response) is Some,
    ensures
        ({
            let (first_result, mid) = run_once_spec(state, Some(response), asset_first, applied_first);
            let (second_result, end) = run_once_spec(mid, Some(response), asset_second, applied_second);
            &&& second_result == Ok::<Outcome, UpdateError>(Outcome::Skipped)
            &&& end == mid
        }),
{
}

/// Race resolution: two concurrent attempts that fetched the same candidate
/// identifier are serialized by the dedup cell's lock into some order; in
/// either order exactly the first proceeds past the dedup check — it
/// downloads and applies, or fails while trying — and the other returns
/// `Skipped` without touching the cell.
pub proof fn lemma_same_identifier_race(
    state: Option<Seq<u8>>,
    response: Seq<u8>,
    id: Seq<u8>,
    asset_first: Option<Seq<char>>,
    applied_first: bool,
    asset_second: Option<Seq<char>>,
    applied_second: bool,
)
    requires
        first_image_url(response) == Some(id),
        state != Some(id),
    ensures
        ({
            let (first_result, mid) = run_once_spec(state, Some(response), asset_first, applied_first);
            let (second_result, end) = run_once_spec(mid, Some(response), asset_second, applied_second);
            &&& first_result != Ok::<Outcome, UpdateError>(Outcome::Skipped)
            &&& mid == Some(id)
            &&& second_result == Ok::<Outcome, UpdateError>(Outcome::Skipped)
            &&& end == mid
        }),
{
}

/// Change detection: identifiers `A` then `B` with `A != B` and working
/// outside steps: the first attempt downloads and applies `A`, the second
/// downloads and applies `B`, and the cell then holds `B`.
pub proof fn lemma_change_detection(
    state: Option<Seq<u8>>,
    response_a: Seq<u8>,
    response_b: Seq<u8>,
    id_a: Seq<u8>,
    id_b: Seq<u8>,
    path_a: Seq<char>,
    path_b: Seq<char>,
)
    requires
        first_image_url(response_a) == Some(id_a),
        first_image_url(response_b) == Some(id_b),
        id_a != id_b,
        state != Some(id_a),
    ensures
        ({
            let (first_result, mid) = run_once_spec(state, Some(response_a), Some(path_a), true);
            let (second_result, end) = run_once_spec(mid, Some(response_b), Some(path_b), true);
            &&& first_result == Ok::<Outcome, UpdateError>(Outcome::Applied)
            &&& mid == Some(id_a)
            &&& second_result == Ok::<Outcome, UpdateError>(Outcome::Applied)
            &&& end == Some(id_b)
        }),
{
}

} // verus!
