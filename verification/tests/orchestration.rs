use bing_wallpaper::coordinator::Attempt;
use bing_wallpaper::coordinator::Outcome;
use bing_wallpaper::coordinator::Phase;
use bing_wallpaper::coordinator::UpdateError;
use bing_wallpaper::coordinator::run_once;
use bing_wallpaper::dedup::WallpaperState;
use bing_wallpaper::feed::image_request_url;

const BODY_ABC: &[u8] = br#"{"images":[{"url":"/th?id=ABC"}]}"#;
const BODY_DEF: &[u8] = br#"{"images":[{"url":"/th?id=DEF"}]}"#;

#[test]
fn end_to_end_scenario() {
    let mut state = WallpaperState::new();
    assert_eq!(state.last_identifier(), None);

    // First attempt, step by step: fetch, dedup, download, apply.
    let mut attempt = Attempt::new();
    attempt.on_metadata(&mut state, Some(BODY_ABC));
    let image_id = match &attempt.phase {
        Phase::Downloading { image_id } => image_id.clone(),
        other => panic!("expected a download to be requested, got {:?}", phase_name(other)),
    };
    assert_eq!(image_id, b"/th?id=ABC".to_vec());
    assert_eq!(
        image_request_url(&image_id),
        b"https://s.cn.bing.net/th?id=ABC".to_vec()
    );
    attempt.on_download(Some("C:\\tmp\\wallpaper.jpg".to_string()));
    match &attempt.phase {
        Phase::Applying { image_id, asset } => {
            assert_eq!(image_id, &b"/th?id=ABC".to_vec());
            assert_eq!(asset, "C:\\tmp\\wallpaper.jpg");
        },
        other => panic!("expected an apply to be requested, got {:?}", phase_name(other)),
    }
    attempt.on_apply(true);
    match &attempt.phase {
        Phase::Finished { result } => assert_eq!(*result, Ok(Outcome::Applied)),
        other => panic!("expected the attempt to be finished, got {:?}", phase_name(other)),
    }
    assert_eq!(state.last_identifier(), Some(&b"/th?id=ABC".to_vec()));

    // Second attempt with the identical document: refused at the dedup check,
    // no download and no apply is ever requested.
    let mut second = Attempt::new();
    second.on_metadata(&mut state, Some(BODY_ABC));
    match &second.phase {
        Phase::Finished { result } => assert_eq!(*result, Ok(Outcome::Skipped)),
        other => panic!("expected an immediate skip, got {:?}", phase_name(other)),
    }
    assert_eq!(state.last_identifier(), Some(&b"/th?id=ABC".to_vec()));
}

fn phase_name(phase: &Phase) -> &'static str {
    match phase {
        Phase::FetchingMetadata => "FetchingMetadata",
        Phase::Downloading { .. } => "Downloading",
        Phase::Applying { .. } => "Applying",
        Phase::Finished { .. } => "Finished",
    }
}

#[test]
fn repeated_identifier_only_first_attempt_applies() {
    let mut state = WallpaperState::new();
    assert_eq!(run_once(&mut state, Some(BODY_ABC), Some("/tmp/a.jpg".to_string()), true), Ok(Outcome::Applied));
    assert_eq!(run_once(&mut state, Some(BODY_ABC), Some("/tmp/b.jpg".to_string()), true), Ok(Outcome::Skipped));
    assert_eq!(run_once(&mut state, Some(BODY_ABC), Some("/tmp/c.jpg".to_string()), true), Ok(Outcome::Skipped));
    assert_eq!(state.last_identifier(), Some(&b"/th?id=ABC".to_vec()));
}

#[test]
fn changed_identifier_applies_again() {
    let mut state = WallpaperState::new();
    assert_eq!(run_once(&mut state, Some(BODY_ABC), Some("/tmp/a.jpg".to_string()), true), Ok(Outcome::Applied));
    assert_eq!(run_once(&mut state, Some(BODY_DEF), Some("/tmp/b.jpg".to_string()), true), Ok(Outcome::Applied));
    assert_eq!(state.last_identifier(), Some(&b"/th?id=DEF".to_vec()));
}

#[test]
fn same_candidate_race_lets_exactly_one_proceed() {
    // Two concurrent attempts that fetched the same identifier are serialized
    // by the cell's lock into two try_advance calls; whichever runs first
    // wins, the other is refused.
    let mut state = WallpaperState::new();
    let candidate = b"/th?id=ABC".to_vec();
    let first = state.try_advance(&candidate);
    let second = state.try_advance(&candidate);
    assert!(first);
    assert!(!second);
    assert_eq!(state.last_identifier(), Some(&candidate));
}

#[test]
fn transport_failure_is_a_metadata_error() {
    let mut state = WallpaperState::new();
    assert_eq!(run_once(&mut state, None, Some("/tmp/a.jpg".to_string()), true), Err(UpdateError::Metadata));
    assert_eq!(state.last_identifier(), None);
}

#[test]
fn unreadable_document_is_a_metadata_error() {
    let mut state = WallpaperState::new();
    assert_eq!(run_once(&mut state, Some(b"not json"), Some("/tmp/a.jpg".to_string()), true), Err(UpdateError::Metadata));
    assert_eq!(state.last_identifier(), None);
}

#[test]
fn failed_download_is_a_download_error_and_keeps_the_identifier() {
    let mut state = WallpaperState::new();
    assert_eq!(run_once(&mut state, Some(BODY_ABC), None, true), Err(UpdateError::Download));
    // The cell moved before the download began; the next attempt with the
    // same identifier is refused rather than retried.
    assert_eq!(state.last_identifier(), Some(&b"/th?id=ABC".to_vec()));
    assert_eq!(run_once(&mut state, Some(BODY_ABC), Some("/tmp/a.jpg".to_string()), true), Ok(Outcome::Skipped));
}

#[test]
fn failed_apply_is_an_apply_error() {
    let mut state = WallpaperState::new();
    assert_eq!(run_once(&mut state, Some(BODY_ABC), Some("/tmp/a.jpg".to_string()), false), Err(UpdateError::Apply));
}
