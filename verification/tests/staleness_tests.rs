use scriptisto::opt::BuildMode;
use scriptisto::staleness::{
    decide, detect, is_newer, scan_needed, Decision, Scan, ScanStep, TooManyFiles, SCAN_LIMIT,
};

#[test]
fn missing_times_are_the_oldest() {
    assert!(is_newer(Some(1), None));
    assert!(!is_newer(None, None));
    assert!(!is_newer(None, Some(1)));
    assert!(is_newer(Some(2), Some(1)));
    assert!(!is_newer(Some(1), Some(1)));
}

#[test]
fn first_run_has_no_marker() {
    let d = detect(None, Some(10), &vec![], BuildMode::Default);
    assert_eq!(d, Ok(Decision { first_run: true, skip_rebuild: false }));
}

#[test]
fn fresh_marker_skips_the_rebuild() {
    let d = detect(Some(20), Some(10), &vec![], BuildMode::Default);
    assert_eq!(d, Ok(Decision { first_run: false, skip_rebuild: true }));
}

#[test]
fn detector_says_the_same_twice() {
    let stamps = vec![Some(3), None, Some(7)];
    let first = detect(Some(20), Some(10), &stamps, BuildMode::Default);
    let second = detect(Some(20), Some(10), &stamps, BuildMode::Default);
    assert_eq!(first, second);
    assert_eq!(first, Ok(Decision { first_run: false, skip_rebuild: true }));
}

#[test]
fn script_newer_than_marker_rebuilds() {
    let d = detect(Some(10), Some(10), &vec![], BuildMode::Default);
    assert_eq!(d, Ok(Decision { first_run: false, skip_rebuild: false }));
    let d = detect(Some(10), Some(11), &vec![], BuildMode::Default);
    assert_eq!(d, Ok(Decision { first_run: false, skip_rebuild: false }));
}

#[test]
fn extra_file_touched_after_marker_rebuilds() {
    let d = detect(Some(20), Some(10), &vec![Some(5), Some(25)], BuildMode::Default);
    assert_eq!(d, Ok(Decision { first_run: false, skip_rebuild: false }));
    let d = detect(Some(20), Some(10), &vec![Some(20)], BuildMode::Default);
    assert_eq!(d, Ok(Decision { first_run: false, skip_rebuild: false }));
}

#[test]
fn extra_file_touched_before_marker_skips() {
    let d = detect(Some(20), Some(10), &vec![Some(5), Some(19), None], BuildMode::Default);
    assert_eq!(d, Ok(Decision { first_run: false, skip_rebuild: true }));
}

#[test]
fn forcing_modes_never_skip() {
    for mode in [BuildMode::Source, BuildMode::Full] {
        let d = detect(Some(20), Some(10), &vec![Some(5)], mode);
        assert_eq!(d, Ok(Decision { first_run: false, skip_rebuild: false }));
    }
}

#[test]
fn scan_is_not_needed_when_the_script_is_newer() {
    assert!(scan_needed(Some(2), Some(1)));
    assert!(!scan_needed(Some(1), Some(2)));
    assert!(!scan_needed(None, Some(2)));
    // A stale script hides even a pathological tree.
    let many = vec![Some(1); SCAN_LIMIT as usize + 1];
    let d = detect(Some(1), Some(2), &many, BuildMode::Default);
    assert_eq!(d, Ok(Decision { first_run: false, skip_rebuild: false }));
}

#[test]
fn scan_stops_at_its_limit() {
    let at_limit = vec![Some(1); SCAN_LIMIT as usize];
    assert_eq!(
        detect(Some(20), Some(10), &at_limit, BuildMode::Default),
        Ok(Decision { first_run: false, skip_rebuild: true })
    );
    let over = vec![Some(1); SCAN_LIMIT as usize + 1];
    assert_eq!(detect(Some(20), Some(10), &over, BuildMode::Default), Err(TooManyFiles));
}

#[test]
fn stale_file_ends_the_scan_before_the_limit() {
    let mut stamps = vec![Some(30)];
    stamps.extend(vec![Some(1); SCAN_LIMIT as usize + 10]);
    assert_eq!(
        detect(Some(20), Some(10), &stamps, BuildMode::Default),
        Ok(Decision { first_run: false, skip_rebuild: false })
    );
}

#[test]
fn observe_tracks_the_newest_time() {
    let scan = Scan::new();
    assert_eq!(scan, Scan { newest: None, scanned: 0 });
    let step = scan.observe(100, Some(5));
    assert_eq!(step, ScanStep::Continue(Scan { newest: Some(5), scanned: 1 }));
    let scan = Scan { newest: Some(5), scanned: 1 };
    assert_eq!(scan.observe(100, Some(3)), ScanStep::Continue(Scan { newest: Some(5), scanned: 2 }));
    assert_eq!(scan.observe(100, None), ScanStep::Continue(Scan { newest: Some(5), scanned: 2 }));
    assert_eq!(scan.observe(100, Some(100)), ScanStep::Stale(Scan { newest: Some(100), scanned: 2 }));
    let full = Scan { newest: None, scanned: SCAN_LIMIT };
    assert_eq!(full.observe(100, Some(1)), ScanStep::TooManyFiles);
}

#[test]
fn run_reports_the_newest_time_seen() {
    let scan = Scan::new().run(100, &vec![Some(4), None, Some(9), Some(2)]);
    assert_eq!(scan, Ok(Scan { newest: Some(9), scanned: 4 }));
    let scan = Scan::new().run(100, &vec![Some(4), Some(150), Some(9)]);
    assert_eq!(scan, Ok(Scan { newest: Some(150), scanned: 2 }));
}

#[test]
fn decide_combines_the_three_times() {
    assert_eq!(
        decide(Some(20), Some(10), Some(15), BuildMode::Default),
        Decision { first_run: false, skip_rebuild: true }
    );
    assert_eq!(
        decide(Some(20), Some(10), Some(20), BuildMode::Default),
        Decision { first_run: false, skip_rebuild: false }
    );
    assert_eq!(
        decide(Some(20), Some(10), None, BuildMode::Source),
        Decision { first_run: false, skip_rebuild: false }
    );
    assert_eq!(
        decide(None, None, None, BuildMode::Default),
        Decision { first_run: true, skip_rebuild: false }
    );
}
