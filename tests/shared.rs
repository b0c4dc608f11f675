use loudness::batch::{FilePlan, FileReport, Session, SnapshotSource};
use loudness::measure::MeasureError;
use loudness::shared::SharedSession;

fn key(s: &str) -> String {
    s.to_string()
}

#[test]
fn shared_session_stores_the_first_result_only() {
    let s = SharedSession::new(Session::open(SnapshotSource::Missing).unwrap());
    assert!(s.keeps_cache());
    assert_eq!(s.plan(&key("a")), FilePlan::Measure);
    assert_eq!(s.finish(0, key("a"), Ok((-12.5, 2.0))), FileReport::Measured { value: (-12.5, 2.0), save: true });
    assert_eq!(s.finish(1, key("a"), Ok((-13.5, 3.0))), FileReport::Skipped);
    assert_eq!(s.plan(&key("a")), FilePlan::Skip);
    assert_eq!(s.snapshot(), Some(vec![(key("a"), (-12.5, 2.0))]));
}

#[test]
fn shared_session_without_cache_has_no_snapshot() {
    let s: SharedSession<(f64, f64)> = SharedSession::new(Session::open(SnapshotSource::NotRequested).unwrap());
    assert!(!s.keeps_cache());
    assert_eq!(s.finish(3, key("b"), Err(MeasureError::NoTrack)), FileReport::Failed(MeasureError::NoTrack));
    assert_eq!(s.finish(4, key("b"), Ok((-1.0, 1.0))), FileReport::Measured { value: (-1.0, 1.0), save: false });
    assert_eq!(s.snapshot(), None);
}

#[test]
fn shared_session_keeps_what_it_loaded() {
    let loaded = vec![(key("a"), (-14.0, 1.0)), (key("b"), (-15.0, 2.0))];
    let s = SharedSession::new(Session::open(SnapshotSource::Loaded(loaded.clone())).unwrap());
    assert_eq!(s.plan(&key("a")), FilePlan::Skip);
    assert_eq!(s.plan(&key("b")), FilePlan::Skip);
    assert_eq!(s.plan(&key("c")), FilePlan::Measure);
    assert_eq!(s.finish(7, key("a"), Ok((-1.0, 9.0))), FileReport::Skipped);
    assert_eq!(s.finish(8, key("c"), Ok((-16.0, 3.0))), FileReport::Measured { value: (-16.0, 3.0), save: false });
    let mut expected = loaded;
    expected.push((key("c"), (-16.0, 3.0)));
    assert_eq!(s.snapshot(), Some(expected));
}
