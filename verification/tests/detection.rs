use hastic::analytic_unit::get_detections;
use hastic::services::analytic_service::analytic_unit::anomaly_analytic_unit::{
    aligned_timestamp_fits, anomaly_runs, check_learning_series, current_learning_range, detection_query_range,
    get_value_with_offset, learning_range, learning_range_at, sarima_prediction_index,
    season_sample_positions, season_samples_in_range, AnomalyDetectError,
    SarimaError,
};
use hastic::services::analytic_service::analytic_unit::pattern_analytic_unit::{
    avg_pattern_length, detect_windows, has_label_segment, split_learning_data, SegData,
};
use hastic::services::analytic_service::analytic_unit::runs::{collect_runs, runs_until};
use hastic::services::analytic_service::analytic_unit::threshold_analytic_unit::ThresholdAnalyticUnit;
use hastic::services::analytic_service::analytic_unit::types::{
    AnalyticUnitConfig, LearningResult, ThresholdConfig,
};
use hastic::services::analytic_service::detection_runner::DetectionWindow;
use hastic::services::analytic_service::get_threshold_detections;
use hastic::services::segments_service::{Segment, SegmentType, ID_LENGTH};

fn marks_of(ts: &[(u64, f64)], threshold: f64) -> Vec<(u64, bool)> {
    ts.iter().map(|(t, v)| (*t, *v > threshold)).collect()
}

#[test]
fn runs_of_marked_points() {
    let marks = vec![(0, false), (10, true), (20, true), (30, false), (40, true), (50, true)];
    let (closed, open) = collect_runs(&marks);
    assert_eq!(closed, vec![(10, 30)]);
    assert_eq!(open, Some(40));
    assert_eq!(runs_until(&marks, 99), vec![(10, 30), (40, 99)]);
    assert_eq!(collect_runs(&vec![]), (vec![], None));
}

#[test]
fn runs_cover_exactly_the_marked_points() {
    let marks = vec![(0, true), (10, false), (20, true), (30, true), (40, false), (50, false), (60, true)];
    let runs = runs_until(&marks, 1000);
    for (t, m) in &marks {
        let covered = runs.iter().any(|(a, b)| a <= t && t < b);
        assert_eq!(*m, covered);
    }
    for w in runs.windows(2) {
        assert!(w[0].0 < w[0].1 && w[0].1 < w[1].0);
    }
}

#[test]
fn threshold_unit_detects_runs_above_threshold() {
    let mut u = ThresholdAnalyticUnit::new("1".to_string(), ThresholdConfig { threshold: 5.0f64.to_bits() });
    assert_eq!(u.get_id(), "1");
    assert_eq!(u.get_detection_window(), 10);
    assert_eq!(u.learn(), LearningResult::Finished);
    let ts = [(0, 1.0), (10, 6.0), (20, 7.0), (30, 2.0), (40, 9.0), (50, 9.5)];
    let th = f64::from_bits(u.threshold());
    let r = u.detect(&marks_of(&ts, th));
    assert_eq!(r, vec![(10, 30), (40, 50)]);
    assert_eq!(u.detect(&vec![]), vec![]);
    u.set_config(AnalyticUnitConfig::Threshold(ThresholdConfig { threshold: 8.0f64.to_bits() }));
    let r = u.detect(&marks_of(&ts, f64::from_bits(u.threshold())));
    assert_eq!(r, vec![(40, 50)]);
}

#[test]
fn threshold_detections_end_at_requested_to() {
    let marks = vec![(0, false), (10, true), (20, false), (30, true)];
    let segs = get_threshold_detections(&marks, 100);
    let b: Vec<(u64, u64)> = segs.iter().map(|s| (s.from, s.to)).collect();
    assert_eq!(b, vec![(10, 20), (30, 100)]);
    for s in &segs {
        assert_eq!(s.segment_type, SegmentType::Detection);
        assert_eq!(s.id.as_ref().unwrap().len(), ID_LENGTH);
    }
    assert_ne!(segs[0].id, segs[1].id);
}

#[test]
fn old_detections_drop_open_run() {
    let marks = vec![(0, true), (10, false), (20, true)];
    let r = get_detections(&marks);
    assert_eq!(r.len(), 1);
    assert_eq!((r[0].from, r[0].to), (0, 10));
    assert!(r[0].id.is_none());
}

#[test]
fn anomaly_runs_and_errors() {
    let pts = vec![(0, 0, false), (10, 10, true), (20, 20, false), (30, 30, true)];
    assert_eq!(anomaly_runs(&pts, 30), Ok(vec![(10, 20), (30, 30)]));
    let bad = vec![(0, 0, false), (10, 11, true)];
    assert_eq!(anomaly_runs(&bad, 30), Err(AnomalyDetectError::IncompatibleHsr));
    assert_eq!(anomaly_runs(&vec![], 30), Ok(vec![]));
}

#[test]
fn value_with_offset() {
    let ts = vec![(0u64, 1.0f64), (10, 2.0), (20, 3.0), (30, 4.0)];
    assert_eq!(get_value_with_offset(&ts, 0), Some((30, 4.0)));
    assert_eq!(get_value_with_offset(&ts, 19), Some((20, 3.0)));
    assert_eq!(get_value_with_offset(&ts, 30), Some((0, 1.0)));
    assert_eq!(get_value_with_offset(&ts, 40), None);
}

#[test]
fn prediction_index_is_seasonal() {
    // model of 6 points (one minute of seasonality at a 10 s step) starting at 1000
    assert_eq!(sarima_prediction_index(1000, 60, 6, 1000), 0);
    assert_eq!(sarima_prediction_index(1000, 60, 6, 1025), 2);
    assert_eq!(sarima_prediction_index(1000, 60, 6, 1085), 2);
    assert_eq!(sarima_prediction_index(1000, 60, 6, 1145), 2);
    // before the model's start: moved forward by whole seasons
    assert_eq!(sarima_prediction_index(1000, 60, 6, 970), 3);
    assert_eq!(sarima_prediction_index(1000, 60, 6, 940), 0);
    assert_eq!(sarima_prediction_index(1000, 60, 6, 880), 0);
}

#[test]
fn learning_series_checks() {
    assert_eq!(check_learning_series(1, 0, 0, 60, 3), Err(SarimaError::TooShort(1)));
    assert_eq!(check_learning_series(0, 0, 0, 60, 3), Err(SarimaError::TooShort(0)));
    assert_eq!(check_learning_series(10, 0, 170, 60, 3), Err(SarimaError::BadSpan));
    assert_eq!(check_learning_series(19, 0, 180, 60, 3), Ok(6));
}

#[test]
fn learning_ranges() {
    assert_eq!(learning_range(10_000, 3600, 2), (2800, 10_000));
    let (from, to) = current_learning_range(3600, 3).unwrap();
    assert_eq!(to - from, 10_800);
    assert!(to > 1_600_000_000);
    assert_eq!(current_learning_range(u64::MAX, 2), None);
    assert_eq!(detection_query_range(1000, 2000, 60), (700, 2000));
}

#[test]
fn pattern_windows_merge() {
    let times: Vec<u64> = (0..10).map(|i| i * 10).collect();
    // windows of 3 points: starts 0..=7
    let hits = vec![false, true, true, false, false, true, false, true];
    let r = detect_windows(&times, 3, &hits);
    assert_eq!(r, vec![(10, 40), (50, 70), (70, 90)]);
    // touching intervals are merged while scanning
    let hits = vec![true, false, true, false, false, false, false, false];
    assert_eq!(detect_windows(&times, 3, &hits), vec![(0, 40)]);
    // a series shorter than one window gives nothing
    assert_eq!(detect_windows(&times, 11, &vec![]), vec![]);
}

#[test]
fn pattern_learning_data() {
    let segs = vec![
        Segment { id: None, from: 0, to: 10, segment_type: SegmentType::Detection },
        Segment { id: None, from: 20, to: 30, segment_type: SegmentType::Label },
    ];
    assert!(has_label_segment(&segs));
    assert!(!has_label_segment(&segs[..1].to_vec()));
    let rs = vec![
        Some(SegData { label: true, data: vec![1, 2, 3] }),
        Some(SegData { label: false, data: vec![4] }),
        Some(SegData { label: true, data: vec![] }),
        Some(SegData { label: true, data: vec![5, 6] }),
    ];
    let (p, a) = split_learning_data(rs).unwrap();
    assert_eq!(p, vec![vec![1, 2, 3], vec![5, 6]]);
    assert_eq!(a, vec![vec![4]]);
    assert_eq!(avg_pattern_length(&p, &a), 2);
    let failed: Vec<Option<SegData<u8>>> = vec![Some(SegData { label: true, data: vec![1] }), None];
    assert!(split_learning_data(failed).is_none());
}

#[test]
fn detection_window_moves_by_step() {
    let w = DetectionWindow::first(1000, 10);
    assert_eq!((w.from, w.to), (990, 1000));
    let w = w.next(10);
    assert_eq!((w.from, w.to), (1000, 1010));
}

#[test]
fn aligned_timestamp_bounds() {
    assert!(aligned_timestamp_fits(1000, 60, 2000));
    assert!(aligned_timestamp_fits(1000, 60, 940));
    assert!(aligned_timestamp_fits(1000, 60, 970));
    assert!(aligned_timestamp_fits(u64::MAX, 60, u64::MAX - 120));
    assert!(!aligned_timestamp_fits(u64::MAX, 60, u64::MAX - 100));
}

#[test]
fn pattern_detections_are_ordered() {
    let times: Vec<u64> = (0..20).map(|i| i * 10).collect();
    let hits: Vec<bool> = (0..18).map(|k| k % 5 != 0).collect();
    let r = detect_windows(&times, 3, &hits);
    assert!(!r.is_empty());
    for (a, b) in &r {
        assert!(a <= b);
    }
    for w in r.windows(2) {
        assert!(w[0].0 < w[1].0);
    }
}

#[test]
fn learning_range_at_edges() {
    assert_eq!(learning_range_at(10_000, 3600, 2), Some((2800, 10_000)));
    assert_eq!(learning_range_at(100, 60, 2), None);
    assert_eq!(learning_range_at(120, 60, 2), Some((0, 120)));
    assert_eq!(learning_range_at(5, u64::MAX, 2), None);
    assert_eq!(learning_range_at(0, 0, 7), Some((0, 0)));
}

#[test]
fn prediction_repeats_each_season_before_model_start() {
    assert_eq!(sarima_prediction_index(1000, 60, 6, 910), sarima_prediction_index(1000, 60, 6, 970));
    assert_eq!(sarima_prediction_index(1000, 60, 6, 910), 3);
    assert_eq!(sarima_prediction_index(1000, 60, 6, 950), sarima_prediction_index(1000, 60, 6, 1010));
    assert_eq!(sarima_prediction_index(1000, 60, 6, 950), 1);
}

#[test]
fn season_sample_positions_cover_each_season() {
    // 3 steps per season, 2 seasons, 7 points
    assert!(season_samples_in_range(7, 3, 2));
    let p = season_sample_positions(7, 3, 2);
    assert_eq!(p, vec![(vec![0, 3], 4), (vec![1, 4], 5), (vec![2, 5], 6)]);
    assert!(season_samples_in_range(6, 3, 2));
    assert!(!season_samples_in_range(5, 3, 2));
    assert!(!season_samples_in_range(2, 3, 0));
    assert!(season_samples_in_range(0, 0, 5));
    assert!(season_sample_positions(0, 0, 5).is_empty());
    assert_eq!(season_sample_positions(4, 2, 0), vec![(Vec::<usize>::new(), 2), (Vec::<usize>::new(), 3)]);
}
