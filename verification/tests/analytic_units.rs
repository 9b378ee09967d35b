use hastic::services::analytic_service::analytic_unit::types::{
    get_config_id, AnalyticUnitConfig, AnomalyConfig, PatchConfig, PatternConfig, ThresholdConfig,
};
use hastic::services::analytic_unit_service::{AnalyticUnitRow, AnalyticUnitService};

fn threshold(v: f64) -> ThresholdConfig {
    ThresholdConfig { threshold: v.to_bits() }
}

#[test]
fn default_configs() {
    let p = PatternConfig::default();
    assert_eq!(f32::from_bits(p.correlation_score), 0.3);
    assert_eq!(f32::from_bits(p.anti_correlation_score), 0.1);
    assert_eq!(f32::from_bits(p.model_score), 0.8);
    assert_eq!(f32::from_bits(p.threshold_score), 1.0);
    let a = AnomalyConfig::default();
    assert_eq!(f64::from_bits(a.alpha), 0.5);
    assert_eq!(f64::from_bits(a.confidence), 10.0);
    assert_eq!(a.seasonality, 3600);
    assert_eq!(a.seasonality_iterations, 3);
    assert_eq!(f64::from_bits(ThresholdConfig::default().threshold), 0.5);
}

#[test]
fn patch_same_kind_needs_no_learning() {
    let cfg = AnalyticUnitConfig::Threshold(threshold(1.0));
    let (c, learn) = cfg.patch(PatchConfig::Threshold(Some(threshold(2.0))));
    assert_eq!(c, AnalyticUnitConfig::Threshold(threshold(2.0)));
    assert!(!learn);
    let (c, learn) = cfg.patch(PatchConfig::Threshold(None));
    assert_eq!(c, AnalyticUnitConfig::Threshold(ThresholdConfig::default()));
    assert!(!learn);
}

#[test]
fn patch_other_kind_needs_learning() {
    let cfg = AnalyticUnitConfig::Pattern(PatternConfig::default());
    let (c, learn) = cfg.patch(PatchConfig::Anomaly(None));
    assert_eq!(c, AnalyticUnitConfig::Anomaly(AnomalyConfig::default()));
    assert!(learn);
    let (c, learn) = cfg.patch(PatchConfig::Threshold(Some(threshold(3.0))));
    assert_eq!(c, AnalyticUnitConfig::Threshold(threshold(3.0)));
    assert!(learn);
    let a = AnalyticUnitConfig::Anomaly(AnomalyConfig::default());
    let (c, learn) = a.patch(PatchConfig::Pattern(None));
    assert_eq!(c, AnalyticUnitConfig::Pattern(PatternConfig::default()));
    assert!(learn);
}

#[test]
fn patch_twice_is_stable() {
    let cfg = AnalyticUnitConfig::Pattern(PatternConfig::default());
    let p = PatchConfig::Threshold(Some(threshold(7.5)));
    let (c1, l1) = cfg.patch(p);
    let (c2, l2) = c1.patch(p);
    assert!(l1);
    assert!(!l2);
    assert_eq!(c1, c2);
}

#[test]
fn config_ids() {
    assert_eq!(get_config_id(&AnalyticUnitConfig::Threshold(ThresholdConfig::default())), "1");
    assert_eq!(get_config_id(&AnalyticUnitConfig::Pattern(PatternConfig::default())), "2");
    assert_eq!(get_config_id(&AnalyticUnitConfig::Anomaly(AnomalyConfig::default())), "3");
    assert_eq!(
        AnalyticUnitConfig::get_default_by_id(&"1".to_string()),
        AnalyticUnitConfig::Threshold(ThresholdConfig::default())
    );
    assert_eq!(
        AnalyticUnitConfig::get_default_by_id(&"2".to_string()),
        AnalyticUnitConfig::Pattern(PatternConfig::default())
    );
    assert_eq!(
        AnalyticUnitConfig::get_default_by_id(&"3".to_string()),
        AnalyticUnitConfig::Anomaly(AnomalyConfig::default())
    );
    assert_eq!(
        AnalyticUnitConfig::get_default_by_id(&"42".to_string()),
        AnalyticUnitConfig::Pattern(PatternConfig::default())
    );
}

#[test]
fn resolve_activates_one_unit() {
    let mut s = AnalyticUnitService::new();
    let id = s.resolve(&AnalyticUnitConfig::Threshold(threshold(4.0)));
    assert_eq!(id, "1");
    let id = s.resolve(&AnalyticUnitConfig::Pattern(PatternConfig::default()));
    assert_eq!(id, "2");
    assert_eq!(s.get_active_config(), AnalyticUnitConfig::Pattern(PatternConfig::default()));
    // the threshold row keeps its configuration and becomes active again
    s.resolve(&AnalyticUnitConfig::Threshold(threshold(9.0)));
    assert_eq!(s.get_active_config(), AnalyticUnitConfig::Threshold(threshold(4.0)));
    assert_eq!(s.get_active(), Ok(AnalyticUnitConfig::Threshold(threshold(4.0))));
}

#[test]
fn active_config_defaults_to_pattern() {
    let mut s = AnalyticUnitService::new();
    assert!(s.get_active().is_err());
    assert_eq!(s.get_active_config(), AnalyticUnitConfig::Pattern(PatternConfig::default()));
    assert_eq!(s.get_active(), Ok(AnalyticUnitConfig::Pattern(PatternConfig::default())));
}

#[test]
fn active_config_read_after_write() {
    let mut s = AnalyticUnitService::new();
    s.resolve(&AnalyticUnitConfig::Threshold(threshold(1.0)));
    s.update_active_config(&AnalyticUnitConfig::Threshold(threshold(2.0)));
    assert_eq!(s.get_active_config(), AnalyticUnitConfig::Threshold(threshold(2.0)));
}

#[test]
fn config_by_id_read_after_write() {
    let mut s = AnalyticUnitService::new();
    s.resolve(&AnalyticUnitConfig::Anomaly(AnomalyConfig::default()));
    let mut a = AnomalyConfig::default();
    a.seasonality = 60;
    s.update_config_by_id(&"3".to_string(), &AnalyticUnitConfig::Anomaly(a));
    assert_eq!(s.get_config_by_id(&"3".to_string()), AnalyticUnitConfig::Anomaly(a));
    // a missing id gives its default and makes that kind active
    assert_eq!(
        s.get_config_by_id(&"1".to_string()),
        AnalyticUnitConfig::Threshold(ThresholdConfig::default())
    );
    assert_eq!(s.get_active_config(), AnalyticUnitConfig::Threshold(ThresholdConfig::default()));
    assert_eq!(s.get_config_id(&AnalyticUnitConfig::Anomaly(a)), "3");
}

#[test]
fn rows_from_storage() {
    let mut s = AnalyticUnitService::new();
    let row = |id: &str, active: bool| AnalyticUnitRow {
        id: id.to_string(),
        last_detection: None,
        active,
        config: AnalyticUnitConfig::Pattern(PatternConfig::default()),
    };
    assert!(s.add_row(row("2", true)));
    assert!(!s.add_row(row("2", false)));
    assert!(!s.add_row(row("1", true)));
    assert!(s.add_row(row("1", false)));
    s.set_last_detection(&"1".to_string(), 1234);
    assert_eq!(s.get_active(), Ok(AnalyticUnitConfig::Pattern(PatternConfig::default())));
}

#[test]
fn default_activation_keeps_a_stored_pattern_config() {
    let mut s = AnalyticUnitService::new();
    let mut custom = PatternConfig::default();
    custom.threshold_score = 2.0f32.to_bits();
    assert!(s.add_row(AnalyticUnitRow {
        id: "2".to_string(),
        last_detection: None,
        active: false,
        config: AnalyticUnitConfig::Pattern(custom),
    }));
    // no unit is active: the default is returned, and the stored row is activated as it is
    assert_eq!(s.get_active_config(), AnalyticUnitConfig::Pattern(PatternConfig::default()));
    assert_eq!(s.get_active_config(), AnalyticUnitConfig::Pattern(custom));
}
