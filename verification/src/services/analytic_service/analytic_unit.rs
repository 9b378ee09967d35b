pub mod runs;
pub mod threshold_analytic_unit;
pub mod types;
pub mod anomaly_analytic_unit;
pub mod pattern_analytic_unit;
