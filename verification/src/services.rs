pub mod analytic_service;
pub mod segments_service;
pub mod analytic_unit_service;
pub mod user_service;
