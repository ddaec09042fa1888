//! Verified decision logic of the ARZ football predictor: settlement of
//! selections and coupons, system columns, the compound (katlama) series,
//! candidate qualification, lineup readiness, training labels, operational
//! readiness and realized coupon economics.

pub mod text;
pub mod clock;
pub mod settlement;
pub mod series;
pub mod coupons;
pub mod ingestion;
pub mod data_center;
pub mod candidate_engine;
pub mod daily_selections;
pub mod lineup;
pub mod features;
pub mod calibration;
pub mod coupon_performance;
pub mod iddaa;
pub mod incremental_resolution;
pub mod current_flow;
pub mod coupon_candidates;
pub mod btts_pipeline;
pub mod readiness_details;

