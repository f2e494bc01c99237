//! Data rules of an inference control layer.
pub mod amount;
pub mod analytics;
pub mod audit;
pub mod batch_templates;
pub mod cache_tariffs;
pub mod capacity_reservations;
pub mod composite_models;
pub mod connections;
pub mod credits;
pub mod crypto;
pub mod deployments;
pub mod errors;
pub mod feature_flags;
pub mod file_storage;
pub mod files;
pub mod grouping;
pub mod ids;
pub mod json;
pub mod model_provisioning;
pub mod names;
pub mod order;
pub mod organizations;
pub mod provider_display_configs;
pub mod query;
pub mod rewrap;
pub mod tariff_plan;
pub mod text;
pub mod time;
pub mod usage;
