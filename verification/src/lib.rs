//! Validation, repair and text rules of the astrological reading gateway.
pub mod circuit_breaker;
pub mod error;
pub mod horoscope_text;
pub mod json;
pub mod keywords;
pub mod natal_explanations;
pub mod opening_diversity;
pub mod payload_sanitizer;
pub mod period_brief;
pub mod period_contract;
pub mod period_domains;
pub mod period_editorial;
pub mod period_labels;
pub mod period_metadata;
pub mod period_payload;
pub mod period_quality;
pub mod period_repair;
pub mod period_schema;
pub mod period_text;
pub mod period_validators;
pub mod period_windows;
pub mod period_writer;
pub mod persistence;
pub mod prior_usage;
pub mod product_policy;
pub mod prompt_compiler;
pub mod provider_json;
pub mod public_request;
pub mod quality;
pub mod reading;
pub mod reference_data;
pub mod request_validator;
pub mod safety;
pub mod schema_compiler;
pub mod scan_plan;
pub mod script_guard;
pub mod semantic_brief;
pub mod service_codes;
pub mod text;
