//! A compiler front end that turns a declarative API-composition
//! configuration into a validated execution blueprint.
//!
//! Validation accumulates every independent error instead of stopping at
//! the first one; the `valid` module holds the outcome type, `try_fold`
//! the composable fold combinator, and `from_config` the translation
//! pipeline itself.
pub mod assoc;
pub mod blueprint;
pub mod config;
pub mod from_config;
pub mod json;
pub mod steps;
mod trusted;
pub mod try_fold;
pub mod valid;

pub use blueprint::Blueprint;
pub use blueprint::Definition;
pub use blueprint::Expression;
pub use blueprint::FieldDefinition;
pub use blueprint::InputFieldDefinition;
pub use blueprint::Type;
pub use config::Config;
pub use from_config::apply_batching;
pub use from_config::config_blueprint;
pub use from_config::is_scalar;
pub use from_config::to_args;
pub use from_config::to_json_schema;
pub use from_config::to_json_schema_for_args;
pub use from_config::to_json_schema_for_field;
pub use from_config::to_type;
pub use from_config::validate_mustache_parts;
pub use json::JsonSchema;
pub use json::JsonValue;
pub use steps::ArithOp;
pub use steps::ArithStep;
pub use steps::DecimalMapper;
pub use try_fold::DupValue;
pub use try_fold::FoldStep;
pub use try_fold::TryFold;
pub use valid::Cause;
pub use valid::Valid;
pub use valid::ValidationError;
