//! A feature-flag targeting engine.
//!
//! Given a flag definition, an environment key and an evaluation context,
//! the [`Evaluator`] decides which value the flag returns and why: it walks
//! the environment's targeting rules in priority order, consults segments,
//! and buckets users into percentage rollouts with a stable hash.

pub mod client;
pub mod config;
pub mod context;
pub mod environment;
pub mod errors;
pub mod evaluation;
pub mod flag;
pub mod ids;
pub mod project;
pub mod render;
pub mod rollout;
pub mod rule;
pub mod segment;
pub mod text;

pub use client::{ClientError, FlapsClient};
pub use config::{Config, DatabaseConfig, DatabaseType, RedisCacheConfig, WorkspaceClientConfig};
pub use context::{ContextBuilder, EvaluationContext};
pub use environment::{Environment, EnvironmentConfig};
pub use errors::{FlapsError, StorageError};
pub use evaluation::{EvaluationReason, EvaluationResult, Evaluator};
pub use flag::{Flag, FlagKey, FlagType, FlagValue, UserId};
pub use ids::{
    EnvironmentId, FlagId, GroupId, ProjectId, RuleId, SegmentId, TenantId, Timestamp,
};
pub use project::{Group, Project};
pub use rule::{AttributeValue, Condition, Number, Operator, TargetingRule};
pub use segment::{Segment, SegmentCondition, SegmentRule};
