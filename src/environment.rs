//! Environments and a flag's configuration in one environment.

use vstd::prelude::*;

use crate::flag::FlagValue;
use crate::ids::{EnvironmentId, ProjectId};
use crate::rule::TargetingRule;

verus! {

/// A deployment environment (e.g. dev, staging, prod).
#[derive(Clone, Debug)]
pub struct Environment {
    /// Unique identifier.
    pub id: EnvironmentId,
    /// Machine-readable key (e.g. `prod`).
    pub key: String,
    /// Display name.
    pub name: String,
    /// Color for display (e.g. `#22c55e`).
    pub color: Option<String>,
    /// Whether this is a production environment.
    pub is_production: bool,
    /// Project the environment belongs to.
    pub project_id: ProjectId,
    /// Position for display.
    pub order: u32,
}

impl Environment {
    /// An environment with no color, not production, first in order.
    pub fn new(key: &str, name: &str, project_id: ProjectId) -> (r: Environment)
        ensures
            r.key@ == key@,
            r.name@ == name@,
            r.color is None,
            !r.is_production,
            r.project_id == project_id,
            r.order == 0,
    {
        Environment {
            id: EnvironmentId::new(),
            key: key.to_owned(),
            name: name.to_owned(),
            color: None,
            is_production: false,
            project_id,
            order: 0,
        }
    }

    /// The development environment: key `dev`, green, first.
    pub fn development(project_id: ProjectId) -> (r: Environment)
        ensures
            r.key@ == "dev"@,
            r.name@ == "Development"@,
            r.color is Some && r.color->0@ == "#22c55e"@,
            !r.is_production,
            r.project_id == project_id,
            r.order == 0,
    {
        Environment {
            id: EnvironmentId::new(),
            key: String::from_str("dev"),
            name: String::from_str("Development"),
            color: Some(String::from_str("#22c55e")),
            is_production: false,
            project_id,
            order: 0,
        }
    }

    /// The staging environment: key `staging`, orange, second.
    pub fn staging(project_id: ProjectId) -> (r: Environment)
        ensures
            r.key@ == "staging"@,
            r.name@ == "Staging"@,
            r.color is Some && r.color->0@ == "#f59e0b"@,
            !r.is_production,
            r.project_id == project_id,
            r.order == 1,
    {
        Environment {
            id: EnvironmentId::new(),
            key: String::from_str("staging"),
            name: String::from_str("Staging"),
            color: Some(String::from_str("#f59e0b")),
            is_production: false,
            project_id,
            order: 1,
        }
    }

    /// The production environment: key `prod`, red, third.
    pub fn production(project_id: ProjectId) -> (r: Environment)
        ensures
            r.key@ == "prod"@,
            r.name@ == "Production"@,
            r.color is Some && r.color->0@ == "#ef4444"@,
            r.is_production,
            r.project_id == project_id,
            r.order == 2,
    {
        Environment {
            id: EnvironmentId::new(),
            key: String::from_str("prod"),
            name: String::from_str("Production"),
            color: Some(String::from_str("#ef4444")),
            is_production: true,
            project_id,
            order: 2,
        }
    }

    /// Sets the color.
    pub fn with_color(self, color: &str) -> (r: Environment)
        ensures
            r == (Environment { color: r.color, ..self }),
            r.color is Some && r.color->0@ == color@,
    {
        let mut r = self;
        r.color = Some(color.to_owned());
        r
    }

    /// Sets whether this is a production environment.
    pub fn with_production(self, is_production: bool) -> (r: Environment)
        ensures
            r == (Environment { is_production, ..self }),
    {
        let mut r = self;
        r.is_production = is_production;
        r
    }

    /// Sets the display order.
    pub fn with_order(self, order: u32) -> (r: Environment)
        ensures
            r == (Environment { order, ..self }),
    {
        let mut r = self;
        r.order = order;
        r
    }
}

/// Configuration of a flag for one environment.
#[derive(Clone, Debug)]
pub struct EnvironmentConfig {
    /// Whether the flag is enabled in this environment.
    pub enabled: bool,
    /// Targeting rules, evaluated in order of priority.
    pub rules: Vec<TargetingRule>,
    /// Value when the flag is enabled and no rule decides.
    pub default_value: FlagValue,
    /// Global rollout percentage, applied when no rule decides.
    pub rollout_percentage: Option<u8>,
    /// Whether changes require approval.
    pub requires_approval: bool,
}

impl Default for EnvironmentConfig {
    fn default() -> (r: EnvironmentConfig)
        ensures
            !r.enabled,
            r.rules@.len() == 0,
            r.default_value == FlagValue::Boolean(false),
            r.rollout_percentage is None,
            !r.requires_approval,
    {
        EnvironmentConfig::disabled()
    }
}

impl EnvironmentConfig {
    /// A disabled configuration.
    pub fn new() -> (r: EnvironmentConfig)
        ensures
            !r.enabled,
            r.rules@.len() == 0,
            r.default_value == FlagValue::Boolean(false),
            r.rollout_percentage is None,
            !r.requires_approval,
    {
        EnvironmentConfig::disabled()
    }

    /// A disabled configuration, said explicitly.
    pub fn disabled() -> (r: EnvironmentConfig)
        ensures
            !r.enabled,
            r.rules@.len() == 0,
            r.default_value == FlagValue::Boolean(false),
            r.rollout_percentage is None,
            !r.requires_approval,
    {
        EnvironmentConfig {
            enabled: false,
            rules: Vec::new(),
            default_value: FlagValue::Boolean(false),
            rollout_percentage: None,
            requires_approval: false,
        }
    }

    /// An enabled configuration with a boolean default.
    pub fn enabled_boolean(value: bool) -> (r: EnvironmentConfig)
        ensures
            r.enabled,
            r.rules@.len() == 0,
            r.default_value == FlagValue::Boolean(value),
            r.rollout_percentage is None,
            !r.requires_approval,
    {
        EnvironmentConfig {
            enabled: true,
            rules: Vec::new(),
            default_value: FlagValue::Boolean(value),
            rollout_percentage: None,
            requires_approval: false,
        }
    }

    /// An enabled configuration with a string default.
    pub fn enabled_string(value: &str) -> (r: EnvironmentConfig)
        ensures
            r.enabled,
            r.rules@.len() == 0,
            r.default_value is String && r.default_value->String_0@ == value@,
            r.rollout_percentage is None,
            !r.requires_approval,
    {
        EnvironmentConfig {
            enabled: true,
            rules: Vec::new(),
            default_value: FlagValue::String(value.to_owned()),
            rollout_percentage: None,
            requires_approval: false,
        }
    }

    /// Sets whether the flag is enabled.
    pub fn with_enabled(self, enabled: bool) -> (r: EnvironmentConfig)
        ensures
            r == (EnvironmentConfig { enabled, ..self }),
    {
        let mut r = self;
        r.enabled = enabled;
        r
    }

    /// Sets the default value.
    pub fn with_default_value(self, value: FlagValue) -> (r: EnvironmentConfig)
        ensures
            r == (EnvironmentConfig { default_value: value, ..self }),
    {
        let mut r = self;
        r.default_value = value;
        r
    }

    /// Sets the global rollout percentage, capped at 100.
    pub fn with_rollout(self, percentage: u8) -> (r: EnvironmentConfig)
        ensures
            r == (EnvironmentConfig {
                rollout_percentage: Some(if percentage > 100 { 100 } else { percentage }),
                ..self
            }),
    {
        let mut r = self;
        r.rollout_percentage = Some(if percentage > 100 { 100 } else { percentage });
        r
    }

    /// Adds a targeting rule.
    pub fn with_rule(self, rule: TargetingRule) -> (r: EnvironmentConfig)
        ensures
            r == (EnvironmentConfig { rules: r.rules, ..self }),
            r.rules@ == self.rules@.push(rule),
    {
        let mut r = self;
        r.rules.push(rule);
        r
    }

    /// Sets whether changes require approval.
    pub fn with_approval_required(self, required: bool) -> (r: EnvironmentConfig)
        ensures
            r == (EnvironmentConfig { requires_approval: required, ..self }),
    {
        let mut r = self;
        r.requires_approval = required;
        r
    }
}

} // verus!
