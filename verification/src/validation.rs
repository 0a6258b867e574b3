//! Content constraint validation: rules, results, actions and their
//! configuration.

use vstd::prelude::*;

use crate::error::BuildError;
use crate::strmap::StrMap;

verus! {

/// The severity of a validation failure.
#[derive(PartialEq, Eq, Structural, Clone, Copy, Debug)]
pub enum ValidationSeverity {
    Info,
    Warning,
    Error,
    Critical,
}

impl ValidationSeverity {
    /// The lower-case name of the severity.
    pub fn as_text(&self) -> (r: &'static str)
        ensures
            r@ == match self {
                ValidationSeverity::Info => "info"@,
                ValidationSeverity::Warning => "warning"@,
                ValidationSeverity::Error => "error"@,
                ValidationSeverity::Critical => "critical"@,
            },
    {
        match self {
            ValidationSeverity::Info => "info",
            ValidationSeverity::Warning => "warning",
            ValidationSeverity::Error => "error",
            ValidationSeverity::Critical => "critical",
        }
    }
}

/// One action to take when a constraint fails.
#[derive(PartialEq, Eq, Structural, Clone, Copy, Debug)]
pub enum FailureAction {
    /// Log a warning.
    Warn,
    /// Break the build.
    Break,
    /// Apply style changes.
    Style,
}

/// What to do when a constraint fails.
pub struct ConstraintActions {
    pub on_fail: Vec<FailureAction>,
    pub style_changes: Vec<String>,
    pub force_style: bool,
}

impl Default for ConstraintActions {
    /// The default actions: warn, no style changes.
    fn default() -> (r: ConstraintActions)
        ensures
            r.on_fail@.len() == 1,
            r.on_fail@[0] == FailureAction::Warn,
            r.style_changes@.len() == 0,
            !r.force_style,
    {
        let mut on_fail: Vec<FailureAction> = Vec::new();
        on_fail.push(FailureAction::Warn);
        ConstraintActions { on_fail, style_changes: Vec::new(), force_style: false }
    }
}

/// A constraint validation rule.
pub struct ValidationRule {
    pub name: String,
    pub description: Option<String>,
    pub constraint: String,
    pub severity: ValidationSeverity,
    pub actions: ConstraintActions,
    pub error_template: Option<String>,
}

/// The result of one validation check.
pub struct ValidationResult {
    pub passed: bool,
    pub error_message: Option<String>,
    pub context: StrMap<String>,
}

impl ValidationResult {
    /// A successful result.
    pub fn success() -> (r: ValidationResult)
        ensures
            r.passed,
            r.error_message is None,
            r.context.wf(),
            r.context.key_seq().len() == 0,
    {
        ValidationResult { passed: true, error_message: None, context: StrMap::new() }
    }

    /// A failed result with its message.
    pub fn failure(message: String) -> (r: ValidationResult)
        ensures
            !r.passed,
            r.error_message == Some(message),
            r.context.wf(),
            r.context.key_seq().len() == 0,
    {
        ValidationResult { passed: false, error_message: Some(message), context: StrMap::new() }
    }

    /// A failed result with its message and context.
    pub fn failure_with_context(message: String, context: StrMap<String>) -> (r: ValidationResult)
        ensures
            !r.passed,
            r.error_message == Some(message),
            r.context == context,
    {
        ValidationResult { passed: false, error_message: Some(message), context }
    }

    /// The same result with one more context entry.
    pub fn with_context(self, key: String, value: String) -> (r: ValidationResult)
        requires
            self.context.wf(),
        ensures
            r.passed == self.passed,
            r.error_message == self.error_message,
            r.context.wf(),
            r.context.spec_contains_key(key@),
    {
        let mut out = self;
        out.context.insert(key.as_str(), value);
        out
    }
}

/// The outcome of applying constraint actions.
pub struct ActionResult {
    pub success: bool,
    pub warnings: Vec<String>,
    pub errors: Vec<BuildError>,
}

impl ActionResult {
    /// A successful action outcome.
    pub fn success() -> (r: ActionResult)
        ensures
            r.success,
            r.warnings@.len() == 0,
            r.errors@.len() == 0,
    {
        ActionResult { success: true, warnings: Vec::new(), errors: Vec::new() }
    }

    /// A failed action outcome holding one error.
    pub fn failure(error: BuildError) -> (r: ActionResult)
        ensures
            !r.success,
            r.warnings@.len() == 0,
            r.errors@.len() == 1,
    {
        let mut errors: Vec<BuildError> = Vec::new();
        errors.push(error);
        ActionResult { success: false, warnings: Vec::new(), errors }
    }
}

/// Where a content item stands.
pub struct ItemLocation {
    pub docname: String,
    pub lineno: Option<u32>,
    pub source_path: Option<String>,
}

/// A constraint with its checks, severity and messages.
pub struct ConstraintDefinition {
    pub checks: StrMap<String>,
    pub severity: ValidationSeverity,
    pub error_message: Option<String>,
    pub description: Option<String>,
}

/// Global validation settings.
pub struct ValidationSettings {
    pub enable_constraints: bool,
    pub cache_results: bool,
    pub max_errors: Option<usize>,
    pub continue_on_error: bool,
}

impl Default for ValidationSettings {
    /// The default settings: constraints enabled, results cached, no error
    /// cap, validation continues after errors.
    fn default() -> (r: ValidationSettings)
        ensures
            r.enable_constraints,
            r.cache_results,
            r.max_errors is None,
            r.continue_on_error,
    {
        ValidationSettings {
            enable_constraints: true,
            cache_results: true,
            max_errors: None,
            continue_on_error: true,
        }
    }
}

/// Configuration of the validation system.
pub struct ValidationConfig {
    pub constraints: StrMap<ConstraintDefinition>,
    pub constraint_failed_options: StrMap<ConstraintActions>,
    pub settings: ValidationSettings,
}

impl Default for ValidationConfig {
    /// The defaults: no constraints, the four severity levels mapped to
    /// their default actions, and the default settings.
    fn default() -> (r: ValidationConfig)
        ensures
            r.constraints.wf(),
            r.constraints.key_seq().len() == 0,
            r.constraint_failed_options.wf(),
            r.constraint_failed_options.spec_contains_key("info"@),
            r.constraint_failed_options.spec_contains_key("warning"@),
            r.constraint_failed_options.spec_contains_key("error"@),
            r.constraint_failed_options.spec_contains_key("critical"@),
            r.settings.enable_constraints,
            r.settings.cache_results,
    {
        let mut options: StrMap<ConstraintActions> = StrMap::new();
        options.insert(
            "info",
            ConstraintActions { on_fail: Vec::new(), style_changes: Vec::new(), force_style: false },
        );
        let mut warn_fail: Vec<FailureAction> = Vec::new();
        warn_fail.push(FailureAction::Warn);
        let mut warn_styles: Vec<String> = Vec::new();
        warn_styles.push(String::from_str("constraint-warning"));
        options.insert(
            "warning",
            ConstraintActions { on_fail: warn_fail, style_changes: warn_styles, force_style: false },
        );
        let mut err_fail: Vec<FailureAction> = Vec::new();
        err_fail.push(FailureAction::Warn);
        err_fail.push(FailureAction::Style);
        let mut err_styles: Vec<String> = Vec::new();
        err_styles.push(String::from_str("constraint-error"));
        options.insert(
            "error",
            ConstraintActions { on_fail: err_fail, style_changes: err_styles, force_style: false },
        );
        let mut crit_fail: Vec<FailureAction> = Vec::new();
        crit_fail.push(FailureAction::Break);
        let mut crit_styles: Vec<String> = Vec::new();
        crit_styles.push(String::from_str("constraint-critical"));
        options.insert(
            "critical",
            ConstraintActions { on_fail: crit_fail, style_changes: crit_styles, force_style: true },
        );
        ValidationConfig {
            constraints: StrMap::new(),
            constraint_failed_options: options,
            settings: ValidationSettings::default(),
        }
    }
}

/// A validation failure, carrying its rule and result.
pub struct ValidationFailure {
    pub rule: ValidationRule,
    pub result: ValidationResult,
    pub item_id: String,
    pub severity: ValidationSeverity,
}

impl ValidationFailure {
    /// Record a failure; the severity is the rule's.
    pub fn new(rule: ValidationRule, result: ValidationResult, item_id: String) -> (r:
        ValidationFailure)
        ensures
            r.severity == rule.severity,
            r.item_id@ == item_id@,
            r.result.passed == result.passed,
    {
        let severity = rule.severity;
        ValidationFailure { rule, result, item_id, severity }
    }
}

} // verus!
