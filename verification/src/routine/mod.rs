//! Routine configuration: triggers, actions and their stored form.

use vstd::prelude::*;

use crate::json::{get_str, json_str_field, JsonValue};

pub mod action;
pub mod engine;
pub mod trigger;

verus! {

/// Errors raised while loading or running routines.
#[derive(Debug)]
pub enum RoutineError {
    /// The stored action type is not known.
    UnknownActionType { action_type: String },
    /// The stored trigger type is not known.
    UnknownTriggerType { trigger_type: String },
    /// A required string field of a stored configuration is missing.
    MissingField { context: String, field: String },
    /// A cron expression could not be parsed.
    InvalidCron { reason: String },
    /// The model stopped at its token limit without producing content.
    TruncatedResponse,
    /// The model returned no content.
    EmptyResponse,
    /// No routine has the requested id.
    NotFound { id: String },
    /// The routine belongs to another user.
    NotAuthorized { id: String },
    /// The routine is disabled.
    Disabled { name: String },
    /// The routine already runs as often as it may.
    MaxConcurrent { name: String },
    /// No scheduler is available for full-job routines.
    SchedulerUnavailable,
}

/// Content of a routine error.
pub enum RoutineErrorView {
    UnknownActionType { action_type: Seq<char> },
    UnknownTriggerType { trigger_type: Seq<char> },
    MissingField { context: Seq<char>, field: Seq<char> },
    InvalidCron { reason: Seq<char> },
    TruncatedResponse,
    EmptyResponse,
    NotFound { id: Seq<char> },
    NotAuthorized { id: Seq<char> },
    Disabled { name: Seq<char> },
    MaxConcurrent { name: Seq<char> },
    SchedulerUnavailable,
}

impl RoutineError {
    /// Content of this error.
    pub open spec fn model(self) -> RoutineErrorView {
        match self {
            RoutineError::UnknownActionType { action_type } => RoutineErrorView::UnknownActionType {
                action_type: action_type@,
            },
            RoutineError::UnknownTriggerType { trigger_type } => RoutineErrorView::UnknownTriggerType {
                trigger_type: trigger_type@,
            },
            RoutineError::MissingField { context, field } => RoutineErrorView::MissingField {
                context: context@,
                field: field@,
            },
            RoutineError::InvalidCron { reason } => RoutineErrorView::InvalidCron { reason: reason@ },
            RoutineError::TruncatedResponse => RoutineErrorView::TruncatedResponse,
            RoutineError::EmptyResponse => RoutineErrorView::EmptyResponse,
            RoutineError::NotFound { id } => RoutineErrorView::NotFound { id: id@ },
            RoutineError::NotAuthorized { id } => RoutineErrorView::NotAuthorized { id: id@ },
            RoutineError::Disabled { name } => RoutineErrorView::Disabled { name: name@ },
            RoutineError::MaxConcurrent { name } => RoutineErrorView::MaxConcurrent { name: name@ },
            RoutineError::SchedulerUnavailable => RoutineErrorView::SchedulerUnavailable,
        }
    }
}

/// The string field `field` of `config`, or the missing-field error naming
/// `context`.
pub open spec fn required_str_spec(config: JsonValue, context: Seq<char>, field: Seq<char>) -> Result<
    Seq<char>,
    RoutineErrorView,
> {
    match json_str_field(config, field) {
        Some(s) => Ok(s),
        None => Err(RoutineErrorView::MissingField { context, field }),
    }
}

/// Reads a required string field of a stored configuration.
pub fn required_str_field(config: &JsonValue, context: &str, field: &str) -> (r: Result<
    String,
    RoutineError,
>)
    ensures
        match r {
            Ok(s) => required_str_spec(*config, context@, field@) == Ok::<
                Seq<char>,
                RoutineErrorView,
            >(s@),
            Err(e) => required_str_spec(*config, context@, field@) == Err::<
                Seq<char>,
                RoutineErrorView,
            >(e.model()),
        },
{
    match get_str(config, field) {
        Some(s) => Ok(s),
        None => Err(
            RoutineError::MissingField { context: context.to_owned(), field: field.to_owned() },
        ),
    }
}

/// The text a JSON scalar contributes to a system-event filter: strings as
/// they are, numbers by their decimal text, booleans as `true`/`false`.
pub open spec fn filter_string_of(v: JsonValue) -> Option<Seq<char>> {
    match v {
        JsonValue::String(s) => Some(s@),
        JsonValue::Number(n) => Some(n.text@),
        JsonValue::Bool(b) => Some(
            if b {
                "true"@
            } else {
                "false"@
            },
        ),
        _ => None,
    }
}

/// Convert a JSON value to a string for filter storage; arrays, objects and
/// null have none.
pub fn json_value_as_filter_string(v: &JsonValue) -> (r: Option<String>)
    ensures
        crate::llm::opt_chars(r) == filter_string_of(*v),
{
    match v {
        JsonValue::String(s) => Some(s.clone()),
        JsonValue::Number(n) => Some(n.text.clone()),
        JsonValue::Bool(b) => Some(
            if *b {
                "true".to_owned()
            } else {
                "false".to_owned()
            },
        ),
        _ => None,
    }
}

} // verus!
