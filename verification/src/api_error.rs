//! Errors of the server API: their HTTP status, machine code and message,
//! how core and lock errors map onto them, and their classification
//! as autonomous-execution errors.

use vstd::prelude::*;
use crate::autonomy::{AutonomyExecutionError, AutonomyExecutionErrorCode, ExecutionErrorView};
use crate::error::CoreError;
use crate::lock_manager::{LockDenial, LockError};
use crate::schema::DiagnosticError;
use crate::text::{cat, cat3, decimal_seq, u64_to_decimal, uuid_text};

verus! {

/// An API error.
#[derive(Debug, Clone)]
pub enum ApiError {
    /// Entity not found (404).
    NotFound(String),
    /// Invalid request (400).
    BadRequest(String),
    /// Validation failed with diagnostic errors (422).
    ValidationFailed(Vec<DiagnosticError>),
    /// Internal server error (500).
    InternalError(String),
    /// Resource conflict (409).
    Conflict(String),
    /// Resource conflict with structured details, as JSON text (409).
    ConflictWithDetails { message: String, details: String },
    /// Another agent holds the lock (423).
    LockDenied(LockDenial),
    /// A lock is required but not held (428).
    LockRequired(String),
    /// The agent header is missing (400).
    AgentRequired(String),
    /// Too many retries (429).
    TooManyRetries(String),
}

/// The HTTP status of an error.
pub open spec fn status_of(e: ApiError) -> u16 {
    match e {
        ApiError::NotFound(_) => 404,
        ApiError::BadRequest(_) => 400,
        ApiError::ValidationFailed(_) => 422,
        ApiError::InternalError(_) => 500,
        ApiError::Conflict(_) => 409,
        ApiError::ConflictWithDetails { .. } => 409,
        ApiError::LockDenied(_) => 423,
        ApiError::LockRequired(_) => 428,
        ApiError::AgentRequired(_) => 400,
        ApiError::TooManyRetries(_) => 429,
    }
}

/// The machine-readable code of an error.
pub open spec fn code_of(e: ApiError) -> Seq<char> {
    match e {
        ApiError::NotFound(_) => "NOT_FOUND"@,
        ApiError::BadRequest(_) => "BAD_REQUEST"@,
        ApiError::ValidationFailed(_) => "VALIDATION_FAILED"@,
        ApiError::InternalError(_) => "INTERNAL_ERROR"@,
        ApiError::Conflict(_) => "CONFLICT"@,
        ApiError::ConflictWithDetails { .. } => "CONFLICT"@,
        ApiError::LockDenied(_) => "LOCK_DENIED"@,
        ApiError::LockRequired(_) => "LOCK_REQUIRED"@,
        ApiError::AgentRequired(_) => "AGENT_REQUIRED"@,
        ApiError::TooManyRetries(_) => "TOO_MANY_RETRIES"@,
    }
}

/// The message of an error's response body.
pub open spec fn body_message_of(e: ApiError) -> Seq<char> {
    match e {
        ApiError::NotFound(m) => m@,
        ApiError::BadRequest(m) => m@,
        ApiError::ValidationFailed(errs) => decimal_seq(errs@.len()) + " validation error(s)"@,
        ApiError::InternalError(m) => m@,
        ApiError::Conflict(m) => m@,
        ApiError::ConflictWithDetails { message, .. } => message@,
        ApiError::LockDenied(d) => "function "@ + decimal_seq(d.function_id.0 as nat)
            + " is locked by another agent"@,
        ApiError::LockRequired(m) => m@,
        ApiError::AgentRequired(m) => m@,
        ApiError::TooManyRetries(m) => m@,
    }
}

/// The one-line description of an error.
pub open spec fn display_of(e: ApiError) -> Seq<char> {
    match e {
        ApiError::NotFound(m) => "not found: "@ + m@,
        ApiError::BadRequest(m) => "bad request: "@ + m@,
        ApiError::ValidationFailed(_) => "validation failed"@,
        ApiError::InternalError(m) => "internal error: "@ + m@,
        ApiError::Conflict(m) => "conflict: "@ + m@,
        ApiError::ConflictWithDetails { message, .. } => "conflict: "@ + message@,
        ApiError::LockDenied(_) => "lock denied"@,
        ApiError::LockRequired(m) => "lock required: "@ + m@,
        ApiError::AgentRequired(m) => "agent required: "@ + m@,
        ApiError::TooManyRetries(m) => "too many retries: "@ + m@,
    }
}

impl ApiError {
    /// The HTTP status, machine code and message of the error's response.
    pub fn response_parts(&self) -> (r: (u16, &'static str, String))
        ensures
            r.0 == status_of(*self),
            r.1@ == code_of(*self),
            r.2@ == body_message_of(*self),
    {
        match self {
            ApiError::NotFound(m) => (404, "NOT_FOUND", m.clone()),
            ApiError::BadRequest(m) => (400, "BAD_REQUEST", m.clone()),
            ApiError::ValidationFailed(errs) => (
                422,
                "VALIDATION_FAILED",
                cat(u64_to_decimal(errs.len() as u64).as_str(), " validation error(s)"),
            ),
            ApiError::InternalError(m) => (500, "INTERNAL_ERROR", m.clone()),
            ApiError::Conflict(m) => (409, "CONFLICT", m.clone()),
            ApiError::ConflictWithDetails { message, .. } => (409, "CONFLICT", message.clone()),
            ApiError::LockDenied(d) => (
                423,
                "LOCK_DENIED",
                cat3("function ", u64_to_decimal(d.function_id.0 as u64).as_str(), " is locked by another agent"),
            ),
            ApiError::LockRequired(m) => (428, "LOCK_REQUIRED", m.clone()),
            ApiError::AgentRequired(m) => (400, "AGENT_REQUIRED", m.clone()),
            ApiError::TooManyRetries(m) => (429, "TOO_MANY_RETRIES", m.clone()),
        }
    }

    /// The one-line description of the error.
    pub fn to_string(&self) -> (r: String)
        ensures
            r@ == display_of(*self),
    {
        match self {
            ApiError::NotFound(m) => cat("not found: ", m.as_str()),
            ApiError::BadRequest(m) => cat("bad request: ", m.as_str()),
            ApiError::ValidationFailed(_) => String::from_str("validation failed"),
            ApiError::InternalError(m) => cat("internal error: ", m.as_str()),
            ApiError::Conflict(m) => cat("conflict: ", m.as_str()),
            ApiError::ConflictWithDetails { message, .. } => cat("conflict: ", message.as_str()),
            ApiError::LockDenied(_) => String::from_str("lock denied"),
            ApiError::LockRequired(m) => cat("lock required: ", m.as_str()),
            ApiError::AgentRequired(m) => cat("agent required: ", m.as_str()),
            ApiError::TooManyRetries(m) => cat("too many retries: ", m.as_str()),
        }
    }

    /// The API error for a lock error.
    pub fn from_lock_error(err: LockError) -> (r: ApiError)
        ensures
            match err {
                LockError::AlreadyHeldBy(d) => r == ApiError::LockDenied(d),
                LockError::NotHeld { function_id, agent_id } => r matches ApiError::BadRequest(m)
                    && m@ == "agent "@ + uuid_text(agent_id.0) + " does not hold lock on function "@
                    + decimal_seq(function_id.0 as nat),
                LockError::FunctionNotFound(f) => r matches ApiError::NotFound(m) && m@ == "function "@
                    + decimal_seq(f.0 as nat) + " not found"@,
                LockError::BatchPartialFailure { failed, .. } => r == ApiError::LockDenied(failed),
            },
    {
        match err {
            LockError::AlreadyHeldBy(d) => ApiError::LockDenied(d),
            LockError::NotHeld { function_id, agent_id } => {
                let mut m = cat3("agent ", agent_id.to_string().as_str(), " does not hold lock on function ");
                m.append(u64_to_decimal(function_id.0 as u64).as_str());
                ApiError::BadRequest(m)
            },
            LockError::FunctionNotFound(f) => ApiError::NotFound(
                cat3("function ", u64_to_decimal(f.0 as u64).as_str(), " not found"),
            ),
            LockError::BatchPartialFailure { failed, .. } => ApiError::LockDenied(failed),
        }
    }

    /// The API error for a core error: missing entities are not found, a
    /// duplicate name is a conflict, a bad edge or broken invariant is a bad
    /// request.
    pub fn from_core_error(err: &CoreError) -> (r: ApiError)
        ensures
            api_error_of_core(r, *err),
    {
        let m = core_error_message(err);
        match err {
            CoreError::NodeNotFound { .. } | CoreError::FunctionNotFound { .. }
            | CoreError::ModuleNotFound { .. } | CoreError::TypeNotFound { .. } => ApiError::NotFound(m),
            CoreError::DuplicateTypeName { .. } => ApiError::Conflict(m),
            _ => ApiError::BadRequest(m),
        }
    }
}

/// `r` is the API error a core error maps to: `NotFound` for a missing
/// node, function, module or type, `Conflict` for a duplicate type name,
/// `BadRequest` otherwise, each with the core error's message.
pub open spec fn api_error_of_core(r: ApiError, e: CoreError) -> bool {
    match e {
        CoreError::NodeNotFound { .. } | CoreError::FunctionNotFound { .. } | CoreError::ModuleNotFound { .. }
        | CoreError::TypeNotFound { .. } => r matches ApiError::NotFound(m) && m@ == core_message(e),
        CoreError::DuplicateTypeName { .. } => r matches ApiError::Conflict(m) && m@ == core_message(e),
        _ => r matches ApiError::BadRequest(m) && m@ == core_message(e),
    }
}

/// The description of a core error.
pub open spec fn core_message(e: CoreError) -> Seq<char> {
    match e {
        CoreError::DuplicateTypeName { name } => "duplicate type name: '"@ + name@ + "'"@,
        CoreError::TypeNotFound { id } => "type not found: TypeId("@ + decimal_seq(id.0 as nat) + ")"@,
        CoreError::NodeNotFound { id } => "node not found: NodeId("@ + decimal_seq(id.0 as nat) + ")"@,
        CoreError::FunctionNotFound { id } => "function not found: FunctionId("@ + decimal_seq(id.0 as nat)
            + ")"@,
        CoreError::ModuleNotFound { id } => "module not found: ModuleId("@ + decimal_seq(id.0 as nat) + ")"@,
        CoreError::InvalidEdge { reason } => "invalid edge: "@ + reason@,
        CoreError::GraphInconsistency { reason } => "graph inconsistency: "@ + reason@,
        CoreError::PropagationLoopDetected { reason } => "propagation loop detected: "@ + reason@,
    }
}

/// The description of a core error.
pub fn core_error_message(e: &CoreError) -> (r: String)
    ensures
        r@ == core_message(*e),
{
    match e {
        CoreError::DuplicateTypeName { name } => cat3("duplicate type name: '", name.as_str(), "'"),
        CoreError::TypeNotFound { id } => cat3("type not found: TypeId(", u64_to_decimal(id.0 as u64).as_str(), ")"),
        CoreError::NodeNotFound { id } => cat3("node not found: NodeId(", u64_to_decimal(id.0 as u64).as_str(), ")"),
        CoreError::FunctionNotFound { id } => cat3(
            "function not found: FunctionId(",
            u64_to_decimal(id.0 as u64).as_str(),
            ")",
        ),
        CoreError::ModuleNotFound { id } => cat3(
            "module not found: ModuleId(",
            u64_to_decimal(id.0 as u64).as_str(),
            ")",
        ),
        CoreError::InvalidEdge { reason } => cat("invalid edge: ", reason.as_str()),
        CoreError::GraphInconsistency { reason } => cat("graph inconsistency: ", reason.as_str()),
        CoreError::PropagationLoopDetected { reason } => cat("propagation loop detected: ", reason.as_str()),
    }
}

/// The execution error an API error is classified as: its code, message,
/// retryability and details. `payload_json` is the JSON text of the
/// error's payload (the diagnostic errors, or the lock denial), attached
/// as details to those two kinds.
pub open spec fn classified(e: ApiError, payload_json: Seq<char>) -> ExecutionErrorView {
    let (code, message, retryable, details) = match e {
        ApiError::NotFound(m) => (AutonomyExecutionErrorCode::NotFound, m@, true, None),
        ApiError::BadRequest(m) => (AutonomyExecutionErrorCode::BadRequest, m@, false, None),
        ApiError::ValidationFailed(errs) => (
            AutonomyExecutionErrorCode::ValidationFailed,
            "validation failed with "@ + decimal_seq(errs@.len()) + " error(s)"@,
            true,
            Some(payload_json),
        ),
        ApiError::InternalError(m) => (AutonomyExecutionErrorCode::InternalError, m@, true, None),
        ApiError::Conflict(m) => (AutonomyExecutionErrorCode::Conflict, m@, true, None),
        ApiError::ConflictWithDetails { message, details } => (
            AutonomyExecutionErrorCode::Conflict,
            message@,
            true,
            Some(details@),
        ),
        ApiError::LockDenied(_) => (
            AutonomyExecutionErrorCode::Conflict,
            "lock denied while executing action"@,
            true,
            Some(payload_json),
        ),
        ApiError::LockRequired(m) => (AutonomyExecutionErrorCode::BadRequest, m@, false, None),
        ApiError::AgentRequired(m) => (AutonomyExecutionErrorCode::BadRequest, m@, false, None),
        ApiError::TooManyRetries(m) => (AutonomyExecutionErrorCode::Conflict, m@, true, None),
    };
    ExecutionErrorView { code, message, retryable, details, diagnostics: None }
}

/// Classifies an API error for autonomous execution: missing entities,
/// conflicts, validation and internal failures are retryable; malformed
/// requests are not.
pub fn classify_api_error(error: ApiError, payload_json: String) -> (r: AutonomyExecutionError)
    ensures
        r@ == classified(error, payload_json@),
{
    match error {
        ApiError::NotFound(m) => AutonomyExecutionError::new(AutonomyExecutionErrorCode::NotFound, m.as_str(), true),
        ApiError::BadRequest(m) => AutonomyExecutionError::new(
            AutonomyExecutionErrorCode::BadRequest,
            m.as_str(),
            false,
        ),
        ApiError::ValidationFailed(errs) => {
            let m = cat3("validation failed with ", u64_to_decimal(errs.len() as u64).as_str(), " error(s)");
            AutonomyExecutionError::new(AutonomyExecutionErrorCode::ValidationFailed, m.as_str(), true).with_details(
                payload_json,
            )
        },
        ApiError::InternalError(m) => AutonomyExecutionError::new(
            AutonomyExecutionErrorCode::InternalError,
            m.as_str(),
            true,
        ),
        ApiError::Conflict(m) => AutonomyExecutionError::new(AutonomyExecutionErrorCode::Conflict, m.as_str(), true),
        ApiError::ConflictWithDetails { message, details } => AutonomyExecutionError::new(
            AutonomyExecutionErrorCode::Conflict,
            message.as_str(),
            true,
        ).with_details(details),
        ApiError::LockDenied(_) => AutonomyExecutionError::new(
            AutonomyExecutionErrorCode::Conflict,
            "lock denied while executing action",
            true,
        ).with_details(payload_json),
        ApiError::LockRequired(m) => AutonomyExecutionError::new(
            AutonomyExecutionErrorCode::BadRequest,
            m.as_str(),
            false,
        ),
        ApiError::AgentRequired(m) => AutonomyExecutionError::new(
            AutonomyExecutionErrorCode::BadRequest,
            m.as_str(),
            false,
        ),
        ApiError::TooManyRetries(m) => AutonomyExecutionError::new(
            AutonomyExecutionErrorCode::Conflict,
            m.as_str(),
            true,
        ),
    }
}

/// Only malformed requests are classified as not worth retrying.
pub proof fn lemma_retryable_unless_malformed(e: ApiError, payload_json: Seq<char>)
    ensures
        !classified(e, payload_json).retryable <==> (e is BadRequest || e is LockRequired || e is AgentRequired),
        classified(e, payload_json).code == AutonomyExecutionErrorCode::BadRequest <==> !classified(
            e,
            payload_json,
        ).retryable,
{
}

} // verus!
