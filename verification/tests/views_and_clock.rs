use lmlang::api_error::ApiError;
use lmlang::autonomy::{AutonomyDiagnostics, AutonomyDiagnosticsClass, StopReason, StopReasonCode};
use lmlang::clock::{chrono_like_now, now_string, unix_seconds};
use lmlang::observability::ensure_active_program;
use lmlang::schema::{default_max_hops, to_diagnostics_view, to_stop_reason_view, DetailLevel};

#[test]
fn stop_reason_view_uses_wire_code() {
    let reason = StopReason {
        code: StopReasonCode::RetryBudgetExhausted,
        message: "gave up".to_string(),
        detail: Some("{\"attempts\":3}".to_string()),
    };
    let view = to_stop_reason_view(&reason);
    assert_eq!(view.code, "retry_budget_exhausted");
    assert_eq!(view.message, "gave up");
    assert_eq!(view.detail.as_deref(), Some("{\"attempts\":3}"));
}

#[test]
fn diagnostics_view_uses_wire_class_and_messages() {
    let diagnostics = AutonomyDiagnostics {
        class: AutonomyDiagnosticsClass::CompileFailure,
        retryable: true,
        summary: "compile failed".to_string(),
        messages: vec!["bad opt level".to_string(), "second".to_string()],
        detail: None,
    };
    let view = to_diagnostics_view(&diagnostics);
    assert_eq!(view.class, "compile_failure");
    assert!(view.retryable);
    assert_eq!(view.summary, "compile failed");
    assert_eq!(view.key_diagnostics, vec!["bad opt level".to_string(), "second".to_string()]);
    assert_eq!(view.detail, None);
    assert_eq!(AutonomyDiagnosticsClass::VerifyFailure.as_str(), "verify_failure");
    assert_eq!(AutonomyDiagnosticsClass::ActionFailure.as_str(), "action_failure");
}

#[test]
fn observability_requires_active_program() {
    assert!(ensure_active_program(3, 3).is_ok());
    match ensure_active_program(1, 2) {
        Err(ApiError::BadRequest(m)) => {
            assert_eq!(m, "program 2 is not the active program (active: 1)");
        }
        _ => panic!("expected BadRequest"),
    }
}

#[test]
fn query_defaults() {
    assert_eq!(default_max_hops(), 1);
    assert_eq!(DetailLevel::default(), DetailLevel::Standard);
}

#[test]
fn clock_renders_decimal_seconds() {
    let before = unix_seconds();
    let text = now_string();
    let again = chrono_like_now();
    let after = unix_seconds();
    assert!(!text.is_empty() && text.chars().all(|c| c.is_ascii_digit()));
    let parsed: u64 = text.parse().unwrap();
    assert!(before <= parsed && parsed <= after);
    let parsed_again: u64 = again.parse().unwrap();
    assert!(parsed <= parsed_again && parsed_again <= after);
    assert!(before > 1_600_000_000);
}
