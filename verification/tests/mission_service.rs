use amr_backend::error::AppError;
use amr_backend::services::mission_service::{check_deletable, page_offset, plan_transition, validate_transition};

fn j(s: &str) -> serde_json::Value {
    serde_json::from_str(s).unwrap()
}

#[test]
fn test_valid_transitions() {
    assert!(validate_transition("created", "assigned").is_ok());
    assert!(validate_transition("created", "cancelled").is_ok());
    assert!(validate_transition("assigned", "executing").is_ok());
    assert!(validate_transition("assigned", "cancelled").is_ok());
    assert!(validate_transition("executing", "completed").is_ok());
    assert!(validate_transition("executing", "failed").is_ok());
    assert!(validate_transition("executing", "cancelled").is_ok());
}

#[test]
fn test_invalid_transitions() {
    assert!(validate_transition("created", "executing").is_err());
    assert!(validate_transition("created", "completed").is_err());
    assert!(validate_transition("created", "failed").is_err());
    assert!(validate_transition("assigned", "assigned").is_err());
    assert!(validate_transition("assigned", "completed").is_err());
    assert!(validate_transition("assigned", "failed").is_err());
    assert!(validate_transition("executing", "assigned").is_err());
    assert!(validate_transition("executing", "created").is_err());
    assert!(validate_transition("completed", "cancelled").is_err());
    assert!(validate_transition("failed", "cancelled").is_err());
    assert!(validate_transition("cancelled", "created").is_err());
}

#[test]
fn invalid_transition_message_names_both_statuses() {
    let err = validate_transition("completed", "assigned").unwrap_err();
    assert_eq!(err, AppError::Validation("Invalid transition: completed → assigned".to_string()));
}

#[test]
fn ended_missions_have_no_transitions() {
    for from in ["completed", "failed", "cancelled"] {
        for to in ["created", "assigned", "executing", "completed", "failed", "cancelled"] {
            assert!(validate_transition(from, to).is_err());
        }
    }
}

#[test]
fn assign_sets_the_robot() {
    let u = plan_transition("created", None, j(r#"{}"#), "assigned", Some(7), None).unwrap();
    assert_eq!(u.status, "assigned");
    assert_eq!(u.robot_id, Some(7));
    assert_eq!(u.metadata, j(r#"{}"#));
}

#[test]
fn other_transitions_keep_the_robot() {
    let meta = j(r#"{"k": 1}"#);
    let u = plan_transition("assigned", Some(42), meta.clone(), "executing", None, None).unwrap();
    assert_eq!(u.status, "executing");
    assert_eq!(u.robot_id, Some(42));
    assert_eq!(u.metadata, meta);
}

#[test]
fn fail_records_the_reason() {
    let u = plan_transition("executing", Some(1), j(r#"{"a": true}"#), "failed", None, Some("battery low"))
        .unwrap();
    assert_eq!(u.metadata, j(r#"{"a": true, "fail_reason": "battery low"}"#));
}

#[test]
fn fail_replaces_an_earlier_reason() {
    let u = plan_transition("executing", None, j(r#"{"fail_reason": "old", "n": [1]}"#), "failed", None, Some("new"))
        .unwrap();
    assert_eq!(u.metadata, j(r#"{"fail_reason": "new", "n": [1]}"#));
}

#[test]
fn fail_reason_ignored_for_non_object_metadata() {
    let u = plan_transition("executing", None, j(r#"[1, 2]"#), "failed", None, Some("x")).unwrap();
    assert_eq!(u.metadata, j(r#"[1, 2]"#));
}

#[test]
fn refused_plan_reports_the_transition() {
    let r = plan_transition("created", None, j(r#"{}"#), "completed", None, None);
    match r {
        Err(AppError::Validation(m)) => assert_eq!(m, "Invalid transition: created → completed"),
        _ => panic!("expected a validation error"),
    }
}

#[test]
fn only_created_missions_are_deletable() {
    assert!(check_deletable("created").is_ok());
    assert_eq!(
        check_deletable("executing").unwrap_err(),
        AppError::Validation(
            "Can only delete missions in 'created' status, current status: executing".to_string()
        )
    );
}

#[test]
fn page_offsets() {
    assert_eq!(page_offset(1, 50), 0);
    assert_eq!(page_offset(3, 20), 40);
}
