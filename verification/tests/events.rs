use caliban_operator::crd::Phase;
use caliban_operator::error::Error;
use caliban_operator::events::{
    phase_changed, reconcile_error, task_failed, truncate_note, unattended_admitted, EventType,
    NOTE_MAX,
};

#[test]
fn a_phase_transition_is_a_normal_event_naming_both_phases() {
    let ev = phase_changed(Some(Phase::Provisioning), Phase::Running).expect("a change");
    assert_eq!(ev.type_, EventType::Normal);
    assert_eq!(ev.reason, "PhaseChanged");
    let note = ev.note.unwrap();
    assert!(
        note.contains("Provisioning") && note.contains("Running"),
        "{note}"
    );
}

#[test]
fn an_unchanged_phase_emits_nothing() {
    assert!(phase_changed(Some(Phase::Running), Phase::Running).is_none());
}

#[test]
fn a_first_phase_is_reported_from_none() {
    let ev = phase_changed(None, Phase::Pending).expect("a first phase is a change");
    assert!(ev.note.unwrap().contains("Pending"));
}

#[test]
fn phase_notes_are_spelled_out() {
    let ev = phase_changed(Some(Phase::Provisioning), Phase::Running).unwrap();
    assert_eq!(ev.note.as_deref(), Some("Provisioning → Running"));
    assert_eq!(ev.action, "Reconcile");
    let ev = phase_changed(None, Phase::Completed).unwrap();
    assert_eq!(ev.note.as_deref(), Some("→ Completed"));
    let ev = phase_changed(Some(Phase::Draining), Phase::Failed).unwrap();
    assert_eq!(ev.note.as_deref(), Some("Draining → Failed"));
}

#[test]
fn a_task_failure_is_a_warning_carrying_its_reason() {
    let ev = task_failed("InvalidName", "too long");
    assert_eq!(ev.type_, EventType::Warning);
    assert_eq!(ev.reason, "InvalidName");
    assert_eq!(ev.note.as_deref(), Some("too long"));
}

#[test]
fn a_reconcile_error_is_a_warning() {
    let ev = reconcile_error(&Error::MissingUid("t".into()));
    assert_eq!(ev.type_, EventType::Warning);
    assert_eq!(ev.reason, "ReconcileError");
    assert!(ev.note.unwrap().contains("uid"));
}

#[test]
fn an_api_error_is_named_as_such() {
    let err = Error::Kube("boom".into());
    assert_eq!(err.message(), "kube api: boom");
    assert_eq!(reconcile_error(&err).note.as_deref(), Some("kube api: boom"));
}

#[test]
fn an_unattended_admission_names_the_workspace() {
    let ev = unattended_admitted("team-a-ws");
    assert_eq!(ev.type_, EventType::Normal);
    assert_eq!(ev.reason, "UnattendedAdmitted");
    assert!(ev.note.unwrap().contains("'team-a-ws'"));
}

/// Kubernetes rejects an event note over 1 kB. Truncation must land on a UTF-8 character boundary.
#[test]
fn notes_are_capped_at_one_kilobyte_on_a_char_boundary() {
    let long = "é".repeat(1000); // 2000 bytes
    let t = truncate_note(&long);
    assert!(t.len() <= NOTE_MAX, "{}", t.len());
    assert!(long.starts_with(&t));
    assert_eq!(truncate_note("short"), "short");
}

#[test]
fn as_much_of_a_note_is_kept_as_fits() {
    assert_eq!(truncate_note(&"a".repeat(1024)), "a".repeat(1024));
    assert_eq!(truncate_note(&"a".repeat(1025)), "a".repeat(1024));
    assert_eq!(truncate_note(&"é".repeat(1000)), "é".repeat(512));
    // 341 times three bytes are 1023; a fourth byte does not hold another.
    assert_eq!(truncate_note(&"→".repeat(400)), "→".repeat(341));
    assert_eq!(truncate_note(&"😀".repeat(300)), "😀".repeat(256));
    let mixed = format!("{}😀", "a".repeat(1021));
    assert_eq!(truncate_note(&mixed), "a".repeat(1021));
    // Nothing behind the first character that does not fit is kept.
    let tail = format!("{}😀a", "a".repeat(1022));
    assert_eq!(truncate_note(&tail), "a".repeat(1022));
}
