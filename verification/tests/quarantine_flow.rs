use quarantine_core::quarantinemanager::QuarantineManager;
use quarantine_core::quarantinemanager::QuarantineResult;
use quarantine_core::quarantinemanager::QuarantineStep;

fn manager() -> QuarantineManager {
    QuarantineManager::new(String::from("RosaryAV"))
}

#[test]
fn manager_keeps_its_configured_name() {
    let m = manager();
    assert_eq!(m.quarantine_file_name(), "RosaryAV");
}

#[test]
fn existing_directory_leads_to_relocation() {
    let m = manager();
    assert_eq!(m.next_step(true, false), QuarantineStep::Relocate);
    assert_eq!(m.next_step(true, true), QuarantineStep::Relocate);
}

#[test]
fn created_directory_leads_to_relocation() {
    let m = manager();
    assert_eq!(m.next_step(false, true), QuarantineStep::Relocate);
}

#[test]
fn unusable_directory_leads_to_fallback_delete() {
    let m = manager();
    assert_eq!(m.next_step(false, false), QuarantineStep::DeleteSource);
}

#[test]
fn successful_relocation_is_quarantined() {
    let m = manager();
    let step = m.next_step(true, false);
    assert_eq!(m.classify(step, true), QuarantineResult::Quarantined);
}

#[test]
fn failed_relocation_is_total_failure() {
    let m = manager();
    let step = m.next_step(true, false);
    assert_eq!(m.classify(step, false), QuarantineResult::TotalFailure);
}

#[test]
fn fallback_delete_success_is_quarantined_with_source_deleted() {
    let m = manager();
    let step = m.next_step(false, false);
    assert_eq!(
        m.classify(step, true),
        QuarantineResult::QuarantinedWithSourceDeleted
    );
}

#[test]
fn fallback_delete_failure_is_delete_failed() {
    let m = manager();
    let step = m.next_step(false, false);
    assert_eq!(m.classify(step, false), QuarantineResult::DeleteFailed);
}

#[test]
fn vanished_source_classifies_as_failure_not_success() {
    // A second attempt on an already-quarantined path finds the directory in
    // place but the rename fails because the source is gone: the attempt must
    // classify as a failure outcome rather than silently succeed.
    let m = manager();
    let step = m.next_step(true, false);
    let outcome = m.classify(step, false);
    assert_ne!(outcome, QuarantineResult::Quarantined);
    assert_ne!(outcome, QuarantineResult::QuarantinedWithSourceDeleted);
    assert_eq!(outcome, QuarantineResult::TotalFailure);
}
