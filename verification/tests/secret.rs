use file_transfer::error::CoreError;
use file_transfer::secret::{
    delete, delete_outcome, load, store, keychain_entry, load_outcome, store_outcome, store_request, DeleteFailure,
};

#[test]
fn entries_live_under_the_application_service() {
    let e = keychain_entry("deploy@host");
    assert_eq!(e.service, "file_transfer");
    assert_eq!(e.account, "deploy@host");
}

#[test]
fn store_request_writes_the_secret_to_the_account() {
    let w = store_request("deploy@host", "s3cret");
    assert_eq!(w.entry.service, "file_transfer");
    assert_eq!(w.entry.account, "deploy@host");
    assert_eq!(w.secret, "s3cret");
}

#[test]
fn store_outcome_reports_keychain_errors() {
    assert!(matches!(store_outcome(Ok(())), Ok(())));
    match store_outcome(Err("locked".to_string())) {
        Err(CoreError::Secret(m)) => assert_eq!(m, "locked"),
        other => panic!("unexpected outcome: {other:?}"),
    }
}

#[test]
fn delete_outcome_treats_a_missing_entry_as_deleted() {
    assert!(matches!(delete_outcome(Ok(())), Ok(())));
    assert!(matches!(delete_outcome(Err(DeleteFailure::NoEntry)), Ok(())));
    match delete_outcome(Err(DeleteFailure::Other("locked".to_string()))) {
        Err(CoreError::Secret(m)) => assert_eq!(m, "locked"),
        other => panic!("unexpected outcome: {other:?}"),
    }
}

#[test]
fn load_outcome_hands_the_secret_on_unchanged() {
    assert_eq!(load_outcome(Ok("hunter2".to_string())).unwrap(), "hunter2");
    match load_outcome(Err("no entry".to_string())) {
        Err(CoreError::Secret(m)) => assert_eq!(m, "no entry"),
        other => panic!("unexpected outcome: {other:?}"),
    }
}

#[test]
fn missing_secret_is_a_keychain_error() {
    match load("ft-test-missing-account") {
        Err(CoreError::Secret(m)) => assert!(!m.is_empty()),
        Ok(_) => panic!("nothing was stored under this account"),
        Err(other) => panic!("unexpected error: {other:?}"),
    }
}

#[test]
fn deleting_a_missing_secret_is_fine() {
    assert!(delete("ft-test-missing-account").is_ok());
}

#[test]
fn storing_reports_only_keychain_errors() {
    match store("ft-test-account", "s3cret") {
        Ok(()) => {}
        Err(CoreError::Secret(_)) => {}
        Err(other) => panic!("unexpected error: {other:?}"),
    }
}
