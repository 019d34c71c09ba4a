use dex_core::pausable::{AccessError, PausableData};

#[test]
fn pausable_works() {
    let mut guard = PausableData::new();

    // The guard starts running.
    assert!(guard.ensure_not_paused().is_ok());
    assert!(!guard.is_paused());

    // Pause it.
    guard.pause().unwrap();
    assert_eq!(guard.ensure_not_paused(), Err(AccessError::Paused));
    assert!(guard.is_paused());

    // Unpause it.
    guard.unpause().unwrap();
    assert!(guard.ensure_not_paused().is_ok());
}

#[test]
fn pause_transitions_are_checked() {
    let mut guard = PausableData::new();
    assert_eq!(guard.ensure_paused(), Err(AccessError::NotPaused));
    assert_eq!(guard.unpause(), Err(AccessError::NotPaused));
    guard.pause().unwrap();
    assert!(guard.ensure_paused().is_ok());
    assert_eq!(guard.pause(), Err(AccessError::Paused));
}
