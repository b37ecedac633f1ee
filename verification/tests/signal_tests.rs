use transfer_engine::error::TransferError;
use transfer_engine::signal::cancel_upload;
use transfer_engine::signal::pause_upload;
use transfer_engine::signal::resume_upload;
use transfer_engine::signal::SignalBus;
use transfer_engine::signal::UploadSignal;

#[test]
fn registered_transfer_starts_running() {
    let mut bus = SignalBus::new();
    assert_eq!(bus.len(), 0);
    assert_eq!(bus.get("a"), None);
    assert_eq!(bus.register("a"), Ok(()));
    assert_eq!(bus.get("a"), Some(UploadSignal::Running));
    assert_eq!(bus.len(), 1);
}

#[test]
fn registering_twice_is_refused() {
    let mut bus = SignalBus::new();
    assert_eq!(bus.register("a"), Ok(()));
    assert_eq!(bus.set("a", UploadSignal::Paused), Ok(()));
    assert_eq!(bus.register("a"), Err(TransferError::DuplicateTransfer));
    assert_eq!(bus.get("a"), Some(UploadSignal::Paused));
    assert_eq!(bus.len(), 1);
}

#[test]
fn signals_on_unknown_transfers_are_refused() {
    let mut bus = SignalBus::new();
    assert_eq!(bus.set("a", UploadSignal::Paused), Err(TransferError::UnknownTransfer));
    assert_eq!(pause_upload(&mut bus, "a"), Err(TransferError::UnknownTransfer));
    assert_eq!(resume_upload(&mut bus, "a"), Err(TransferError::UnknownTransfer));
    assert_eq!(cancel_upload(&mut bus, "a"), Err(TransferError::UnknownTransfer));
    assert_eq!(bus.len(), 0);
}

#[test]
fn pause_resume_cancel_write_the_cell() {
    let mut bus = SignalBus::new();
    bus.register("a").unwrap();
    bus.register("b").unwrap();
    assert_eq!(pause_upload(&mut bus, "a"), Ok(()));
    assert_eq!(bus.get("a"), Some(UploadSignal::Paused));
    assert_eq!(bus.get("b"), Some(UploadSignal::Running));
    assert_eq!(resume_upload(&mut bus, "a"), Ok(()));
    assert_eq!(bus.get("a"), Some(UploadSignal::Running));
    assert_eq!(cancel_upload(&mut bus, "b"), Ok(()));
    assert_eq!(bus.get("b"), Some(UploadSignal::Cancelled));
    assert_eq!(bus.get("a"), Some(UploadSignal::Running));
    assert_eq!(bus.len(), 2);
}

#[test]
fn unregister_removes_only_that_cell() {
    let mut bus = SignalBus::new();
    bus.register("a").unwrap();
    bus.register("b").unwrap();
    bus.register("c").unwrap();
    bus.set("c", UploadSignal::Paused).unwrap();
    assert!(bus.unregister("b"));
    assert!(!bus.unregister("b"));
    assert_eq!(bus.get("b"), None);
    assert_eq!(bus.get("a"), Some(UploadSignal::Running));
    assert_eq!(bus.get("c"), Some(UploadSignal::Paused));
    assert_eq!(bus.len(), 2);
    assert_eq!(pause_upload(&mut bus, "b"), Err(TransferError::UnknownTransfer));
    assert_eq!(bus.register("b"), Ok(()));
    assert_eq!(bus.get("b"), Some(UploadSignal::Running));
}

#[test]
fn ids_are_compared_whole() {
    let mut bus = SignalBus::new();
    bus.register("task").unwrap();
    assert_eq!(bus.get("tas"), None);
    assert_eq!(bus.get("task1"), None);
    assert_eq!(bus.get(""), None);
    assert_eq!(bus.register(""), Ok(()));
    assert_eq!(bus.get(""), Some(UploadSignal::Running));
}
