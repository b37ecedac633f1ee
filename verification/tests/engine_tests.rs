use transfer_engine::callback::CallbackBodyType;
use transfer_engine::callback::CallbackSpec;
use transfer_engine::engine::credential_deadline;
use transfer_engine::engine::ListedPart;
use transfer_engine::engine::Step;
use transfer_engine::engine::UploadAction;
use transfer_engine::engine::UploadEvent;
use transfer_engine::engine::UploadSession;
use transfer_engine::error::RemoteStage;
use transfer_engine::error::TransferError;
use transfer_engine::events::Notification;
use transfer_engine::events::OssUploadInitEvent;
use transfer_engine::events::UploadProgressEvent;
use transfer_engine::model::Failure;
use transfer_engine::model::Phase;
use transfer_engine::planner::ByteRange;
use transfer_engine::planner::MIB;
use transfer_engine::signal::UploadSignal;

fn progress(uploaded: u64, total: u64, part: u32, parts: u32, status: &str) -> Option<Notification> {
    Some(Notification::Progress(UploadProgressEvent {
        upload_id: "t1".to_string(),
        uploaded_size: uploaded,
        total_size: total,
        part_number: part,
        total_parts: parts,
        status: status.to_string(),
    }))
}

fn idle() -> Step {
    Step { notify: None, action: UploadAction::Idle }
}

fn listed(part_number: u32, etag: &str, size: u64) -> ListedPart {
    ListedPart { part_number, etag: etag.to_string(), size }
}

fn sample_callback() -> CallbackSpec {
    CallbackSpec {
        url: "http://cb.example/notify".to_string(),
        body: "bucket=${bucket}".to_string(),
        body_type: CallbackBodyType::FormUrlEncoded,
        custom_variables: vec![("x:a".to_string(), "1".to_string())],
    }
}

fn opened_session(file_size: u64) -> UploadSession {
    let mut s = UploadSession::new("t1", file_size, None, None, None);
    assert_eq!(s.start(), Step { notify: None, action: UploadAction::OpenSession });
    let step = s.session_opened("sid".to_string());
    assert_eq!(step.action, UploadAction::Observe);
    s
}

#[test]
fn small_file_is_sent_in_one_request() {
    let mut s = UploadSession::new("t1", MIB, None, None, Some(sample_callback()));
    assert_eq!(s.phase(), Phase::Initiating);
    let step = s.start();
    assert_eq!(
        step,
        Step { notify: None, action: UploadAction::PutObject { callback: Some(sample_callback()) } }
    );
    assert_eq!(s.phase(), Phase::SimpleUpload);
    let step = s.object_put();
    assert_eq!(
        step,
        Step { notify: progress(MIB, MIB, 1, 1, "complete"), action: UploadAction::Succeed }
    );
    assert_eq!(s.phase(), Phase::Done);
}

#[test]
fn simple_upload_failure_ends_the_transfer() {
    let mut s = UploadSession::new("t1", MIB, None, None, None);
    s.start();
    let step = s.object_put_failed("boom".to_string());
    assert_eq!(
        step.action,
        UploadAction::Fail(TransferError::RemoteTransient {
            stage: RemoteStage::PutObject,
            reason: "boom".to_string()
        })
    );
    assert_eq!(step.notify, None);
    assert_eq!(s.phase(), Phase::Failed(Failure::Remote(RemoteStage::PutObject)));
}

#[test]
fn fresh_multipart_upload_runs_to_completion() {
    let size = 12 * MIB;
    let mut s = UploadSession::new("t1", size, None, None, Some(sample_callback()));
    assert_eq!(s.start(), Step { notify: None, action: UploadAction::OpenSession });
    assert_eq!(s.phase(), Phase::Opening);
    let step = s.session_opened("sid".to_string());
    assert_eq!(
        step,
        Step {
            notify: Some(Notification::SessionInit(OssUploadInitEvent {
                upload_id: "t1".to_string(),
                oss_upload_id: "sid".to_string(),
            })),
            action: UploadAction::Observe,
        }
    );
    assert_eq!(s.remote_session_id(), Some("sid".to_string()));
    let expected = [(1u32, 0u64, 5 * MIB), (2, 5 * MIB, 10 * MIB), (3, 10 * MIB, 12 * MIB)];
    for (n, start, end) in expected {
        assert_eq!(s.phase(), Phase::Checking);
        assert!(!s.is_completed(n));
        let step = s.observed(1, UploadSignal::Running);
        assert_eq!(
            step,
            Step {
                notify: None,
                action: UploadAction::UploadPart {
                    session_id: "sid".to_string(),
                    part_number: n,
                    range: ByteRange { start, end },
                },
            }
        );
        assert_eq!(s.phase(), Phase::Uploading);
        let step = s.part_uploaded(format!("etag{}", n));
        assert_eq!(step.notify, progress(end, size, n, 3, "uploading"));
        assert!(s.is_completed(n));
        assert_eq!(s.uploaded_bytes(), end);
        if n < 3 {
            assert_eq!(step.action, UploadAction::Observe);
        } else {
            assert_eq!(
                step.action,
                UploadAction::Complete {
                    session_id: "sid".to_string(),
                    parts: vec![
                        (1, "etag1".to_string()),
                        (2, "etag2".to_string()),
                        (3, "etag3".to_string()),
                    ],
                    callback: Some(sample_callback()),
                }
            );
        }
    }
    assert_eq!(s.phase(), Phase::Completing);
    let step = s.completed();
    assert_eq!(
        step,
        Step { notify: progress(size, size, 3, 3, "complete"), action: UploadAction::Succeed }
    );
    assert_eq!(s.phase(), Phase::Done);
    assert_eq!(s.step(UploadEvent::Start), idle());
    assert_eq!(s.phase(), Phase::Done);
}

#[test]
fn resumed_upload_sends_only_missing_parts() {
    let size = 12 * MIB;
    let mut s = UploadSession::new("t1", size, Some("old".to_string()), None, None);
    assert_eq!(
        s.start(),
        Step { notify: None, action: UploadAction::ListParts { session_id: "old".to_string() } }
    );
    assert_eq!(s.phase(), Phase::Reconciling);
    let listing = vec![listed(1, "a", 5 * MIB), listed(2, "b", 5 * MIB)];
    let step = s.parts_listed(&listing);
    assert_eq!(
        step,
        Step { notify: progress(10 * MIB, size, 2, 3, "uploading"), action: UploadAction::Observe }
    );
    assert_eq!(s.remote_session_id(), Some("old".to_string()));
    assert!(s.is_completed(1));
    assert!(s.is_completed(2));
    assert!(!s.is_completed(3));
    let step = s.observed(0, UploadSignal::Running);
    assert_eq!(
        step.action,
        UploadAction::UploadPart {
            session_id: "old".to_string(),
            part_number: 3,
            range: ByteRange { start: 10 * MIB, end: 12 * MIB },
        }
    );
    let step = s.part_uploaded("c".to_string());
    assert_eq!(step.notify, progress(size, size, 3, 3, "uploading"));
    assert_eq!(
        step.action,
        UploadAction::Complete {
            session_id: "old".to_string(),
            parts: vec![(1, "a".to_string()), (2, "b".to_string()), (3, "c".to_string())],
            callback: None,
        }
    );
}

#[test]
fn resumed_upload_with_gaps_fills_them_in_order() {
    let size = 22 * MIB;
    let mut s = UploadSession::new("t1", size, Some("old".to_string()), None, None);
    s.start();
    let listing = vec![listed(4, "d", 5 * MIB), listed(2, "b", 5 * MIB)];
    let step = s.parts_listed(&listing);
    assert_eq!(step.notify, progress(10 * MIB, size, 2, 5, "uploading"));
    let mut sent = Vec::new();
    let mut step = step;
    while step.action == UploadAction::Observe {
        let upload = s.observed(0, UploadSignal::Running);
        match upload.action {
            UploadAction::UploadPart { part_number, .. } => sent.push(part_number),
            other => panic!("unexpected action {:?}", other),
        }
        step = s.part_uploaded(format!("new{}", sent.len()));
    }
    assert_eq!(sent, vec![1, 3, 5]);
    assert_eq!(
        step.action,
        UploadAction::Complete {
            session_id: "old".to_string(),
            parts: vec![
                (1, "new1".to_string()),
                (2, "b".to_string()),
                (3, "new2".to_string()),
                (4, "d".to_string()),
                (5, "new3".to_string()),
            ],
            callback: None,
        }
    );
    assert_eq!(s.uploaded_bytes(), size);
}

#[test]
fn fully_listed_upload_completes_at_once() {
    let size = 12 * MIB;
    let mut s = UploadSession::new("t1", size, Some("old".to_string()), None, None);
    s.start();
    let listing = vec![listed(3, "c", 2 * MIB), listed(1, "a", 5 * MIB), listed(2, "b", 5 * MIB)];
    let step = s.parts_listed(&listing);
    assert_eq!(step.notify, progress(size, size, 3, 3, "uploading"));
    assert_eq!(
        step.action,
        UploadAction::Complete {
            session_id: "old".to_string(),
            parts: vec![(1, "a".to_string()), (2, "b".to_string()), (3, "c".to_string())],
            callback: None,
        }
    );
    assert_eq!(s.phase(), Phase::Completing);
}

#[test]
fn listed_parts_that_do_not_fit_the_plan_are_sent_again() {
    let size = 12 * MIB;
    let mut s = UploadSession::new("t1", size, Some("old".to_string()), None, None);
    s.start();
    let listing = vec![
        listed(0, "zero", 5 * MIB),
        listed(4, "beyond", 5 * MIB),
        listed(1, "first", 5 * MIB),
        listed(1, "again", 5 * MIB),
        listed(2, "short", 4 * MIB),
        listed(3, "long", 5 * MIB),
    ];
    let step = s.parts_listed(&listing);
    assert_eq!(step.notify, progress(5 * MIB, size, 1, 3, "uploading"));
    assert_eq!(step.action, UploadAction::Observe);
    assert!(s.is_completed(1));
    assert!(!s.is_completed(2));
    assert!(!s.is_completed(3));
    assert!(!s.is_completed(0));
    assert!(!s.is_completed(4));
    let step = s.observed(0, UploadSignal::Running);
    assert_eq!(
        step.action,
        UploadAction::UploadPart {
            session_id: "old".to_string(),
            part_number: 2,
            range: ByteRange { start: 5 * MIB, end: 10 * MIB },
        }
    );
    s.part_uploaded("b".to_string());
    s.observed(0, UploadSignal::Running);
    let step = s.part_uploaded("c".to_string());
    assert_eq!(
        step.action,
        UploadAction::Complete {
            session_id: "old".to_string(),
            parts: vec![(1, "first".to_string()), (2, "b".to_string()), (3, "c".to_string())],
            callback: None,
        }
    );
}

#[test]
fn stale_session_is_replaced_by_a_new_one() {
    let mut s = UploadSession::new("t1", 12 * MIB, Some("stale".to_string()), None, None);
    s.start();
    assert_eq!(s.list_failed(), Step { notify: None, action: UploadAction::OpenSession });
    assert_eq!(s.phase(), Phase::Opening);
    assert_eq!(s.remote_session_id(), None);
    let step = s.session_opened("fresh".to_string());
    assert_eq!(
        step.notify,
        Some(Notification::SessionInit(OssUploadInitEvent {
            upload_id: "t1".to_string(),
            oss_upload_id: "fresh".to_string(),
        }))
    );
    assert_eq!(step.action, UploadAction::Observe);
    assert_eq!(s.remote_session_id(), Some("fresh".to_string()));
    let step = s.observed(0, UploadSignal::Running);
    assert_eq!(
        step.action,
        UploadAction::UploadPart {
            session_id: "fresh".to_string(),
            part_number: 1,
            range: ByteRange { start: 0, end: 5 * MIB },
        }
    );
}

#[test]
fn resumed_small_file_is_multipart() {
    let mut s = UploadSession::new("t1", MIB, Some("old".to_string()), None, None);
    assert_eq!(
        s.start().action,
        UploadAction::ListParts { session_id: "old".to_string() }
    );
    let step = s.parts_listed(&Vec::new());
    assert_eq!(step.notify, progress(0, MIB, 0, 1, "uploading"));
    assert_eq!(step.action, UploadAction::Observe);
    let step = s.observed(0, UploadSignal::Running);
    assert_eq!(
        step.action,
        UploadAction::UploadPart {
            session_id: "old".to_string(),
            part_number: 1,
            range: ByteRange { start: 0, end: MIB },
        }
    );
}

#[test]
fn opening_a_session_may_fail() {
    let mut s = UploadSession::new("t1", 12 * MIB, None, None, None);
    s.start();
    let step = s.open_failed("denied".to_string());
    assert_eq!(
        step.action,
        UploadAction::Fail(TransferError::RemoteTransient {
            stage: RemoteStage::OpenSession,
            reason: "denied".to_string()
        })
    );
    assert_eq!(s.phase(), Phase::Failed(Failure::Remote(RemoteStage::OpenSession)));
}

#[test]
fn cancel_between_parts_aborts_and_sends_nothing_more() {
    let mut s = opened_session(12 * MIB);
    s.observed(0, UploadSignal::Running);
    s.part_uploaded("e1".to_string());
    let step = s.observed(0, UploadSignal::Cancelled);
    assert_eq!(
        step,
        Step { notify: None, action: UploadAction::Abort { session_id: "sid".to_string() } }
    );
    assert_eq!(s.phase(), Phase::Aborting);
    assert_eq!(s.observed(0, UploadSignal::Running), idle());
    assert_eq!(s.signal_changed(UploadSignal::Running), idle());
    assert_eq!(s.part_uploaded("late".to_string()), idle());
    assert_eq!(s.phase(), Phase::Aborting);
    assert_eq!(
        s.abort_attempted(),
        Step { notify: None, action: UploadAction::Fail(TransferError::Cancelled) }
    );
    assert_eq!(s.phase(), Phase::Cancelled);
    assert_eq!(s.observed(0, UploadSignal::Running), idle());
    assert_eq!(s.signal_changed(UploadSignal::Running), idle());
    assert_eq!(s.step(UploadEvent::AbortAttempted), idle());
    assert_eq!(s.step(UploadEvent::Completed), idle());
    assert_eq!(s.phase(), Phase::Cancelled);
    assert!(s.is_completed(1));
    assert!(!s.is_completed(2));
    assert_eq!(s.uploaded_bytes(), 5 * MIB);
}

#[test]
fn pause_then_resume_goes_on_at_the_same_part() {
    let mut s = opened_session(12 * MIB);
    s.observed(0, UploadSignal::Running);
    s.part_uploaded("e1".to_string());
    let step = s.observed(0, UploadSignal::Paused);
    assert_eq!(step, Step { notify: None, action: UploadAction::AwaitSignal });
    assert_eq!(s.phase(), Phase::Paused);
    let step = s.signal_changed(UploadSignal::Paused);
    assert_eq!(step, Step { notify: None, action: UploadAction::AwaitSignal });
    assert_eq!(s.phase(), Phase::Paused);
    let step = s.signal_changed(UploadSignal::Running);
    assert_eq!(
        step.action,
        UploadAction::UploadPart {
            session_id: "sid".to_string(),
            part_number: 2,
            range: ByteRange { start: 5 * MIB, end: 10 * MIB },
        }
    );
    assert_eq!(s.phase(), Phase::Uploading);
    assert_eq!(s.uploaded_bytes(), 5 * MIB);
}

#[test]
fn cancel_while_paused_aborts() {
    let mut s = opened_session(12 * MIB);
    s.observed(0, UploadSignal::Paused);
    let step = s.signal_changed(UploadSignal::Cancelled);
    assert_eq!(step.action, UploadAction::Abort { session_id: "sid".to_string() });
    assert_eq!(s.phase(), Phase::Aborting);
    let step = s.step(UploadEvent::AbortAttempted);
    assert_eq!(step.action, UploadAction::Fail(TransferError::Cancelled));
    assert_eq!(s.phase(), Phase::Cancelled);
}

#[test]
fn closed_signal_channel_fails_a_paused_transfer() {
    let mut s = opened_session(12 * MIB);
    s.observed(0, UploadSignal::Paused);
    let step = s.signal_closed("gone".to_string());
    assert_eq!(step.action, UploadAction::Fail(TransferError::SignalClosed("gone".to_string())));
    assert_eq!(s.phase(), Phase::Failed(Failure::SignalClosed));
}

#[test]
fn expired_credential_stops_before_the_part() {
    let mut s = UploadSession::new("t1", 12 * MIB, None, Some(1_000_000), None);
    assert_eq!(s.credential_deadline_ms(), Some(700_000));
    s.start();
    s.session_opened("sid".to_string());
    let step = s.observed(699_999, UploadSignal::Running);
    assert_eq!(
        step.action,
        UploadAction::UploadPart {
            session_id: "sid".to_string(),
            part_number: 1,
            range: ByteRange { start: 0, end: 5 * MIB },
        }
    );
    s.part_uploaded("e1".to_string());
    let step = s.observed(700_000, UploadSignal::Running);
    assert_eq!(step, Step { notify: None, action: UploadAction::Fail(TransferError::CredentialExpired) });
    assert_eq!(s.phase(), Phase::Failed(Failure::CredentialExpired));
    assert_eq!(s.remote_session_id(), Some("sid".to_string()));
    assert!(s.is_completed(1));
    assert_eq!(s.observed(0, UploadSignal::Running), idle());
}

#[test]
fn expired_credential_wins_over_cancel_without_abort() {
    let mut s = UploadSession::new("t1", 12 * MIB, None, Some(300_000), None);
    assert_eq!(s.credential_deadline_ms(), Some(0));
    s.start();
    s.session_opened("sid".to_string());
    let step = s.observed(0, UploadSignal::Cancelled);
    assert_eq!(step.action, UploadAction::Fail(TransferError::CredentialExpired));
}

#[test]
fn deadline_is_not_checked_again_after_a_pause() {
    let mut s = UploadSession::new("t1", 12 * MIB, None, Some(1_000_000), None);
    s.start();
    s.session_opened("sid".to_string());
    s.observed(1, UploadSignal::Paused);
    let step = s.signal_changed(UploadSignal::Running);
    assert_eq!(
        step.action,
        UploadAction::UploadPart {
            session_id: "sid".to_string(),
            part_number: 1,
            range: ByteRange { start: 0, end: 5 * MIB },
        }
    );
}

#[test]
fn credential_deadline_keeps_a_margin_of_five_minutes() {
    assert_eq!(credential_deadline(None), None);
    assert_eq!(credential_deadline(Some(0)), Some(0));
    assert_eq!(credential_deadline(Some(299_999)), Some(0));
    assert_eq!(credential_deadline(Some(300_000)), Some(0));
    assert_eq!(credential_deadline(Some(300_001)), Some(1));
    assert_eq!(credential_deadline(Some(u64::MAX)), Some(u64::MAX - 300_000));
}

#[test]
fn failed_part_ends_the_transfer_and_keeps_what_is_done() {
    let mut s = opened_session(12 * MIB);
    s.observed(0, UploadSignal::Running);
    s.part_uploaded("e1".to_string());
    s.observed(0, UploadSignal::Running);
    let step = s.part_failed("timeout".to_string());
    assert_eq!(
        step,
        Step {
            notify: None,
            action: UploadAction::Fail(TransferError::RemoteTransient {
                stage: RemoteStage::UploadPart(2),
                reason: "timeout".to_string()
            }),
        }
    );
    assert_eq!(s.phase(), Phase::Failed(Failure::Remote(RemoteStage::UploadPart(2))));
    assert!(s.is_completed(1));
    assert_eq!(s.uploaded_bytes(), 5 * MIB);
    assert_eq!(s.remote_session_id(), Some("sid".to_string()));
}

#[test]
fn failed_completion_ends_the_transfer() {
    let mut s = opened_session(MIB * 6);
    s.observed(0, UploadSignal::Running);
    s.part_uploaded("e1".to_string());
    s.observed(0, UploadSignal::Running);
    let step = s.part_uploaded("e2".to_string());
    assert!(matches!(step.action, UploadAction::Complete { .. }));
    let step = s.complete_failed("bad".to_string());
    assert_eq!(
        step.action,
        UploadAction::Fail(TransferError::RemoteTransient {
            stage: RemoteStage::Complete,
            reason: "bad".to_string()
        })
    );
    assert_eq!(s.phase(), Phase::Failed(Failure::Remote(RemoteStage::Complete)));
}

#[test]
fn events_out_of_turn_change_nothing() {
    let mut s = UploadSession::new("t1", 12 * MIB, None, None, None);
    assert_eq!(s.observed(0, UploadSignal::Running), idle());
    assert_eq!(s.part_uploaded("x".to_string()), idle());
    assert_eq!(s.parts_listed(&vec![listed(1, "a", 5 * MIB)]), idle());
    assert_eq!(s.session_opened("sid".to_string()), idle());
    assert_eq!(s.object_put(), idle());
    assert_eq!(s.completed(), idle());
    assert_eq!(s.list_failed(), idle());
    assert_eq!(s.signal_changed(UploadSignal::Cancelled), idle());
    assert_eq!(s.abort_attempted(), idle());
    assert_eq!(s.phase(), Phase::Initiating);
    assert_eq!(s.uploaded_bytes(), 0);
    assert_eq!(s.remote_session_id(), None);
    assert_eq!(s.start().action, UploadAction::OpenSession);
    assert_eq!(s.start(), idle());
}

#[test]
fn step_dispatches_every_event() {
    let size = 6 * MIB;
    let mut s = UploadSession::new("t1", size, Some("old".to_string()), Some(10_000_000), None);
    assert_eq!(
        s.step(UploadEvent::Start).action,
        UploadAction::ListParts { session_id: "old".to_string() }
    );
    assert_eq!(s.step(UploadEvent::ListFailed).action, UploadAction::OpenSession);
    assert_eq!(s.step(UploadEvent::SessionOpened("sid".to_string())).action, UploadAction::Observe);
    assert_eq!(
        s.step(UploadEvent::Observed { now_ms: 5, signal: UploadSignal::Paused }).action,
        UploadAction::AwaitSignal
    );
    assert_eq!(
        s.step(UploadEvent::SignalChanged(UploadSignal::Running)).action,
        UploadAction::UploadPart {
            session_id: "sid".to_string(),
            part_number: 1,
            range: ByteRange { start: 0, end: 5 * MIB },
        }
    );
    let step = s.step(UploadEvent::PartUploaded("e1".to_string()));
    assert_eq!(step.notify, progress(5 * MIB, size, 1, 2, "uploading"));
    s.step(UploadEvent::Observed { now_ms: 5, signal: UploadSignal::Running });
    let step = s.step(UploadEvent::PartUploaded("e2".to_string()));
    assert_eq!(
        step.action,
        UploadAction::Complete {
            session_id: "sid".to_string(),
            parts: vec![(1, "e1".to_string()), (2, "e2".to_string())],
            callback: None,
        }
    );
    let step = s.step(UploadEvent::Completed);
    assert_eq!(step.notify, progress(size, size, 2, 2, "complete"));
    assert_eq!(step.action, UploadAction::Succeed);
    assert_eq!(s.plan().total_parts(), 2);
}

#[test]
fn step_reports_failures() {
    let mut s = UploadSession::new("t1", MIB, None, None, None);
    s.step(UploadEvent::Start);
    let step = s.step(UploadEvent::ObjectPutFailed("x".to_string()));
    assert!(matches!(step.action, UploadAction::Fail(TransferError::RemoteTransient { .. })));

    let mut s = UploadSession::new("t1", 12 * MIB, None, None, None);
    s.step(UploadEvent::Start);
    let step = s.step(UploadEvent::OpenFailed("x".to_string()));
    assert!(matches!(step.action, UploadAction::Fail(TransferError::RemoteTransient { .. })));

    let mut s = opened_session(12 * MIB);
    s.step(UploadEvent::Observed { now_ms: 0, signal: UploadSignal::Paused });
    let step = s.step(UploadEvent::SignalClosed("x".to_string()));
    assert_eq!(step.action, UploadAction::Fail(TransferError::SignalClosed("x".to_string())));

    let mut s = opened_session(12 * MIB);
    s.step(UploadEvent::Observed { now_ms: 0, signal: UploadSignal::Running });
    let step = s.step(UploadEvent::PartFailed("x".to_string()));
    assert!(matches!(step.action, UploadAction::Fail(TransferError::RemoteTransient { .. })));

    let mut s = UploadSession::new("t1", MIB, None, None, None);
    s.step(UploadEvent::Start);
    let step = s.step(UploadEvent::ObjectPut);
    assert_eq!(step.action, UploadAction::Succeed);

    let mut s = UploadSession::new("t1", 3 * MIB, Some("old".to_string()), None, None);
    s.step(UploadEvent::Start);
    let step = s.step(UploadEvent::PartsListed(vec![listed(1, "a", 3 * MIB)]));
    assert!(matches!(step.action, UploadAction::Complete { .. }));
    let step = s.step(UploadEvent::CompleteFailed("x".to_string()));
    assert!(matches!(step.action, UploadAction::Fail(TransferError::RemoteTransient { .. })));
}

#[test]
fn empty_file_resumed_completes_with_no_parts() {
    let mut s = UploadSession::new("t1", 0, Some("old".to_string()), None, None);
    s.start();
    let step = s.parts_listed(&vec![listed(1, "a", 0)]);
    assert_eq!(step.notify, progress(0, 0, 0, 0, "uploading"));
    assert_eq!(
        step.action,
        UploadAction::Complete { session_id: "old".to_string(), parts: Vec::new(), callback: None }
    );
}

#[test]
fn progress_never_decreases() {
    let size = 27 * MIB + 3;
    let mut s = UploadSession::new("t1", size, Some("old".to_string()), None, None);
    s.start();
    let mut last = 0u64;
    let mut step = s.parts_listed(&vec![listed(3, "c", 5 * MIB), listed(6, "f", 2 * MIB + 3)]);
    loop {
        if let Some(Notification::Progress(p)) = &step.notify {
            assert!(p.uploaded_size >= last);
            assert!(p.uploaded_size <= p.total_size);
            assert_eq!(p.total_size, size);
            last = p.uploaded_size;
        }
        match step.action {
            UploadAction::Observe => {
                s.observed(0, UploadSignal::Running);
                step = s.part_uploaded("e".to_string());
            }
            UploadAction::Complete { ref parts, .. } => {
                let numbers: Vec<u32> = parts.iter().map(|p| p.0).collect();
                assert_eq!(numbers, vec![1, 2, 3, 4, 5, 6]);
                step = s.completed();
            }
            UploadAction::Succeed => break,
            ref other => panic!("unexpected action {:?}", other),
        }
    }
    assert_eq!(last, size);
}
