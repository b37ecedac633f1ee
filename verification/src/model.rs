//! The multipart upload as a state machine over mathematical values: what
//! each event does to a session and which action it calls for.

use vstd::prelude::*;
use crate::callback::CallbackView;
use crate::error::RemoteStage;
use crate::error::TransferErrorView;
use crate::events::NotificationView;
use crate::events::ProgressView;
use crate::events::SessionInitView;
use crate::planner::lemma_parts_len_sum;
use crate::planner::lemma_plan_bounds;
use crate::planner::parts_len_sum;
use crate::planner::PlanView;
use crate::signal::UploadSignal;

verus! {

/// Safety margin before a credential's expiry, in milliseconds: five minutes.
pub const CREDENTIAL_MARGIN_MS: u64 = 300000;

/// Why a transfer failed, without the remote side's message.
#[derive(Clone, Copy, Debug, PartialEq, Eq, Structural)]
pub enum Failure {
    /// The credential's deadline had passed before a part was to be sent.
    CredentialExpired,
    /// A remote operation reported a failure.
    Remote(RemoteStage),
    /// The signal channel went away while the transfer was paused.
    SignalClosed,
}

/// Where a transfer stands.
#[derive(Clone, Copy, Debug, PartialEq, Eq, Structural)]
pub enum Phase {
    /// Created; nothing was asked of the remote side yet.
    Initiating,
    /// The single request of a simple upload is under way.
    SimpleUpload,
    /// The parts of the session to resume are being listed.
    Reconciling,
    /// A new multipart session is being opened.
    Opening,
    /// Transferring: the clock and the signal are read before the part at
    /// the cursor.
    Checking,
    /// Transferring: suspended before the part at the cursor.
    Paused,
    /// Transferring: the part at the cursor is being sent.
    Uploading,
    /// The completion request is under way.
    Completing,
    /// The caller cancelled the transfer; the remote session is being asked
    /// to abort.
    Aborting,
    /// The object is final.
    Done,
    /// The caller cancelled the transfer.
    Cancelled,
    /// The transfer failed.
    Failed(Failure),
}

impl Phase {
    /// No event moves a transfer out of this phase.
    pub open spec fn terminal(self) -> bool {
        self is Done || self is Cancelled || self is Failed
    }

    /// The transfer is between two parts or sending one.
    pub open spec fn transferring(self) -> bool {
        self is Checking || self is Paused || self is Uploading
    }
}

/// A part that the remote side reports as durable.
pub struct ListedPartView {
    pub part_number: int,
    pub etag: Seq<char>,
    pub size: int,
}

/// What the world reports back to a transfer.
pub enum EventView {
    Start,
    ObjectPut,
    ObjectPutFailed(Seq<char>),
    PartsListed(Seq<ListedPartView>),
    ListFailed,
    SessionOpened(Seq<char>),
    OpenFailed(Seq<char>),
    Observed { now_ms: int, signal: UploadSignal },
    SignalChanged(UploadSignal),
    SignalClosed(Seq<char>),
    PartUploaded(Seq<char>),
    PartFailed(Seq<char>),
    Completed,
    CompleteFailed(Seq<char>),
    AbortAttempted,
}

/// What a transfer asks the world to do next.
pub enum ActionView {
    PutObject { callback: Option<CallbackView> },
    ListParts { session_id: Seq<char> },
    OpenSession,
    Observe,
    AwaitSignal,
    UploadPart { session_id: Seq<char>, part_number: int, start: int, end: int },
    Complete {
        session_id: Seq<char>,
        parts: Seq<(int, Seq<char>)>,
        callback: Option<CallbackView>,
    },
    Abort { session_id: Seq<char> },
    Succeed,
    Fail(TransferErrorView),
    Idle,
}

/// The outcome of one event: a message for the user interface, if any, and
/// the next action.
pub struct StepView {
    pub notify: Option<NotificationView>,
    pub action: ActionView,
}

/// One upload, as mathematical values.
pub struct SessionView {
    pub upload_id: Seq<char>,
    pub plan: PlanView,
    pub resume_id: Option<Seq<char>>,
    pub session_id: Option<Seq<char>>,
    pub deadline_ms: Option<int>,
    pub callback: Option<CallbackView>,
    pub phase: Phase,
    /// Slot `n - 1` holds the etag of part `n` once the remote side has
    /// acknowledged it.
    pub etags: Seq<Option<Seq<char>>>,
    pub uploaded: int,
    /// In the transferring phases, the number of the part being handled.
    pub cursor: int,
}

/// The deadline after which a credential expiring at `expiration_ms` must
/// not be used: five minutes before expiry, and never before time zero.
pub open spec fn deadline_of(expiration_ms: Option<int>) -> Option<int> {
    match expiration_ms {
        Some(ms) => Some(
            if ms >= CREDENTIAL_MARGIN_MS {
                ms - CREDENTIAL_MARGIN_MS
            } else {
                0
            },
        ),
        None => None,
    }
}

/// Total length of the acknowledged parts among the first `n`.
pub open spec fn done_bytes(plan: PlanView, etags: Seq<Option<Seq<char>>>, n: int) -> int
    decreases n,
{
    if n <= 0 {
        0
    } else {
        done_bytes(plan, etags, n - 1) + if etags[n - 1].is_some() {
            plan.len_of(n)
        } else {
            0
        }
    }
}

/// Number of acknowledged parts among the first `n`.
pub open spec fn done_count(etags: Seq<Option<Seq<char>>>, n: int) -> int
    decreases n,
{
    if n <= 0 {
        0
    } else {
        done_count(etags, n - 1) + if etags[n - 1].is_some() {
            1int
        } else {
            0int
        }
    }
}

/// Index of the first empty slot at or after `from`, or the number of slots
/// if there is none.
pub open spec fn first_pending(etags: Seq<Option<Seq<char>>>, from: int) -> int
    decreases etags.len() - from,
{
    if from < 0 || from >= etags.len() {
        etags.len() as int
    } else if etags[from].is_none() {
        from
    } else {
        first_pending(etags, from + 1)
    }
}

/// Every part among the first `n` is acknowledged.
pub open spec fn all_done(etags: Seq<Option<Seq<char>>>, n: int) -> bool {
    forall|i: int| 0 <= i < n && i < etags.len() ==> (#[trigger] etags[i]).is_some()
}

/// No part is acknowledged.
pub open spec fn none_done(etags: Seq<Option<Seq<char>>>) -> bool {
    forall|i: int| 0 <= i < etags.len() ==> (#[trigger] etags[i]).is_none()
}

/// The list sent with the completion request: every part with its etag, in
/// ascending order of part number.
pub open spec fn completion_list(etags: Seq<Option<Seq<char>>>) -> Seq<(int, Seq<char>)> {
    Seq::new(etags.len(), |i: int| (i + 1, etags[i].unwrap()))
}

/// Whether a listed part is taken as done: it is a part of the plan, not
/// seen before, and as long as the plan makes it.
pub open spec fn accepts(plan: PlanView, etags: Seq<Option<Seq<char>>>, part: ListedPartView)
    -> bool {
    &&& plan.has_part(part.part_number)
    &&& part.part_number <= etags.len()
    &&& etags[part.part_number - 1].is_none()
    &&& part.size == plan.len_of(part.part_number)
}

/// The listing holds part `n` with the length that the plan gives it.
pub open spec fn lists_part(plan: PlanView, listing: Seq<ListedPartView>, n: int) -> bool {
    exists|j: int|
        0 <= j < listing.len() && (#[trigger] listing[j]).part_number == n && listing[j].size
            == plan.len_of(n)
}

/// The slots after one listed part was looked at.
pub open spec fn seed_one(plan: PlanView, etags: Seq<Option<Seq<char>>>, part: ListedPartView)
    -> Seq<Option<Seq<char>>> {
    if accepts(plan, etags, part) {
        etags.update(part.part_number - 1, Some(part.etag))
    } else {
        etags
    }
}

/// The slots after a listing was looked at from front to back, starting
/// with no part done.
pub open spec fn seeded(plan: PlanView, listing: Seq<ListedPartView>) -> Seq<Option<Seq<char>>>
    decreases listing.len(),
{
    if listing.len() == 0 {
        Seq::new(plan.total_parts as nat, |i: int| None)
    } else {
        seed_one(plan, seeded(plan, listing.drop_last()), listing.last())
    }
}

impl SessionView {
    /// The session of a new transfer.
    pub open spec fn initial(
        upload_id: Seq<char>,
        file_size: int,
        resume_id: Option<Seq<char>>,
        expiration_ms: Option<int>,
        callback: Option<CallbackView>,
    ) -> SessionView {
        let plan = PlanView::of_file(file_size);
        SessionView {
            upload_id,
            plan,
            resume_id,
            session_id: None,
            deadline_ms: deadline_of(expiration_ms),
            callback,
            phase: Phase::Initiating,
            etags: Seq::new(plan.total_parts as nat, |i: int| None),
            uploaded: 0,
            cursor: 0,
        }
    }

    /// The part `n` is acknowledged.
    pub open spec fn completed(self, n: int) -> bool {
        1 <= n <= self.etags.len() && self.etags[n - 1].is_some()
    }

    /// The invariant of a session.
    pub open spec fn wf(self) -> bool {
        &&& self.plan.wf()
        &&& self.etags.len() == self.plan.total_parts
        &&& self.uploaded == done_bytes(self.plan, self.etags, self.plan.total_parts)
        &&& match self.phase {
            Phase::Initiating => self.session_id.is_none() && none_done(self.etags),
            Phase::SimpleUpload => none_done(self.etags),
            Phase::Reconciling => self.resume_id.is_some() && none_done(self.etags),
            Phase::Opening => none_done(self.etags),
            Phase::Checking | Phase::Paused | Phase::Uploading => {
                &&& self.session_id.is_some()
                &&& self.plan.has_part(self.cursor)
                &&& self.etags[self.cursor - 1].is_none()
                &&& all_done(self.etags, self.cursor - 1)
            },
            Phase::Completing => self.session_id.is_some() && all_done(
                self.etags,
                self.plan.total_parts,
            ),
            _ => true,
        }
    }

    /// The credential's deadline has passed at time `now_ms`.
    pub open spec fn expired(self, now_ms: int) -> bool {
        self.deadline_ms matches Some(deadline) && now_ms >= deadline
    }

    /// A step that changes nothing and asks for nothing.
    pub open spec fn ignore(self) -> (SessionView, StepView) {
        (self, StepView { notify: None, action: ActionView::Idle })
    }

    /// A step into failure.
    pub open spec fn fail(self, failure: Failure, error: TransferErrorView) -> (
        SessionView,
        StepView,
    ) {
        (
            SessionView { phase: Phase::Failed(failure), ..self },
            StepView { notify: None, action: ActionView::Fail(error) },
        )
    }

    /// The request for the part at the cursor.
    pub open spec fn upload_action(self) -> ActionView {
        ActionView::UploadPart {
            session_id: self.session_id.unwrap(),
            part_number: self.cursor,
            start: self.plan.start_of(self.cursor),
            end: self.plan.end_of(self.cursor),
        }
    }

    /// Moves on to the first part not yet done at or after part `from`, or
    /// to completion if there is none; `notify` is published on the way.
    pub open spec fn advance(self, from: int, notify: Option<NotificationView>) -> (
        SessionView,
        StepView,
    ) {
        let next = first_pending(self.etags, from - 1);
        if next < self.etags.len() {
            (
                SessionView { phase: Phase::Checking, cursor: next + 1, ..self },
                StepView { notify, action: ActionView::Observe },
            )
        } else {
            (
                SessionView { phase: Phase::Completing, callback: None, ..self },
                StepView {
                    notify,
                    action: ActionView::Complete {
                        session_id: self.session_id.unwrap(),
                        parts: completion_list(self.etags),
                        callback: self.callback,
                    },
                },
            )
        }
    }

    /// The transfer is started: a simple upload where the file fits in one
    /// part and nothing is resumed, else the listing of the session to
    /// resume, else a new session.
    pub open spec fn on_start(self) -> (SessionView, StepView) {
        if !(self.phase is Initiating) {
            self.ignore()
        } else if self.plan.simple(self.resume_id.is_some()) {
            (
                SessionView { phase: Phase::SimpleUpload, callback: None, ..self },
                StepView {
                    notify: None,
                    action: ActionView::PutObject { callback: self.callback },
                },
            )
        } else if self.resume_id.is_some() {
            (
                SessionView { phase: Phase::Reconciling, ..self },
                StepView {
                    notify: None,
                    action: ActionView::ListParts { session_id: self.resume_id.unwrap() },
                },
            )
        } else {
            (
                SessionView { phase: Phase::Opening, ..self },
                StepView { notify: None, action: ActionView::OpenSession },
            )
        }
    }

    /// The single request of a simple upload went through.
    pub open spec fn on_object_put(self) -> (SessionView, StepView) {
        if !(self.phase is SimpleUpload) {
            self.ignore()
        } else {
            (
                SessionView { phase: Phase::Done, ..self },
                StepView {
                    notify: Some(
                        NotificationView::Progress(
                            ProgressView::complete(self.upload_id, self.plan.file_size, 1),
                        ),
                    ),
                    action: ActionView::Succeed,
                },
            )
        }
    }

    /// The single request of a simple upload failed.
    pub open spec fn on_object_put_failed(self, reason: Seq<char>) -> (SessionView, StepView) {
        if !(self.phase is SimpleUpload) {
            self.ignore()
        } else {
            self.fail(
                Failure::Remote(RemoteStage::PutObject),
                TransferErrorView::RemoteTransient { stage: RemoteStage::PutObject, reason },
            )
        }
    }

    /// The remote side listed the parts of the session to resume: those that
    /// fit the plan are taken as done, the session id is kept, and the
    /// progress so far is published.
    pub open spec fn on_parts_listed(self, listing: Seq<ListedPartView>) -> (
        SessionView,
        StepView,
    ) {
        if !(self.phase is Reconciling) {
            self.ignore()
        } else {
            let etags = seeded(self.plan, listing);
            let uploaded = done_bytes(self.plan, etags, self.plan.total_parts);
            let seeded_session = SessionView {
                session_id: self.resume_id,
                etags,
                uploaded,
                ..self
            };
            seeded_session.advance(
                1,
                Some(
                    NotificationView::Progress(
                        ProgressView::uploading(
                            self.upload_id,
                            uploaded,
                            self.plan.file_size,
                            done_count(etags, self.plan.total_parts),
                            self.plan.total_parts,
                        ),
                    ),
                ),
            )
        }
    }

    /// The session to resume is gone: its id is dropped and a new session is
    /// opened.
    pub open spec fn on_list_failed(self) -> (SessionView, StepView) {
        if !(self.phase is Reconciling) {
            self.ignore()
        } else {
            (
                SessionView { phase: Phase::Opening, resume_id: None, ..self },
                StepView { notify: None, action: ActionView::OpenSession },
            )
        }
    }

    /// A new session was opened: its id is kept and announced.
    pub open spec fn on_session_opened(self, id: Seq<char>) -> (SessionView, StepView) {
        if !(self.phase is Opening) {
            self.ignore()
        } else {
            SessionView { session_id: Some(id), ..self }.advance(
                1,
                Some(
                    NotificationView::SessionInit(
                        SessionInitView { upload_id: self.upload_id, oss_upload_id: id },
                    ),
                ),
            )
        }
    }

    /// No new session could be opened.
    pub open spec fn on_open_failed(self, reason: Seq<char>) -> (SessionView, StepView) {
        if !(self.phase is Opening) {
            self.ignore()
        } else {
            self.fail(
                Failure::Remote(RemoteStage::OpenSession),
                TransferErrorView::RemoteTransient { stage: RemoteStage::OpenSession, reason },
            )
        }
    }

    /// What a signal calls for before the part at the cursor.
    pub open spec fn obey(self, signal: UploadSignal) -> (SessionView, StepView) {
        match signal {
            UploadSignal::Running => (
                SessionView { phase: Phase::Uploading, ..self },
                StepView { notify: None, action: self.upload_action() },
            ),
            UploadSignal::Paused => (
                SessionView { phase: Phase::Paused, ..self },
                StepView { notify: None, action: ActionView::AwaitSignal },
            ),
            UploadSignal::Cancelled => (
                SessionView { phase: Phase::Aborting, ..self },
                StepView {
                    notify: None,
                    action: ActionView::Abort { session_id: self.session_id.unwrap() },
                },
            ),
        }
    }

    /// The clock and the signal were read before the part at the cursor. A
    /// passed deadline ends the transfer, and the remote session is left as
    /// it is; otherwise the signal decides.
    pub open spec fn on_observed(self, now_ms: int, signal: UploadSignal) -> (
        SessionView,
        StepView,
    ) {
        if !(self.phase is Checking) {
            self.ignore()
        } else if self.expired(now_ms) {
            self.fail(Failure::CredentialExpired, TransferErrorView::CredentialExpired)
        } else {
            self.obey(signal)
        }
    }

    /// The signal changed while the transfer was paused.
    pub open spec fn on_signal_changed(self, signal: UploadSignal) -> (SessionView, StepView) {
        if !(self.phase is Paused) {
            self.ignore()
        } else {
            self.obey(signal)
        }
    }

    /// The signal channel went away while the transfer was paused.
    pub open spec fn on_signal_closed(self, reason: Seq<char>) -> (SessionView, StepView) {
        if !(self.phase is Paused) {
            self.ignore()
        } else {
            self.fail(Failure::SignalClosed, TransferErrorView::SignalClosed(reason))
        }
    }

    /// The remote side acknowledged the part at the cursor with `etag`.
    pub open spec fn on_part_uploaded(self, etag: Seq<char>) -> (SessionView, StepView) {
        if !(self.phase is Uploading) {
            self.ignore()
        } else {
            let uploaded = self.uploaded + self.plan.len_of(self.cursor);
            SessionView {
                etags: self.etags.update(self.cursor - 1, Some(etag)),
                uploaded,
                ..self
            }.advance(
                self.cursor + 1,
                Some(
                    NotificationView::Progress(
                        ProgressView::uploading(
                            self.upload_id,
                            uploaded,
                            self.plan.file_size,
                            self.cursor,
                            self.plan.total_parts,
                        ),
                    ),
                ),
            )
        }
    }

    /// Sending the part at the cursor failed.
    pub open spec fn on_part_failed(self, reason: Seq<char>) -> (SessionView, StepView) {
        if !(self.phase is Uploading) {
            self.ignore()
        } else {
            let stage = RemoteStage::UploadPart(self.cursor as u32);
            self.fail(Failure::Remote(stage), TransferErrorView::RemoteTransient { stage, reason })
        }
    }

    /// The completion request went through.
    pub open spec fn on_completed(self) -> (SessionView, StepView) {
        if !(self.phase is Completing) {
            self.ignore()
        } else {
            (
                SessionView { phase: Phase::Done, ..self },
                StepView {
                    notify: Some(
                        NotificationView::Progress(
                            ProgressView::complete(
                                self.upload_id,
                                self.plan.file_size,
                                self.plan.total_parts,
                            ),
                        ),
                    ),
                    action: ActionView::Succeed,
                },
            )
        }
    }

    /// The completion request failed.
    pub open spec fn on_complete_failed(self, reason: Seq<char>) -> (SessionView, StepView) {
        if !(self.phase is Completing) {
            self.ignore()
        } else {
            self.fail(
                Failure::Remote(RemoteStage::Complete),
                TransferErrorView::RemoteTransient { stage: RemoteStage::Complete, reason },
            )
        }
    }

    /// The remote session was asked to abort. Whatever came of that, the
    /// transfer ends as cancelled.
    pub open spec fn on_abort_attempted(self) -> (SessionView, StepView) {
        if !(self.phase is Aborting) {
            self.ignore()
        } else {
            (
                SessionView { phase: Phase::Cancelled, ..self },
                StepView {
                    notify: None,
                    action: ActionView::Fail(TransferErrorView::Cancelled),
                },
            )
        }
    }

    /// What an event does to the session, and what it calls for. An event
    /// that the phase does not await changes nothing.
    pub open spec fn step(self, event: EventView) -> (SessionView, StepView) {
        match event {
            EventView::Start => self.on_start(),
            EventView::ObjectPut => self.on_object_put(),
            EventView::ObjectPutFailed(reason) => self.on_object_put_failed(reason),
            EventView::PartsListed(listing) => self.on_parts_listed(listing),
            EventView::ListFailed => self.on_list_failed(),
            EventView::SessionOpened(id) => self.on_session_opened(id),
            EventView::OpenFailed(reason) => self.on_open_failed(reason),
            EventView::Observed { now_ms, signal } => self.on_observed(now_ms, signal),
            EventView::SignalChanged(signal) => self.on_signal_changed(signal),
            EventView::SignalClosed(reason) => self.on_signal_closed(reason),
            EventView::PartUploaded(etag) => self.on_part_uploaded(etag),
            EventView::PartFailed(reason) => self.on_part_failed(reason),
            EventView::Completed => self.on_completed(),
            EventView::CompleteFailed(reason) => self.on_complete_failed(reason),
            EventView::AbortAttempted => self.on_abort_attempted(),
        }
    }
}

/// Filling an empty slot adds the length of its part to the bytes done, and
/// one to the number of parts done.
pub proof fn lemma_fill_slot(
    plan: PlanView,
    etags: Seq<Option<Seq<char>>>,
    slot: int,
    etag: Seq<char>,
    n: int,
)
    requires
        0 <= slot < etags.len(),
        etags[slot].is_none(),
        0 <= n <= etags.len(),
    ensures
        done_bytes(plan, etags.update(slot, Some(etag)), n) == done_bytes(plan, etags, n) + if slot
            < n {
            plan.len_of(slot + 1)
        } else {
            0
        },
        done_count(etags.update(slot, Some(etag)), n) == done_count(etags, n) + if slot < n {
            1int
        } else {
            0int
        },
    decreases n,
{
    if n > 0 {
        lemma_fill_slot(plan, etags, slot, etag, n - 1);
    }
}

/// The bytes done among the first `n` parts are at most the length of those
/// parts; they are all of it where every part is done, and none where no
/// part is.
pub proof fn lemma_done_bytes(plan: PlanView, etags: Seq<Option<Seq<char>>>, n: int)
    requires
        plan.wf(),
        etags.len() == plan.total_parts,
        0 <= n <= plan.total_parts,
    ensures
        0 <= done_bytes(plan, etags, n) <= parts_len_sum(plan.file_size, plan.part_size, n),
        parts_len_sum(plan.file_size, plan.part_size, n) <= plan.file_size,
        0 <= done_count(etags, n) <= n,
        all_done(etags, n) ==> done_bytes(plan, etags, n) == parts_len_sum(
            plan.file_size,
            plan.part_size,
            n,
        ) && done_count(etags, n) == n,
        none_done(etags) ==> done_bytes(plan, etags, n) == 0 && done_count(etags, n) == 0,
    decreases n,
{
    lemma_plan_bounds(plan);
    lemma_parts_len_sum(plan.file_size, plan.part_size, n);
    if n > 0 {
        lemma_done_bytes(plan, etags, n - 1);
        if all_done(etags, n) {
            assert(etags[n - 1].is_some());
            assert(all_done(etags, n - 1));
        }
        if none_done(etags) {
            assert(etags[n - 1].is_none());
        }
    }
}

/// The first empty slot at or after `from`: every slot between is filled,
/// and the slot found, if any, is empty.
pub proof fn lemma_first_pending(etags: Seq<Option<Seq<char>>>, from: int)
    requires
        0 <= from <= etags.len(),
    ensures
        from <= first_pending(etags, from) <= etags.len(),
        forall|i: int| from <= i < first_pending(etags, from) ==> (#[trigger] etags[i]).is_some(),
        first_pending(etags, from) < etags.len() ==> etags[first_pending(etags, from)].is_none(),
    decreases etags.len() - from,
{
    if from < etags.len() && etags[from].is_some() {
        lemma_first_pending(etags, from + 1);
    }
}

/// Looking at a listing fills slots and empties none; a slot is filled only
/// with the etag of a listed part of that number and of the planned length.
pub proof fn lemma_seeded(plan: PlanView, listing: Seq<ListedPartView>)
    requires
        plan.wf(),
    ensures
        seeded(plan, listing).len() == plan.total_parts,
        forall|i: int|
            0 <= i < plan.total_parts && (#[trigger] seeded(plan, listing)[i]).is_some()
                ==> exists|j: int|
                0 <= j < listing.len() && listing[j].part_number == i + 1 && listing[j].size
                    == plan.len_of(i + 1) && seeded(plan, listing)[i] == Some(listing[j].etag),
        forall|j: int|
            0 <= j < listing.len() && plan.has_part(listing[j].part_number) && listing[j].size
                == plan.len_of(listing[j].part_number) ==> (#[trigger] seeded(
                plan,
                listing,
            )[listing[j].part_number - 1]).is_some(),
    decreases listing.len(),
{
    lemma_plan_bounds(plan);
    if listing.len() > 0 {
        let front = listing.drop_last();
        let last = listing.last();
        lemma_seeded(plan, front);
        let before = seeded(plan, front);
        let after = seeded(plan, listing);
        assert forall|i: int| 0 <= i < plan.total_parts && (#[trigger] after[i]).is_some()
            implies exists|j: int|
            0 <= j < listing.len() && listing[j].part_number == i + 1 && listing[j].size
                == plan.len_of(i + 1) && after[i] == Some(listing[j].etag) by {
            if accepts(plan, before, last) && i == last.part_number - 1 {
                assert(listing[listing.len() - 1] == last);
            } else {
                assert(after[i] == before[i]);
                let j = choose|j: int|
                    0 <= j < front.len() && front[j].part_number == i + 1 && front[j].size
                        == plan.len_of(i + 1) && before[i] == Some(front[j].etag);
                assert(listing[j] == front[j]);
            }
        }
        assert forall|j: int|
            0 <= j < listing.len() && plan.has_part(listing[j].part_number) && listing[j].size
                == plan.len_of(listing[j].part_number) implies (#[trigger] after[listing[j].part_number
                - 1]).is_some() by {
            if j < listing.len() - 1 {
                assert(listing[j] == front[j]);
                assert(before[front[j].part_number - 1].is_some());
            }
        }
    }
}

/// A listed part fits the plan: it is one of its parts and as long as the
/// plan makes that part.
pub open spec fn fits(plan: PlanView, part: ListedPartView) -> bool {
    plan.has_part(part.part_number) && part.size == plan.len_of(part.part_number)
}

/// Of the listed parts that fit the plan, the first of each number is the
/// one whose etag is kept.
pub proof fn law_first_listed_part_wins(plan: PlanView, listing: Seq<ListedPartView>, j: int)
    requires
        plan.wf(),
        0 <= j < listing.len(),
        fits(plan, listing[j]),
        forall|k: int|
            0 <= k < j ==> !(fits(plan, #[trigger] listing[k]) && listing[k].part_number
                == listing[j].part_number),
    ensures
        seeded(plan, listing)[listing[j].part_number - 1] == Some(listing[j].etag),
    decreases listing.len(),
{
    let front = listing.drop_last();
    let last = listing.last();
    let slot = listing[j].part_number - 1;
    lemma_seeded(plan, front);
    lemma_plan_bounds(plan);
    if j < listing.len() - 1 {
        assert(front[j] == listing[j]);
        assert forall|k: int| 0 <= k < j implies !(fits(plan, #[trigger] front[k])
            && front[k].part_number == front[j].part_number) by {
            assert(front[k] == listing[k]);
        }
        law_first_listed_part_wins(plan, front, j);
    } else {
        let before = seeded(plan, front);
        if before[slot].is_some() {
            let k = choose|k: int|
                0 <= k < front.len() && front[k].part_number == slot + 1 && front[k].size
                    == plan.len_of(slot + 1) && before[slot] == Some(front[k].etag);
            assert(listing[k] == front[k]);
            assert(fits(plan, listing[k]));
        }
    }
}

/// Moving on from part `from` keeps the invariant, given that the session
/// id is known and every part before `from` is done.
pub proof fn lemma_advance(s: SessionView, from: int, notify: Option<NotificationView>)
    requires
        s.plan.wf(),
        s.etags.len() == s.plan.total_parts,
        s.uploaded == done_bytes(s.plan, s.etags, s.plan.total_parts),
        s.session_id.is_some(),
        1 <= from <= s.plan.total_parts + 1,
        all_done(s.etags, from - 1),
    ensures
        s.advance(from, notify).0.wf(),
        s.advance(from, notify).0.etags == s.etags,
        s.advance(from, notify).0.uploaded == s.uploaded,
        s.advance(from, notify).1.notify == notify,
{
    lemma_first_pending(s.etags, from - 1);
    let next = first_pending(s.etags, from - 1);
    let after = s.advance(from, notify).0;
    if next < s.etags.len() {
        assert(all_done(after.etags, after.cursor - 1));
    } else {
        assert(all_done(after.etags, after.plan.total_parts));
    }
}

/// Every step keeps the invariant of the session.
pub proof fn law_step_keeps_invariant(s: SessionView, event: EventView)
    requires
        s.wf(),
    ensures
        s.step(event).0.wf(),
{
    lemma_plan_bounds(s.plan);
    match event {
        EventView::PartsListed(listing) => {
            if s.phase is Reconciling {
                lemma_seeded(s.plan, listing);
                let etags = seeded(s.plan, listing);
                let uploaded = done_bytes(s.plan, etags, s.plan.total_parts);
                let seeded_session = SessionView {
                    session_id: s.resume_id,
                    etags,
                    uploaded,
                    ..s
                };
                assert(all_done(etags, 0));
                lemma_advance(seeded_session, 1, s.on_parts_listed(listing).1.notify);
            }
        },
        EventView::SessionOpened(id) => {
            if s.phase is Opening {
                assert(all_done(s.etags, 0));
                lemma_advance(
                    SessionView { session_id: Some(id), ..s },
                    1,
                    s.on_session_opened(id).1.notify,
                );
            }
        },
        EventView::PartUploaded(etag) => {
            if s.phase is Uploading {
                lemma_fill_slot(s.plan, s.etags, s.cursor - 1, etag, s.plan.total_parts);
                let filled = SessionView {
                    etags: s.etags.update(s.cursor - 1, Some(etag)),
                    uploaded: s.uploaded + s.plan.len_of(s.cursor),
                    ..s
                };
                assert(all_done(filled.etags, s.cursor)) by {
                    assert forall|i: int| 0 <= i < s.cursor && i < filled.etags.len() implies (
                    #[trigger] filled.etags[i]).is_some() by {
                        if i < s.cursor - 1 {
                            assert(s.etags[i].is_some());
                        }
                    }
                }
                lemma_advance(filled, s.cursor + 1, s.on_part_uploaded(etag).1.notify);
            }
        },
        _ => {},
    }
}

/// A part, once acknowledged, stays acknowledged with the same etag:
/// whatever was done before an interruption is never lost.
pub proof fn law_acknowledged_parts_stay(s: SessionView, event: EventView, n: int)
    requires
        s.wf(),
        s.completed(n),
    ensures
        s.step(event).0.completed(n),
        s.step(event).0.etags[n - 1] == s.etags[n - 1],
{
    match event {
        EventView::PartsListed(listing) => {
            if s.phase is Reconciling {
                assert(s.etags[n - 1].is_none());
            }
        },
        _ => {},
    }
}

/// A part is sent only if it is not yet acknowledged, with exactly the byte
/// range that the plan gives it, and only after every part before it was
/// acknowledged: no part is sent twice, and none that a resumed listing
/// already covers.
pub proof fn law_only_pending_parts_are_sent(s: SessionView, event: EventView)
    requires
        s.wf(),
        s.step(event).1.action is UploadPart,
    ensures
        ({
            let action = s.step(event).1.action;
            let n = action->UploadPart_part_number;
            &&& s.plan.has_part(n)
            &&& !s.completed(n)
            &&& forall|m: int| 1 <= m < n ==> s.completed(m)
            &&& action->UploadPart_start == s.plan.start_of(n)
            &&& action->UploadPart_end == s.plan.end_of(n)
            &&& Some(action->UploadPart_session_id) == s.session_id
            &&& s.step(event).0.phase is Uploading
        }),
{
    lemma_first_pending(s.etags, 0);
    match event {
        EventView::PartsListed(listing) => {
            if s.phase is Reconciling {
                lemma_first_pending(seeded(s.plan, listing), 0);
            }
        },
        EventView::SessionOpened(id) => {
            lemma_first_pending(s.etags, 0);
        },
        EventView::PartUploaded(etag) => {
            if s.phase is Uploading {
                lemma_first_pending(s.etags.update(s.cursor - 1, Some(etag)), s.cursor);
            }
        },
        _ => {},
    }
    let n = s.step(event).1.action->UploadPart_part_number;
    assert forall|m: int| 1 <= m < n implies s.completed(m) by {
        assert(s.etags[m - 1].is_some());
    }
}

/// The completion request carries every part of the plan exactly once, in
/// ascending order of part number, each with the etag that the remote side
/// gave it; the parts together are as long as the file.
pub proof fn law_completion_is_whole(s: SessionView, event: EventView)
    requires
        s.wf(),
        s.step(event).1.action is Complete,
    ensures
        ({
            let after = s.step(event).0;
            let parts = s.step(event).1.action->Complete_parts;
            &&& after.phase is Completing
            &&& parts.len() == s.plan.total_parts
            &&& forall|i: int|
                0 <= i < parts.len() ==> (#[trigger] parts[i]).0 == i + 1 && after.etags[i]
                    == Some(parts[i].1)
            &&& parts_len_sum(s.plan.file_size, s.plan.part_size, s.plan.total_parts)
                == s.plan.file_size
            &&& after.uploaded == s.plan.file_size
        }),
{
    law_step_keeps_invariant(s, event);
    let after = s.step(event).0;
    lemma_plan_bounds(s.plan);
    lemma_done_bytes(after.plan, after.etags, after.plan.total_parts);
    match event {
        EventView::PartsListed(listing) => {
            lemma_seeded(s.plan, listing);
        },
        _ => {},
    }
    let parts = s.step(event).1.action->Complete_parts;
    assert forall|i: int| 0 <= i < parts.len() implies (#[trigger] parts[i]).0 == i + 1
        && after.etags[i] == Some(parts[i].1) by {
        assert(after.etags[i].is_some());
    }
}

/// A transfer that has ended stays as it is and asks for nothing more:
/// once cancelled, it never runs again.
pub proof fn law_terminal_is_final(s: SessionView, event: EventView)
    requires
        s.phase.terminal(),
    ensures
        s.step(event) == s.ignore(),
{
}

/// A cancellation seen before a part ends the transfer: whatever the clock
/// says, the part is not sent, and nothing acknowledged is touched. With
/// the credential still good the remote session is asked to abort.
pub proof fn law_cancel_stops_before_next_part(s: SessionView, now_ms: int)
    requires
        s.wf(),
        s.phase is Checking,
    ensures
        ({
            let (after, step) = s.on_observed(now_ms, UploadSignal::Cancelled);
            &&& !(step.action is UploadPart)
            &&& after.etags == s.etags
            &&& s.expired(now_ms) ==> after.phase.terminal()
            &&& !s.expired(now_ms) ==> after.phase is Aborting && step.action == (
            ActionView::Abort { session_id: s.session_id.unwrap() })
        }),
{
}

/// A cancellation seen while paused asks the remote session to abort in
/// the same way.
pub proof fn law_cancel_while_paused(s: SessionView)
    requires
        s.wf(),
        s.phase is Paused,
    ensures
        s.on_signal_changed(UploadSignal::Cancelled).0.phase is Aborting,
        s.on_signal_changed(UploadSignal::Cancelled).1.action == (ActionView::Abort {
            session_id: s.session_id.unwrap(),
        }),
        s.on_signal_changed(UploadSignal::Cancelled).0.etags == s.etags,
{
}

/// Once the remote session is being asked to abort, the transfer can only
/// end as cancelled: no event makes it send a part or changes what was
/// acknowledged, and the outcome of the abort request does not matter.
pub proof fn law_abort_ends_as_cancelled(s: SessionView, event: EventView)
    requires
        s.phase is Aborting,
    ensures
        event is AbortAttempted ==> s.step(event).0.phase is Cancelled && s.step(event).1.action
            == ActionView::Fail(TransferErrorView::Cancelled),
        !(event is AbortAttempted) ==> s.step(event) == s.ignore(),
        s.step(event).0.etags == s.etags,
        s.step(event).0.session_id == s.session_id,
{
}

/// A pause followed by a resumption goes on exactly where the transfer
/// stood: the part sent next is the first one not yet acknowledged, and
/// nothing acknowledged is touched.
pub proof fn law_pause_then_resume(s: SessionView, now_ms: int)
    requires
        s.wf(),
        s.phase is Checking,
        !s.expired(now_ms),
    ensures
        ({
            let paused = s.on_observed(now_ms, UploadSignal::Paused);
            let resumed = paused.0.on_signal_changed(UploadSignal::Running);
            &&& paused.0.phase is Paused
            &&& paused.1.action is AwaitSignal
            &&& paused.0.on_signal_changed(UploadSignal::Paused) == paused
            &&& resumed.0.phase is Uploading
            &&& resumed.1.action == s.upload_action()
            &&& resumed == s.on_observed(now_ms, UploadSignal::Running)
            &&& resumed.0.etags == s.etags
            &&& s.cursor - 1 == first_pending(s.etags, 0)
        }),
{
    lemma_first_pending(s.etags, 0);
    let k = first_pending(s.etags, 0);
    if k < s.cursor - 1 {
        assert(s.etags[k].is_some());
    }
    if k > s.cursor - 1 {
        assert(s.etags[s.cursor - 1].is_some());
    }
}

/// A deadline that has passed when a part is about to be sent ends the
/// transfer with `CredentialExpired`, whatever the signal: the part is not
/// sent and the remote session is not aborted.
pub proof fn law_expired_credential_preempts(s: SessionView, now_ms: int, signal: UploadSignal)
    requires
        s.wf(),
        s.phase is Checking,
        s.expired(now_ms),
    ensures
        s.on_observed(now_ms, signal).0.phase == Phase::Failed(Failure::CredentialExpired),
        s.on_observed(now_ms, signal).1.action == ActionView::Fail(
            TransferErrorView::CredentialExpired,
        ),
        s.on_observed(now_ms, signal).0.etags == s.etags,
        s.on_observed(now_ms, signal).0.session_id == s.session_id,
{
}

/// The bytes reported as uploaded never decrease from one step to the
/// next, and never exceed the size of the file.
pub proof fn law_progress_is_monotonic(s: SessionView, event: EventView)
    requires
        s.wf(),
    ensures
        s.uploaded <= s.step(event).0.uploaded <= s.plan.file_size,
        s.step(event).1.notify matches Some(NotificationView::Progress(p)) ==> s.uploaded
            <= p.uploaded_size <= p.total_size && p.total_size == s.plan.file_size,
{
    law_step_keeps_invariant(s, event);
    let after = s.step(event).0;
    lemma_plan_bounds(s.plan);
    lemma_done_bytes(s.plan, s.etags, s.plan.total_parts);
    lemma_done_bytes(after.plan, after.etags, after.plan.total_parts);
    lemma_parts_len_sum(s.plan.file_size, s.plan.part_size, s.plan.total_parts);
    match event {
        EventView::PartsListed(listing) => {
            lemma_seeded(s.plan, listing);
        },
        EventView::PartUploaded(etag) => {
            if s.phase is Uploading {
                lemma_parts_len_sum(s.plan.file_size, s.plan.part_size, s.cursor);
            }
        },
        _ => {},
    }
}

/// Resuming a session whose listing covers the parts `1..=covered`, that is
/// the bytes before `end_of(covered)`, sends no byte before that offset:
/// the transfer goes on at a later part, or completes at once.
pub proof fn law_resume_skips_covered_bytes(
    s: SessionView,
    listing: Seq<ListedPartView>,
    covered: int,
)
    requires
        s.wf(),
        s.phase is Reconciling,
        1 <= covered <= s.plan.total_parts,
        forall|n: int| 1 <= n <= covered ==> #[trigger] lists_part(s.plan, listing, n),
    ensures
        ({
            let (after, step) = s.on_parts_listed(listing);
            &&& after.session_id == s.resume_id
            &&& after.uploaded >= s.plan.end_of(covered)
            &&& step.action is Observe || step.action is Complete
            &&& step.action is Observe ==> after.cursor > covered && after.plan.start_of(
                after.cursor,
            ) >= s.plan.end_of(covered)
        }),
{
    lemma_plan_bounds(s.plan);
    lemma_seeded(s.plan, listing);
    let etags = seeded(s.plan, listing);
    lemma_first_pending(etags, 0);
    assert forall|i: int| 0 <= i < covered implies (#[trigger] etags[i]).is_some() by {
        assert(lists_part(s.plan, listing, i + 1));
        let j = choose|j: int|
            0 <= j < listing.len() && (#[trigger] listing[j]).part_number == i + 1
                && listing[j].size == s.plan.len_of(i + 1);
        assert(etags[listing[j].part_number - 1].is_some());
    }
    let next = first_pending(etags, 0);
    if next < covered {
        assert(etags[next].is_some());
    }
    lemma_covered_prefix(s.plan, etags, covered, s.plan.total_parts);
    lemma_parts_len_sum(s.plan.file_size, s.plan.part_size, covered);
    if next < etags.len() {
        lemma_parts_len_sum(s.plan.file_size, s.plan.part_size, next + 1);
        lemma_starts_ascend(s.plan, covered, next + 1);
    }
}

/// Where the first `covered` parts are done, the bytes done are at least
/// the length of those parts.
proof fn lemma_covered_prefix(
    plan: PlanView,
    etags: Seq<Option<Seq<char>>>,
    covered: int,
    n: int,
)
    requires
        plan.wf(),
        etags.len() == plan.total_parts,
        0 <= covered <= n <= plan.total_parts,
        all_done(etags, covered),
    ensures
        done_bytes(plan, etags, n) >= parts_len_sum(plan.file_size, plan.part_size, covered),
    decreases n,
{
    if n == covered {
        lemma_done_bytes(plan, etags, n);
    } else {
        lemma_covered_prefix(plan, etags, covered, n - 1);
        lemma_plan_bounds(plan);
        lemma_parts_len_sum(plan.file_size, plan.part_size, n);
    }
}

/// A later part starts no earlier than an earlier part ends.
proof fn lemma_starts_ascend(plan: PlanView, earlier: int, later: int)
    requires
        plan.wf(),
        1 <= earlier < later <= plan.total_parts,
    ensures
        plan.start_of(later) >= plan.end_of(earlier),
{
    lemma_plan_bounds(plan);
    assert((later - 1) * plan.part_size >= earlier * plan.part_size) by (nonlinear_arith)
        requires
            later - 1 >= earlier,
            plan.part_size >= 0,
    ;
}

} // verus!
