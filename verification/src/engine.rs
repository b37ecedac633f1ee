//! The multipart upload engine: one session per transfer, driven by the
//! events that the caller reports and answering each with the next action.

use vstd::prelude::*;
use crate::callback::callback_view;
use crate::callback::CallbackSpec;
use crate::error::RemoteStage;
use crate::error::TransferError;
use crate::events::Notification;
use crate::events::NotificationView;
use crate::events::OssUploadInitEvent;
use crate::events::UploadProgressEvent;
use crate::model::accepts;
use crate::model::ActionView;
use crate::model::all_done;
use crate::model::completion_list;
use crate::model::CREDENTIAL_MARGIN_MS;
use crate::model::deadline_of;
use crate::model::done_bytes;
use crate::model::done_count;
use crate::model::EventView;
use crate::model::Failure;
use crate::model::first_pending;
use crate::model::lemma_done_bytes;
use crate::model::lemma_fill_slot;
use crate::model::law_step_keeps_invariant;
use crate::model::lemma_first_pending;
use crate::model::ListedPartView;
use crate::model::none_done;
use crate::model::Phase;
use crate::model::seed_one;
use crate::model::seeded;
use crate::model::SessionView;
use crate::model::StepView;
use crate::planner::ByteRange;
use crate::planner::lemma_parts_len_sum;
use crate::planner::lemma_plan_bounds;
use crate::planner::UploadPlan;
use crate::signal::UploadSignal;

verus! {

/// A part that the remote side reports as durable in a session.
#[derive(Clone, Debug, PartialEq, Eq)]
pub struct ListedPart {
    pub part_number: u32,
    pub etag: String,
    pub size: u64,
}

impl View for ListedPart {
    type V = ListedPartView;

    open spec fn view(&self) -> ListedPartView {
        ListedPartView {
            part_number: self.part_number as int,
            etag: self.etag@,
            size: self.size as int,
        }
    }
}

/// A listing, each part as its view.
pub open spec fn listing_view(listing: Seq<ListedPart>) -> Seq<ListedPartView> {
    Seq::new(listing.len(), |i: int| listing[i]@)
}

/// A completion list, each etag as its characters.
pub open spec fn parts_view(parts: Seq<(u32, String)>) -> Seq<(int, Seq<char>)> {
    Seq::new(parts.len(), |i: int| (parts[i].0 as int, parts[i].1@))
}

/// An optional string, as its characters.
pub open spec fn text_view(text: Option<String>) -> Option<Seq<char>> {
    match text {
        Some(t) => Some(t@),
        None => None,
    }
}

/// The etag slots, each etag as its characters.
pub open spec fn slots_view(slots: Seq<Option<String>>) -> Seq<Option<Seq<char>>> {
    Seq::new(slots.len(), |i: int| text_view(slots[i]))
}

/// What the caller reports back to a transfer.
#[derive(Clone, Debug, PartialEq, Eq)]
pub enum UploadEvent {
    /// The transfer is to begin.
    Start,
    /// The single request of a simple upload went through.
    ObjectPut,
    /// The single request of a simple upload failed.
    ObjectPutFailed(String),
    /// The remote side listed the durable parts of the session to resume.
    PartsListed(Vec<ListedPart>),
    /// The session to resume was not found or has expired.
    ListFailed,
    /// A new multipart session was opened under the given id.
    SessionOpened(String),
    /// No new multipart session could be opened.
    OpenFailed(String),
    /// The clock and the signal, read before a part.
    Observed { now_ms: u64, signal: UploadSignal },
    /// The signal changed while the transfer was paused.
    SignalChanged(UploadSignal),
    /// The signal channel went away while the transfer was paused.
    SignalClosed(String),
    /// The remote side acknowledged the part in flight with the given etag.
    PartUploaded(String),
    /// Sending the part in flight failed.
    PartFailed(String),
    /// The completion request went through.
    Completed,
    /// The completion request failed.
    CompleteFailed(String),
    /// The remote session was asked to abort, whatever came of it.
    AbortAttempted,
}

impl View for UploadEvent {
    type V = EventView;

    open spec fn view(&self) -> EventView {
        match *self {
            UploadEvent::Start => EventView::Start,
            UploadEvent::ObjectPut => EventView::ObjectPut,
            UploadEvent::ObjectPutFailed(reason) => EventView::ObjectPutFailed(reason@),
            UploadEvent::PartsListed(listing) => EventView::PartsListed(listing_view(listing@)),
            UploadEvent::ListFailed => EventView::ListFailed,
            UploadEvent::SessionOpened(id) => EventView::SessionOpened(id@),
            UploadEvent::OpenFailed(reason) => EventView::OpenFailed(reason@),
            UploadEvent::Observed { now_ms, signal } => EventView::Observed {
                now_ms: now_ms as int,
                signal,
            },
            UploadEvent::SignalChanged(signal) => EventView::SignalChanged(signal),
            UploadEvent::SignalClosed(reason) => EventView::SignalClosed(reason@),
            UploadEvent::PartUploaded(etag) => EventView::PartUploaded(etag@),
            UploadEvent::PartFailed(reason) => EventView::PartFailed(reason@),
            UploadEvent::Completed => EventView::Completed,
            UploadEvent::CompleteFailed(reason) => EventView::CompleteFailed(reason@),
            UploadEvent::AbortAttempted => EventView::AbortAttempted,
        }
    }
}

/// What a transfer asks the caller to do next.
#[derive(Clone, Debug, PartialEq, Eq)]
pub enum UploadAction {
    /// Send the whole file in one request, with the callback if there is one;
    /// report `ObjectPut` or `ObjectPutFailed`.
    PutObject { callback: Option<CallbackSpec> },
    /// List the durable parts of the session; report `PartsListed` or
    /// `ListFailed`.
    ListParts { session_id: String },
    /// Open a new multipart session; report `SessionOpened` or `OpenFailed`.
    OpenSession,
    /// Read the clock and the signal; report `Observed`.
    Observe,
    /// Wait until the signal changes; report `SignalChanged` or
    /// `SignalClosed`.
    AwaitSignal,
    /// Send the bytes of `range` as the part `part_number`; report
    /// `PartUploaded` or `PartFailed`.
    UploadPart { session_id: String, part_number: u32, range: ByteRange },
    /// Finalize the object from the listed parts, with the callback if there
    /// is one; report `Completed` or `CompleteFailed`.
    Complete { session_id: String, parts: Vec<(u32, String)>, callback: Option<CallbackSpec> },
    /// Try to abort the remote session; report `AbortAttempted`, whatever
    /// came of it.
    Abort { session_id: String },
    /// End the upload call with success.
    Succeed,
    /// End the upload call with the given error.
    Fail(TransferError),
    /// Nothing to do: the event was not awaited.
    Idle,
}

impl View for UploadAction {
    type V = ActionView;

    open spec fn view(&self) -> ActionView {
        match *self {
            UploadAction::PutObject { callback } => ActionView::PutObject {
                callback: callback_view(callback),
            },
            UploadAction::ListParts { session_id } => ActionView::ListParts {
                session_id: session_id@,
            },
            UploadAction::OpenSession => ActionView::OpenSession,
            UploadAction::Observe => ActionView::Observe,
            UploadAction::AwaitSignal => ActionView::AwaitSignal,
            UploadAction::UploadPart { session_id, part_number, range } => ActionView::UploadPart {
                session_id: session_id@,
                part_number: part_number as int,
                start: range.start as int,
                end: range.end as int,
            },
            UploadAction::Complete { session_id, parts, callback } => ActionView::Complete {
                session_id: session_id@,
                parts: parts_view(parts@),
                callback: callback_view(callback),
            },
            UploadAction::Abort { session_id } => ActionView::Abort { session_id: session_id@ },
            UploadAction::Succeed => ActionView::Succeed,
            UploadAction::Fail(error) => ActionView::Fail(error@),
            UploadAction::Idle => ActionView::Idle,
        }
    }
}

/// The outcome of one event: a message for the user interface, if any, and
/// the next action.
#[derive(Clone, Debug, PartialEq, Eq)]
pub struct Step {
    pub notify: Option<Notification>,
    pub action: UploadAction,
}

/// An optional notification, as its view.
pub open spec fn notify_view(notify: Option<Notification>) -> Option<NotificationView> {
    match notify {
        Some(n) => Some(n@),
        None => None,
    }
}

impl View for Step {
    type V = StepView;

    open spec fn view(&self) -> StepView {
        StepView { notify: notify_view(self.notify), action: self.action@ }
    }
}

/// An optional time in milliseconds, as a mathematical integer.
pub open spec fn millis_view(time: Option<u64>) -> Option<int> {
    match time {
        Some(ms) => Some(ms as int),
        None => None,
    }
}

/// The deadline after which a credential expiring at `expiration_ms` must
/// not be used: five minutes before expiry, and never before time zero.
pub fn credential_deadline(expiration_ms: Option<u64>) -> (deadline: Option<u64>)
    ensures
        millis_view(deadline) == deadline_of(millis_view(expiration_ms)),
{
    match expiration_ms {
        Some(ms) => Some(ms.saturating_sub(CREDENTIAL_MARGIN_MS)),
        None => None,
    }
}

/// The state of one upload, from its start to its end.
pub struct UploadSession {
    upload_id: String,
    plan: UploadPlan,
    resume_id: Option<String>,
    session_id: Option<String>,
    deadline_ms: Option<u64>,
    callback: Option<CallbackSpec>,
    phase: Phase,
    etags: Vec<Option<String>>,
    uploaded: u64,
    cursor: u32,
}

impl View for UploadSession {
    type V = SessionView;

    closed spec fn view(&self) -> SessionView {
        SessionView {
            upload_id: self.upload_id@,
            plan: self.plan@,
            resume_id: text_view(self.resume_id),
            session_id: text_view(self.session_id),
            deadline_ms: millis_view(self.deadline_ms),
            callback: callback_view(self.callback),
            phase: self.phase,
            etags: slots_view(self.etags@),
            uploaded: self.uploaded as int,
            cursor: self.cursor as int,
        }
    }
}

impl UploadSession {
    /// The session satisfies its invariant.
    pub open spec fn wf(&self) -> bool {
        self@.wf()
    }

    /// The session of a new transfer of a file of `file_size` bytes.
    /// `resume_id` is the remote session to resume, if any;
    /// `token_expiration_ms` the time at which the credential expires, if it
    /// does; `callback` the callback to attach, if any.
    pub fn new(
        upload_id: &str,
        file_size: u64,
        resume_id: Option<String>,
        token_expiration_ms: Option<u64>,
        callback: Option<CallbackSpec>,
    ) -> (session: UploadSession)
        ensures
            session.wf(),
            session@ == SessionView::initial(
                upload_id@,
                file_size as int,
                text_view(resume_id),
                millis_view(token_expiration_ms),
                callback_view(callback),
            ),
    {
        let plan = UploadPlan::new(file_size);
        let total: u32 = plan.total_parts();
        let mut etags: Vec<Option<String>> = Vec::new();
        let mut i: u32 = 0;
        while i < total
            invariant
                i <= total,
                etags@.len() == i,
                forall|j: int| 0 <= j < i ==> (#[trigger] etags@[j]).is_none(),
            decreases total - i,
        {
            etags.push(None);
            i = i + 1;
        }
        let session = UploadSession {
            upload_id: upload_id.to_owned(),
            plan,
            resume_id,
            session_id: None,
            deadline_ms: credential_deadline(token_expiration_ms),
            callback,
            phase: Phase::Initiating,
            etags,
            uploaded: 0,
            cursor: 0,
        };
        proof {
            assert(session@.etags =~= Seq::new(plan@.total_parts as nat, |i: int| None));
            assert(none_done(session@.etags));
            lemma_done_bytes(plan@, session@.etags, plan@.total_parts);
        }
        session
    }

    /// Where the transfer stands.
    pub fn phase(&self) -> (phase: Phase)
        ensures
            phase == self@.phase,
    {
        self.phase
    }

    /// The chunking of the file.
    pub fn plan(&self) -> (plan: UploadPlan)
        ensures
            plan@ == self@.plan,
    {
        self.plan
    }

    /// The bytes that the remote side has acknowledged so far.
    pub fn uploaded_bytes(&self) -> (bytes: u64)
        ensures
            bytes == self@.uploaded,
    {
        self.uploaded
    }

    /// The id of the remote session in use, once there is one.
    pub fn remote_session_id(&self) -> (id: Option<String>)
        ensures
            text_view(id) == self@.session_id,
    {
        match &self.session_id {
            Some(id) => Some(id.clone()),
            None => None,
        }
    }

    /// The deadline of the credential, if it has one.
    pub fn credential_deadline_ms(&self) -> (deadline: Option<u64>)
        ensures
            millis_view(deadline) == self@.deadline_ms,
    {
        self.deadline_ms
    }

    /// Whether the part `n` is acknowledged.
    pub fn is_completed(&self, n: u32) -> (done: bool)
        ensures
            done == self@.completed(n as int),
    {
        if n < 1 || n as usize > self.etags.len() {
            false
        } else {
            self.etags[(n - 1) as usize].is_some()
        }
    }

    /// A copy of the session id in use.
    fn session_id_copy(&self) -> (id: String)
        requires
            self@.session_id.is_some(),
        ensures
            id@ == self@.session_id.unwrap(),
    {
        match &self.session_id {
            Some(id) => id.clone(),
            None => String::new(),
        }
    }

    /// A step that changes nothing.
    fn ignore() -> (step: Step)
        ensures
            step@ == (StepView { notify: None, action: ActionView::Idle }),
    {
        Step { notify: None, action: UploadAction::Idle }
    }

    /// Ends the transfer with a failure.
    fn fail(&mut self, failure: Failure, error: TransferError) -> (step: Step)
        ensures
            (final(self)@, step@) == old(self)@.fail(failure, error@),
    {
        self.phase = Phase::Failed(failure);
        Step { notify: None, action: UploadAction::Fail(error) }
    }

    /// The completion list: every part with a copy of its etag, in ascending
    /// order.
    fn collect_parts(&self) -> (parts: Vec<(u32, String)>)
        requires
            self@.etags.len() <= u32::MAX,
            all_done(self@.etags, self@.etags.len() as int),
        ensures
            parts_view(parts@) == completion_list(self@.etags),
    {
        let mut parts: Vec<(u32, String)> = Vec::new();
        let mut i: usize = 0;
        while i < self.etags.len()
            invariant
                i <= self.etags@.len() <= u32::MAX,
                all_done(self@.etags, self@.etags.len() as int),
                parts@.len() == i,
                forall|j: int|
                    0 <= j < i ==> (#[trigger] parts@[j]).0 == j + 1 && Some(parts@[j].1@)
                        == self@.etags[j],
            decreases self.etags@.len() - i,
        {
            proof {
                assert(self@.etags[i as int].is_some());
            }
            match &self.etags[i] {
                Some(etag) => {
                    parts.push(((i + 1) as u32, etag.clone()));
                },
                None => {},
            }
            i = i + 1;
        }
        proof {
            assert(parts_view(parts@) =~= completion_list(self@.etags));
        }
        parts
    }

    /// Moves on to the first part not yet done at or after part `from`, or
    /// to completion if there is none.
    fn advance(&mut self, from: u32, notify: Option<Notification>) -> (step: Step)
        requires
            old(self)@.plan.wf(),
            old(self)@.etags.len() == old(self)@.plan.total_parts,
            old(self)@.session_id.is_some(),
            1 <= from <= old(self)@.plan.total_parts + 1,
            all_done(old(self)@.etags, from - 1),
        ensures
            (final(self)@, step@) == old(self)@.advance(from as int, notify_view(notify)),
    {
        proof {
            lemma_plan_bounds(self@.plan);
            lemma_first_pending(self@.etags, from - 1);
        }
        let mut i: usize = (from - 1) as usize;
        while i < self.etags.len() && self.etags[i].is_some()
            invariant
                from - 1 <= i <= self.etags@.len(),
                first_pending(self@.etags, from - 1) == first_pending(self@.etags, i as int),
            decreases self.etags@.len() - i,
        {
            i = i + 1;
        }
        if i < self.etags.len() {
            self.phase = Phase::Checking;
            self.cursor = (i + 1) as u32;
            Step { notify, action: UploadAction::Observe }
        } else {
            proof {
                assert(all_done(self@.etags, self@.etags.len() as int));
            }
            let parts = self.collect_parts();
            let session_id = self.session_id_copy();
            let callback = self.callback.take();
            self.phase = Phase::Completing;
            Step { notify, action: UploadAction::Complete { session_id, parts, callback } }
        }
    }

    /// Starts the transfer: a simple upload where the file fits in one part
    /// and nothing is resumed, else the listing of the session to resume,
    /// else a new session.
    pub fn start(&mut self) -> (step: Step)
        requires
            old(self).wf(),
        ensures
            final(self).wf(),
            (final(self)@, step@) == old(self)@.on_start(),
    {
        match self.phase {
            Phase::Initiating => {},
            _ => {
                return Self::ignore();
            },
        }
        let resuming: bool = self.resume_id.is_some();
        if self.plan.is_simple(resuming) {
            let callback = self.callback.take();
            self.phase = Phase::SimpleUpload;
            Step { notify: None, action: UploadAction::PutObject { callback } }
        } else {
            match &self.resume_id {
                Some(id) => {
                    let session_id = id.clone();
                    self.phase = Phase::Reconciling;
                    Step { notify: None, action: UploadAction::ListParts { session_id } }
                },
                None => {
                    self.phase = Phase::Opening;
                    Step { notify: None, action: UploadAction::OpenSession }
                },
            }
        }
    }

    /// The single request of a simple upload went through: the transfer is
    /// done, and says so in a last progress event.
    pub fn object_put(&mut self) -> (step: Step)
        requires
            old(self).wf(),
        ensures
            final(self).wf(),
            (final(self)@, step@) == old(self)@.on_object_put(),
    {
        match self.phase {
            Phase::SimpleUpload => {},
            _ => {
                return Self::ignore();
            },
        }
        self.phase = Phase::Done;
        let event = UploadProgressEvent::complete(
            self.upload_id.as_str(),
            self.plan.file_size(),
            1,
        );
        Step { notify: Some(Notification::Progress(event)), action: UploadAction::Succeed }
    }

    /// The single request of a simple upload failed.
    pub fn object_put_failed(&mut self, reason: String) -> (step: Step)
        requires
            old(self).wf(),
        ensures
            final(self).wf(),
            (final(self)@, step@) == old(self)@.on_object_put_failed(reason@),
    {
        match self.phase {
            Phase::SimpleUpload => {},
            _ => {
                return Self::ignore();
            },
        }
        let stage = RemoteStage::PutObject;
        self.fail(Failure::Remote(stage), TransferError::RemoteTransient { stage, reason })
    }

    /// Takes one listed part as done if it fits the plan. Says whether it
    /// did.
    fn seed(&mut self, part: &ListedPart) -> (taken: bool)
        requires
            old(self)@.plan.wf(),
            old(self)@.etags.len() == old(self)@.plan.total_parts,
            old(self)@.uploaded == done_bytes(
                old(self)@.plan,
                old(self)@.etags,
                old(self)@.plan.total_parts,
            ),
        ensures
            taken == accepts(old(self)@.plan, old(self)@.etags, part@),
            final(self)@ == (SessionView {
                etags: seed_one(old(self)@.plan, old(self)@.etags, part@),
                uploaded: done_bytes(
                    old(self)@.plan,
                    seed_one(old(self)@.plan, old(self)@.etags, part@),
                    old(self)@.plan.total_parts,
                ),
                ..old(self)@
            }),
    {
        proof {
            lemma_plan_bounds(self@.plan);
            lemma_done_bytes(self@.plan, self@.etags, self@.plan.total_parts);
        }
        let n: u32 = part.part_number;
        match self.plan.part_range(n) {
            Some(range) => {
                let slot: usize = (n - 1) as usize;
                if self.etags[slot].is_none() && part.size == range.end - range.start {
                    let etag = part.etag.clone();
                    proof {
                        lemma_fill_slot(
                            self@.plan,
                            self@.etags,
                            slot as int,
                            etag@,
                            self@.plan.total_parts,
                        );
                        lemma_done_bytes(
                            self@.plan,
                            self@.etags.update(slot as int, Some(etag@)),
                            self@.plan.total_parts,
                        );
                    }
                    self.etags[slot] = Some(etag);
                    self.uploaded = self.uploaded + part.size;
                    proof {
                        assert(self@.etags =~= old(self)@.etags.update(slot as int, Some(etag@)));
                    }
                    true
                } else {
                    proof {
                        assert(self@.etags =~= old(self)@.etags);
                    }
                    false
                }
            },
            None => false,
        }
    }

    /// The remote side listed the parts of the session to resume. Each
    /// listed part that is a part of the plan, was not listed before and is
    /// as long as the plan makes it is taken as done; the session id is
    /// kept; the progress so far is published; and the transfer goes on at
    /// the first part not done.
    pub fn parts_listed(&mut self, listing: &Vec<ListedPart>) -> (step: Step)
        requires
            old(self).wf(),
        ensures
            final(self).wf(),
            (final(self)@, step@) == old(self)@.on_parts_listed(listing_view(listing@)),
    {
        match self.phase {
            Phase::Reconciling => {},
            _ => {
                return Self::ignore();
            },
        }
        proof {
            law_step_keeps_invariant(
                self@,
                EventView::PartsListed(listing_view(listing@)),
            );
            lemma_plan_bounds(self@.plan);
            lemma_done_bytes(self@.plan, self@.etags, self@.plan.total_parts);
            assert(self@.etags =~= seeded(self@.plan, listing_view(listing@).take(0)));
        }
        let ghost views = listing_view(listing@);
        let mut count: u32 = 0;
        let mut i: usize = 0;
        while i < listing.len()
            invariant
                i <= listing@.len(),
                views == listing_view(listing@),
                self@.plan.wf(),
                self@.plan.total_parts <= 10000,
                self@ == (SessionView {
                    etags: seeded(old(self)@.plan, views.take(i as int)),
                    uploaded: done_bytes(
                        old(self)@.plan,
                        seeded(old(self)@.plan, views.take(i as int)),
                        old(self)@.plan.total_parts,
                    ),
                    ..old(self)@
                }),
                self@.etags.len() == self@.plan.total_parts,
                count == done_count(self@.etags, self@.plan.total_parts),
            decreases listing@.len() - i,
        {
            proof {
                assert(views.take(i + 1).drop_last() =~= views.take(i as int));
                assert(views.take(i + 1).last() == listing@[i as int]@);
                lemma_done_bytes(self@.plan, self@.etags, self@.plan.total_parts);
                if accepts(self@.plan, self@.etags, listing@[i as int]@) {
                    lemma_fill_slot(
                        self@.plan,
                        self@.etags,
                        listing@[i as int]@.part_number - 1,
                        listing@[i as int]@.etag,
                        self@.plan.total_parts,
                    );
                    lemma_done_bytes(
                        self@.plan,
                        seed_one(self@.plan, self@.etags, listing@[i as int]@),
                        self@.plan.total_parts,
                    );
                }
            }
            if self.seed(&listing[i]) {
                count = count + 1;
            }
            i = i + 1;
        }
        proof {
            assert(views.take(listing@.len() as int) =~= views);
        }
        self.session_id = match &self.resume_id {
            Some(id) => Some(id.clone()),
            None => None,
        };
        let event = UploadProgressEvent::uploading(
            self.upload_id.as_str(),
            self.uploaded,
            self.plan.file_size(),
            count,
            self.plan.total_parts(),
        );
        proof {
            assert(all_done(self@.etags, 0));
        }
        self.advance(1, Some(Notification::Progress(event)))
    }

    /// The session to resume is gone: its id is dropped and a new session is
    /// to be opened.
    pub fn list_failed(&mut self) -> (step: Step)
        requires
            old(self).wf(),
        ensures
            final(self).wf(),
            (final(self)@, step@) == old(self)@.on_list_failed(),
    {
        match self.phase {
            Phase::Reconciling => {},
            _ => {
                return Self::ignore();
            },
        }
        self.resume_id = None;
        self.phase = Phase::Opening;
        Step { notify: None, action: UploadAction::OpenSession }
    }

    /// A new session was opened: its id is kept and announced, so that the
    /// caller can resume the transfer after an interruption.
    pub fn session_opened(&mut self, id: String) -> (step: Step)
        requires
            old(self).wf(),
        ensures
            final(self).wf(),
            (final(self)@, step@) == old(self)@.on_session_opened(id@),
    {
        match self.phase {
            Phase::Opening => {},
            _ => {
                return Self::ignore();
            },
        }
        proof {
            law_step_keeps_invariant(self@, EventView::SessionOpened(id@));
            lemma_plan_bounds(self@.plan);
            assert(all_done(self@.etags, 0));
        }
        let event = OssUploadInitEvent {
            upload_id: self.upload_id.clone(),
            oss_upload_id: id.clone(),
        };
        self.session_id = Some(id);
        self.advance(1, Some(Notification::SessionInit(event)))
    }

    /// No new session could be opened.
    pub fn open_failed(&mut self, reason: String) -> (step: Step)
        requires
            old(self).wf(),
        ensures
            final(self).wf(),
            (final(self)@, step@) == old(self)@.on_open_failed(reason@),
    {
        match self.phase {
            Phase::Opening => {},
            _ => {
                return Self::ignore();
            },
        }
        let stage = RemoteStage::OpenSession;
        self.fail(Failure::Remote(stage), TransferError::RemoteTransient { stage, reason })
    }

    /// Does what a signal calls for before the part at the cursor.
    fn obey(&mut self, signal: UploadSignal) -> (step: Step)
        requires
            old(self).wf(),
            old(self)@.phase is Checking || old(self)@.phase is Paused,
        ensures
            final(self).wf(),
            (final(self)@, step@) == old(self)@.obey(signal),
    {
        let session_id = self.session_id_copy();
        match signal {
            UploadSignal::Running => {
                let part_number: u32 = self.cursor;
                match self.plan.part_range(part_number) {
                    Some(range) => {
                        self.phase = Phase::Uploading;
                        Step {
                            notify: None,
                            action: UploadAction::UploadPart { session_id, part_number, range },
                        }
                    },
                    None => Self::ignore(),
                }
            },
            UploadSignal::Paused => {
                self.phase = Phase::Paused;
                Step { notify: None, action: UploadAction::AwaitSignal }
            },
            UploadSignal::Cancelled => {
                self.phase = Phase::Aborting;
                Step { notify: None, action: UploadAction::Abort { session_id } }
            },
        }
    }

    /// The clock and the signal were read before the part at the cursor.
    /// Where the credential's deadline has passed the transfer ends with
    /// `CredentialExpired`, and the remote session is left as it is.
    /// Otherwise `Cancelled` asks for the remote session to be aborted,
    /// `Paused` suspends the transfer, and `Running` sends the part.
    pub fn observed(&mut self, now_ms: u64, signal: UploadSignal) -> (step: Step)
        requires
            old(self).wf(),
        ensures
            final(self).wf(),
            (final(self)@, step@) == old(self)@.on_observed(now_ms as int, signal),
    {
        match self.phase {
            Phase::Checking => {},
            _ => {
                return Self::ignore();
            },
        }
        let expired: bool = match self.deadline_ms {
            Some(deadline) => now_ms >= deadline,
            None => false,
        };
        if expired {
            self.fail(Failure::CredentialExpired, TransferError::CredentialExpired)
        } else {
            self.obey(signal)
        }
    }

    /// The signal changed while the transfer was paused: `Running` sends
    /// the part at the cursor, `Cancelled` asks for the remote session to be
    /// aborted, `Paused` keeps waiting.
    pub fn signal_changed(&mut self, signal: UploadSignal) -> (step: Step)
        requires
            old(self).wf(),
        ensures
            final(self).wf(),
            (final(self)@, step@) == old(self)@.on_signal_changed(signal),
    {
        match self.phase {
            Phase::Paused => {},
            _ => {
                return Self::ignore();
            },
        }
        self.obey(signal)
    }

    /// The signal channel went away while the transfer was paused.
    pub fn signal_closed(&mut self, reason: String) -> (step: Step)
        requires
            old(self).wf(),
        ensures
            final(self).wf(),
            (final(self)@, step@) == old(self)@.on_signal_closed(reason@),
    {
        match self.phase {
            Phase::Paused => {},
            _ => {
                return Self::ignore();
            },
        }
        self.fail(Failure::SignalClosed, TransferError::SignalClosed(reason))
    }

    /// The remote side acknowledged the part at the cursor: its etag is
    /// kept, its length is added to the bytes uploaded, the progress is
    /// published, and the transfer goes on at the next part not done, or
    /// completes.
    pub fn part_uploaded(&mut self, etag: String) -> (step: Step)
        requires
            old(self).wf(),
        ensures
            final(self).wf(),
            (final(self)@, step@) == old(self)@.on_part_uploaded(etag@),
    {
        match self.phase {
            Phase::Uploading => {},
            _ => {
                return Self::ignore();
            },
        }
        proof {
            law_step_keeps_invariant(self@, EventView::PartUploaded(etag@));
            lemma_plan_bounds(self@.plan);
            lemma_fill_slot(
                self@.plan,
                self@.etags,
                self@.cursor - 1,
                etag@,
                self@.plan.total_parts,
            );
            lemma_done_bytes(
                self@.plan,
                self@.etags.update(self@.cursor - 1, Some(etag@)),
                self@.plan.total_parts,
            );
            lemma_parts_len_sum(self@.plan.file_size, self@.plan.part_size, self@.cursor);
        }
        let part_number: u32 = self.cursor;
        let slot: usize = (part_number - 1) as usize;
        let length: u64 = match self.plan.part_range(part_number) {
            Some(range) => range.end - range.start,
            None => 0,
        };
        self.etags[slot] = Some(etag);
        self.uploaded = self.uploaded + length;
        let event = UploadProgressEvent::uploading(
            self.upload_id.as_str(),
            self.uploaded,
            self.plan.file_size(),
            part_number,
            self.plan.total_parts(),
        );
        proof {
            assert(self@.etags =~= old(self)@.etags.update(self@.cursor - 1, Some(etag@)));
            assert(all_done(self@.etags, part_number as int)) by {
                assert forall|j: int| 0 <= j < part_number && j < self@.etags.len() implies (
                #[trigger] self@.etags[j]).is_some() by {
                    if j < part_number - 1 {
                        assert(old(self)@.etags[j].is_some());
                    }
                }
            }
        }
        self.advance(part_number + 1, Some(Notification::Progress(event)))
    }

    /// Sending the part at the cursor failed. Nothing is retried.
    pub fn part_failed(&mut self, reason: String) -> (step: Step)
        requires
            old(self).wf(),
        ensures
            final(self).wf(),
            (final(self)@, step@) == old(self)@.on_part_failed(reason@),
    {
        match self.phase {
            Phase::Uploading => {},
            _ => {
                return Self::ignore();
            },
        }
        let stage = RemoteStage::UploadPart(self.cursor);
        self.fail(Failure::Remote(stage), TransferError::RemoteTransient { stage, reason })
    }

    /// The completion request went through: the transfer is done, and says
    /// so in a last progress event.
    pub fn completed(&mut self) -> (step: Step)
        requires
            old(self).wf(),
        ensures
            final(self).wf(),
            (final(self)@, step@) == old(self)@.on_completed(),
    {
        match self.phase {
            Phase::Completing => {},
            _ => {
                return Self::ignore();
            },
        }
        self.phase = Phase::Done;
        let event = UploadProgressEvent::complete(
            self.upload_id.as_str(),
            self.plan.file_size(),
            self.plan.total_parts(),
        );
        Step { notify: Some(Notification::Progress(event)), action: UploadAction::Succeed }
    }

    /// The completion request failed.
    pub fn complete_failed(&mut self, reason: String) -> (step: Step)
        requires
            old(self).wf(),
        ensures
            final(self).wf(),
            (final(self)@, step@) == old(self)@.on_complete_failed(reason@),
    {
        match self.phase {
            Phase::Completing => {},
            _ => {
                return Self::ignore();
            },
        }
        let stage = RemoteStage::Complete;
        self.fail(Failure::Remote(stage), TransferError::RemoteTransient { stage, reason })
    }

    /// The remote session was asked to abort. Whatever came of that, the
    /// transfer ends with `TransferError::Cancelled`.
    pub fn abort_attempted(&mut self) -> (step: Step)
        requires
            old(self).wf(),
        ensures
            final(self).wf(),
            (final(self)@, step@) == old(self)@.on_abort_attempted(),
    {
        match self.phase {
            Phase::Aborting => {},
            _ => {
                return Self::ignore();
            },
        }
        self.phase = Phase::Cancelled;
        Step { notify: None, action: UploadAction::Fail(TransferError::Cancelled) }
    }

    /// Hands an event to the session and returns what it calls for. An
    /// event that the phase does not await changes nothing and calls for
    /// nothing.
    pub fn step(&mut self, event: UploadEvent) -> (step: Step)
        requires
            old(self).wf(),
        ensures
            final(self).wf(),
            (final(self)@, step@) == old(self)@.step(event@),
    {
        match event {
            UploadEvent::Start => self.start(),
            UploadEvent::ObjectPut => self.object_put(),
            UploadEvent::ObjectPutFailed(reason) => self.object_put_failed(reason),
            UploadEvent::PartsListed(listing) => self.parts_listed(&listing),
            UploadEvent::ListFailed => self.list_failed(),
            UploadEvent::SessionOpened(id) => self.session_opened(id),
            UploadEvent::OpenFailed(reason) => self.open_failed(reason),
            UploadEvent::Observed { now_ms, signal } => self.observed(now_ms, signal),
            UploadEvent::SignalChanged(signal) => self.signal_changed(signal),
            UploadEvent::SignalClosed(reason) => self.signal_closed(reason),
            UploadEvent::PartUploaded(etag) => self.part_uploaded(etag),
            UploadEvent::PartFailed(reason) => self.part_failed(reason),
            UploadEvent::Completed => self.completed(),
            UploadEvent::CompleteFailed(reason) => self.complete_failed(reason),
            UploadEvent::AbortAttempted => self.abort_attempted(),
        }
    }
}

} // verus!
