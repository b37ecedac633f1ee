//! What a transfer publishes to the user interface.

use vstd::prelude::*;

verus! {

/// Progress of one transfer: cumulative bytes, the part just handled and a
/// status marker, `"uploading"` or `"complete"`.
#[derive(Clone, Debug, PartialEq, Eq)]
pub struct UploadProgressEvent {
    pub upload_id: String,
    pub uploaded_size: u64,
    pub total_size: u64,
    pub part_number: u32,
    pub total_parts: u32,
    pub status: String,
}

/// Announces the remote session id of a newly opened multipart session, so
/// that the caller can keep it and resume the transfer later.
#[derive(Clone, Debug, PartialEq, Eq)]
pub struct OssUploadInitEvent {
    pub upload_id: String,
    pub oss_upload_id: String,
}

/// What an `UploadProgressEvent` holds.
pub struct ProgressView {
    pub upload_id: Seq<char>,
    pub uploaded_size: int,
    pub total_size: int,
    pub part_number: int,
    pub total_parts: int,
    pub status: Seq<char>,
}

/// What an `OssUploadInitEvent` holds.
pub struct SessionInitView {
    pub upload_id: Seq<char>,
    pub oss_upload_id: Seq<char>,
}

impl View for UploadProgressEvent {
    type V = ProgressView;

    open spec fn view(&self) -> ProgressView {
        ProgressView {
            upload_id: self.upload_id@,
            uploaded_size: self.uploaded_size as int,
            total_size: self.total_size as int,
            part_number: self.part_number as int,
            total_parts: self.total_parts as int,
            status: self.status@,
        }
    }
}

impl View for OssUploadInitEvent {
    type V = SessionInitView;

    open spec fn view(&self) -> SessionInitView {
        SessionInitView { upload_id: self.upload_id@, oss_upload_id: self.oss_upload_id@ }
    }
}

/// A message for the user interface.
#[derive(Clone, Debug, PartialEq, Eq)]
pub enum Notification {
    /// Published on the progress channel.
    Progress(UploadProgressEvent),
    /// Published on the session-init channel.
    SessionInit(OssUploadInitEvent),
}

/// What a `Notification` holds.
pub enum NotificationView {
    Progress(ProgressView),
    SessionInit(SessionInitView),
}

impl View for Notification {
    type V = NotificationView;

    open spec fn view(&self) -> NotificationView {
        match *self {
            Notification::Progress(e) => NotificationView::Progress(e@),
            Notification::SessionInit(e) => NotificationView::SessionInit(e@),
        }
    }
}

impl ProgressView {
    /// Progress while parts are being sent.
    pub open spec fn uploading(
        upload_id: Seq<char>,
        uploaded: int,
        total_size: int,
        part_number: int,
        total_parts: int,
    ) -> ProgressView {
        ProgressView {
            upload_id,
            uploaded_size: uploaded,
            total_size,
            part_number,
            total_parts,
            status: "uploading"@,
        }
    }

    /// The last event of a transfer: every byte sent, every part done.
    pub open spec fn complete(upload_id: Seq<char>, total_size: int, total_parts: int)
        -> ProgressView {
        ProgressView {
            upload_id,
            uploaded_size: total_size,
            total_size,
            part_number: total_parts,
            total_parts,
            status: "complete"@,
        }
    }
}

impl UploadProgressEvent {
    /// The event sent after a part, or a listing of earlier parts, was taken
    /// into account.
    pub fn uploading(
        upload_id: &str,
        uploaded_size: u64,
        total_size: u64,
        part_number: u32,
        total_parts: u32,
    ) -> (event: UploadProgressEvent)
        ensures
            event@ == ProgressView::uploading(
                upload_id@,
                uploaded_size as int,
                total_size as int,
                part_number as int,
                total_parts as int,
            ),
    {
        UploadProgressEvent {
            upload_id: upload_id.to_owned(),
            uploaded_size,
            total_size,
            part_number,
            total_parts,
            status: "uploading".to_owned(),
        }
    }

    /// The terminal event of a transfer of `total_size` bytes in
    /// `total_parts` parts.
    pub fn complete(upload_id: &str, total_size: u64, total_parts: u32) -> (event:
        UploadProgressEvent)
        ensures
            event@ == ProgressView::complete(upload_id@, total_size as int, total_parts as int),
    {
        UploadProgressEvent {
            upload_id: upload_id.to_owned(),
            uploaded_size: total_size,
            total_size,
            part_number: total_parts,
            total_parts,
            status: "complete".to_owned(),
        }
    }
}

} // verus!
