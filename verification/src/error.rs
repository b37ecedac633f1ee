//! Ways in which a transfer, or a request on the signal bus, ends without
//! success.

use vstd::prelude::*;
use crate::text::decimal;
use crate::text::join;
use crate::text::push_decimal;

verus! {

/// The remote operation during which a failure was reported.
#[derive(Clone, Copy, Debug, PartialEq, Eq, Structural)]
pub enum RemoteStage {
    /// The single request of a simple upload.
    PutObject,
    /// Opening a new multipart session.
    OpenSession,
    /// Uploading the part with the given number.
    UploadPart(u32),
    /// The completion request.
    Complete,
}

/// Why a transfer or a signal request did not succeed.
#[derive(Clone, Debug, PartialEq, Eq)]
pub enum TransferError {
    /// A remote operation failed. Nothing is retried: the caller may resume
    /// with the same remote session id.
    RemoteTransient { stage: RemoteStage, reason: String },
    /// The credential's deadline had passed before a part was to be sent.
    CredentialExpired,
    /// The caller cancelled the transfer.
    Cancelled,
    /// The signal channel went away while the transfer was paused.
    SignalClosed(String),
    /// No transfer is registered under the given id.
    UnknownTransfer,
    /// A transfer is already registered under the given id.
    DuplicateTransfer,
}

/// What a `TransferError` holds, with strings as sequences of characters.
pub enum TransferErrorView {
    RemoteTransient { stage: RemoteStage, reason: Seq<char> },
    CredentialExpired,
    Cancelled,
    SignalClosed(Seq<char>),
    UnknownTransfer,
    DuplicateTransfer,
}

impl View for TransferError {
    type V = TransferErrorView;

    open spec fn view(&self) -> TransferErrorView {
        match *self {
            TransferError::RemoteTransient { stage, reason } => TransferErrorView::RemoteTransient {
                stage,
                reason: reason@,
            },
            TransferError::CredentialExpired => TransferErrorView::CredentialExpired,
            TransferError::Cancelled => TransferErrorView::Cancelled,
            TransferError::SignalClosed(reason) => TransferErrorView::SignalClosed(reason@),
            TransferError::UnknownTransfer => TransferErrorView::UnknownTransfer,
            TransferError::DuplicateTransfer => TransferErrorView::DuplicateTransfer,
        }
    }
}

impl TransferErrorView {
    /// The text under which the error is reported to the caller.
    pub open spec fn message(self) -> Seq<char> {
        match self {
            TransferErrorView::RemoteTransient { stage, reason } => match stage {
                RemoteStage::PutObject => "上传文件失败: "@ + reason,
                RemoteStage::OpenSession => "初始化分片上传失败: "@ + reason,
                RemoteStage::UploadPart(n) => "上传分片 "@ + decimal(n as nat) + " 失败: "@
                    + reason,
                RemoteStage::Complete => "完成分片上传失败: "@ + reason,
            },
            TransferErrorView::CredentialExpired => "token_expired"@,
            TransferErrorView::Cancelled => "upload_cancelled"@,
            TransferErrorView::SignalClosed(reason) => "信号通道关闭: "@ + reason,
            TransferErrorView::UnknownTransfer => "未找到上传任务"@,
            TransferErrorView::DuplicateTransfer => "上传任务已存在"@,
        }
    }
}

impl TransferError {
    /// The text under which the error is reported to the caller. A lapsed
    /// credential reads `token_expired` and a cancellation
    /// `upload_cancelled`, by which the caller tells them from failures;
    /// a remote failure names the operation and gives the remote side's
    /// own words.
    pub fn message(&self) -> (text: String)
        ensures
            text@ == self@.message(),
    {
        match self {
            TransferError::RemoteTransient { stage, reason } => match stage {
                RemoteStage::PutObject => join("上传文件失败: ", reason.as_str()),
                RemoteStage::OpenSession => join("初始化分片上传失败: ", reason.as_str()),
                RemoteStage::UploadPart(n) => {
                    let mut text: String = "上传分片 ".to_owned();
                    push_decimal(&mut text, *n as u64);
                    text.push_str(" 失败: ");
                    text.push_str(reason.as_str());
                    text
                },
                RemoteStage::Complete => join("完成分片上传失败: ", reason.as_str()),
            },
            TransferError::CredentialExpired => "token_expired".to_owned(),
            TransferError::Cancelled => "upload_cancelled".to_owned(),
            TransferError::SignalClosed(reason) => join("信号通道关闭: ", reason.as_str()),
            TransferError::UnknownTransfer => "未找到上传任务".to_owned(),
            TransferError::DuplicateTransfer => "上传任务已存在".to_owned(),
        }
    }
}

} // verus!
