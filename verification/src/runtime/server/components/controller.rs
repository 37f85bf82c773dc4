//! The interface through which bundles are published.
use vstd::prelude::*;

use crate::runtime::server::http_error;
use crate::runtime::server::http_error::RuntimeError;
use crate::text;

verus! {

/// What is to be done before an upload is read.
#[derive(Debug)]
pub enum UploadStep {
    AuthenticatePublisher,
    AcquireSlot,
    Read,
    Refuse(RuntimeError),
}

/// Whether a step is the one to be taken before an upload is read.
pub open spec fn admits(encoded: bool, publisher: Option<Result<(), RuntimeError>>,
    slot: Option<bool>, step: UploadStep) -> bool {
    match step {
        UploadStep::AuthenticatePublisher => !encoded && publisher is None,
        UploadStep::AcquireSlot => !encoded && publisher is Some && publisher->0 is Ok
            && slot is None,
        UploadStep::Read => !encoded && publisher is Some && publisher->0 is Ok && slot == Some(
            true,
        ),
        UploadStep::Refuse(error) => {
            ||| encoded && error.status == 415 && error.message@ == "不接受传输压缩"@
            ||| !encoded && publisher is Some && publisher->0 is Err && publisher->0->Err_0
                == error
            ||| !encoded && publisher is Some && publisher->0 is Ok && slot == Some(false)
                && error.status == 503 && error.message@ == "正在验证其他发布，请稍后重试"@
        },
    }
}

/// Decides what is to be done before an upload is read: it must not be compressed on the way, its
/// publisher must be known, and there must be room for another one. What has not been tried yet
/// is absent; the refusal of a publisher is handed on.
pub fn authorize_upload(
    encoded: bool,
    publisher: Option<Result<(), RuntimeError>>,
    slot: Option<bool>,
) -> (step: UploadStep)
    ensures
        admits(encoded, publisher, slot, step),
{
    if encoded {
        return UploadStep::Refuse(
            RuntimeError::unsupported_media_type("不接受传输压缩".to_owned()),
        );
    }
    match publisher {
        None => UploadStep::AuthenticatePublisher,
        Some(Err(error)) => UploadStep::Refuse(error),
        Some(Ok(())) => match slot {
            None => UploadStep::AcquireSlot,
            Some(true) => UploadStep::Read,
            Some(false) => UploadStep::Refuse(
                RuntimeError::unavailable("正在验证其他发布，请稍后重试".to_owned()),
            ),
        },
    }
}

/// Requires that an upload is a bundle, by its media type.
pub fn require_bundle_type(content_type: Option<&str>) -> (outcome: Result<(), RuntimeError>)
    ensures
        http_error::answers(
            outcome,
            if text::optional_str(content_type) == Some("application/vnd.aio.component+gzip"@) {
                None
            } else {
                Some((415u16, "必须上传原生 v2 整包"@))
            },
        ),
{
    let accepted = match content_type {
        Some(content_type) => text::same(content_type, "application/vnd.aio.component+gzip"),
        None => false,
    };
    if !accepted {
        return Err(RuntimeError::unsupported_media_type("必须上传原生 v2 整包".to_owned()));
    }
    Ok(())
}

/// An upload is read only where it came as it is, from a known publisher, and there is room; each
/// is asked once the one before it holds, and what is wrong first is told.
pub proof fn lemma_upload_is_read_last(encoded: bool, publisher: Option<Result<(), RuntimeError>>,
    slot: Option<bool>, step: UploadStep)
    requires
        admits(encoded, publisher, slot, step),
    ensures
        encoded ==> step is Refuse && step->Refuse_0.status == 415
            && step->Refuse_0.message@ == "不接受传输压缩"@,
        !encoded && publisher is None ==> step is AuthenticatePublisher,
        !encoded && publisher is Some && publisher->0 is Err
            ==> step is Refuse && step->Refuse_0 == publisher->0->Err_0,
        !encoded && publisher is Some && publisher->0 is Ok && slot is None ==> step is AcquireSlot,
        !encoded && publisher is Some && publisher->0 is Ok && slot == Some(true) ==> step is Read,
        !encoded && publisher is Some && publisher->0 is Ok && slot == Some(false)
            ==> step is Refuse && step->Refuse_0.status == 503
            && step->Refuse_0.message@ == "正在验证其他发布，请稍后重试"@,
{
}

} // verus!
