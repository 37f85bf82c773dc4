//! The interface through which packages are published and downloaded.
use vstd::prelude::*;

use crate::runtime::model;
use crate::runtime::model::{Header, PluginRuntime};
use crate::runtime::server::http_error;
use crate::runtime::server::http_error::{Reply, RuntimeError};
use crate::runtime::server::package_store;
use crate::runtime::server::publish_job::PublishState;
use crate::steps;
use crate::steps::Outcome;
use crate::text;

verus! {

/// The media type of a package.
pub const PACKAGE_CONTENT_TYPE: &'static str = "application/vnd.aio.plugin+gzip";

/// The media type of a component's bundle.
pub const BUNDLE_CONTENT_TYPE: &'static str = "application/vnd.aio.component+gzip";

/// A publication, as its publisher sees it.
#[derive(Debug)]
pub struct PublishedPluginView {
    pub job_id: String,
    pub tenant_id: String,
    pub source_id: String,
    pub revision: String,
    pub runtime: PluginRuntime,
    pub page_count: usize,
    pub state: PublishState,
    pub detail: String,
}

/// The media type that a header names, without its parameters.
pub open spec fn named_type(header: Seq<char>) -> Seq<char> {
    text::trimmed(text::split_on(header, ';')[0])
}

/// Why an upload is not read.
pub open spec fn upload_refusal(content_type: Option<Seq<char>>, encoded: bool) -> Option<
    (u16, Seq<char>),
> {
    if content_type is None || !text::same_letters(
        named_type(content_type->0),
        PACKAGE_CONTENT_TYPE@,
    ) {
        Some((415, "发布接口必须接收 application/vnd.aio.plugin+gzip 二进制包"@))
    } else if encoded {
        Some((415, "插件包已有内置压缩，不接受 Content-Encoding"@))
    } else {
        None
    }
}

/// Requires that an upload is a package, and is not compressed on the way.
pub fn ensure_package_content_type(content_type: Option<&str>, encoded: bool) -> (outcome: Result<
    (),
    RuntimeError,
>)
    ensures
        http_error::answers(outcome, upload_refusal(text::optional_str(content_type), encoded)),
{
    let accepted = match content_type {
        Some(header) => {
            let parts = text::split(header, ';');
            assert(text::split_on(header@, ';')[0] == parts@[0]@);
            let named = text::trim(parts[0].as_str());
            text::eq_ignore_ascii_case(named.as_str(), PACKAGE_CONTENT_TYPE)
        },
        None => false,
    };
    if !accepted {
        return Err(
            RuntimeError::unsupported_media_type(
                "发布接口必须接收 application/vnd.aio.plugin+gzip 二进制包".to_owned(),
            ),
        );
    }
    if encoded {
        return Err(
            RuntimeError::unsupported_media_type(
                "插件包已有内置压缩，不接受 Content-Encoding".to_owned(),
            ),
        );
    }
    Ok(())
}

/// What is to be done before an upload is read.
#[derive(Debug)]
pub enum UploadStep {
    AcquireSlot,
    AuthenticatePublisher,
    Read,
    Refuse(RuntimeError),
}

/// Decides what is to be done before an upload is read: its type is checked first, then there
/// must be room for it, and then its publisher must be known. The refusal of a publisher is handed
/// on.
pub fn authorize_upload(
    content_type: Option<&str>,
    encoded: bool,
    slot: Option<bool>,
    publisher: Option<Result<(), RuntimeError>>,
) -> (step: UploadStep)
    ensures
        ({
            let refusal = upload_refusal(text::optional_str(content_type), encoded);
            match step {
                UploadStep::AcquireSlot => refusal is None && slot is None,
                UploadStep::AuthenticatePublisher => refusal is None && slot == Some(true)
                    && publisher is None,
                UploadStep::Read => refusal is None && slot == Some(true) && publisher is Some
                    && publisher->0 is Ok,
                UploadStep::Refuse(error) => {
                    ||| refusal == Some((error.status, error.message@))
                    ||| refusal is None && slot == Some(false) && error.status == 503
                        && error.message@ == "插件发布繁忙，请稍后重试"@
                    ||| refusal is None && slot == Some(true) && publisher is Some
                        && publisher->0 is Err && publisher->0->Err_0 == error
                },
            }
        }),
{
    match ensure_package_content_type(content_type, encoded) {
        Ok(()) => {},
        Err(error) => return UploadStep::Refuse(error),
    }
    match slot {
        None => return UploadStep::AcquireSlot,
        Some(false) => return UploadStep::Refuse(
            RuntimeError::unavailable("插件发布繁忙，请稍后重试".to_owned()),
        ),
        Some(true) => {},
    }
    match publisher {
        None => UploadStep::AuthenticatePublisher,
        Some(Ok(())) => UploadStep::Read,
        Some(Err(error)) => UploadStep::Refuse(error),
    }
}

/// The headers of a downloaded archive.
pub open spec fn download_headers(content_type: Seq<char>, revision: Seq<char>) -> Seq<
    (Seq<char>, Seq<char>),
> {
    seq![
        ("content-type"@, content_type),
        (
            "content-disposition"@,
            download_name(revision),
        ),
        ("cache-control"@, "private, no-store"@),
    ]
}

/// The name under which an archive is downloaded.
pub open spec fn download_name(revision: Seq<char>) -> Seq<char> {
    "attachment; filename=\""@ + revision + ".aio-plugin\""@
}

/// Why a download is refused: there is neither a bundle of that digest nor a package that passed
/// its publication, or its name cannot be told.
pub open spec fn download_refusal(bundle: bool, package: bool, revision: Seq<char>) -> Option<
    (u16, Seq<char>),
> {
    if !bundle && !package_store::package_revision(revision) {
        Some((400, "插件包版本必须是完整 SHA-256"@))
    } else if !bundle && !package {
        Some((404, "插件包不存在或尚未通过发布验证"@))
    } else if !http_error::header_value(download_name(revision)) {
        Some((400, "插件包下载文件名无效"@))
    } else {
        None
    }
}

/// Answers a download: with a component's bundle where there is one of that digest, otherwise with
/// a package that passed its publication.
pub fn download_package(bundle: Option<Vec<u8>>, package: Option<Vec<u8>>, revision: &str) -> (
    outcome: Result<Reply, RuntimeError>)
    ensures
        http_error::answers(
            outcome,
            download_refusal(bundle is Some, package is Some, revision@),
        ),
        outcome matches Ok(reply) ==> {
            &&& reply.status == 200
            &&& if bundle is Some {
                &&& Some(reply.body) == bundle
                &&& model::header_texts(reply.headers@) == download_headers(
                    BUNDLE_CONTENT_TYPE@,
                    revision@,
                )
            } else {
                &&& Some(reply.body) == package
                &&& model::header_texts(reply.headers@) == download_headers(
                    PACKAGE_CONTENT_TYPE@,
                    revision@,
                )
            }
        },
{
    let content_type = if bundle.is_some() {
        BUNDLE_CONTENT_TYPE
    } else {
        PACKAGE_CONTENT_TYPE
    };
    let body = match bundle {
        Some(bundle) => bundle,
        None => {
            match package_store::require_package_revision(revision) {
                Ok(()) => {},
                Err(told) => return Err(RuntimeError::bad_request(told)),
            }
            match package {
                Some(package) => package,
                None => return Err(
                    RuntimeError::not_found("插件包不存在或尚未通过发布验证".to_owned()),
                ),
            }
        },
    };
    let disposition = "attachment; filename=\"".to_owned().concat(revision).concat(
        ".aio-plugin\"",
    );
    if !http_error::is_header_value(disposition.as_str()) {
        return Err(RuntimeError::bad_request("插件包下载文件名无效".to_owned()));
    }
    let mut headers: Vec<Header> = Vec::new();
    headers.push(model::header("content-type", content_type));
    headers.push(model::header("content-disposition", disposition.as_str()));
    headers.push(model::header("cache-control", "private, no-store"));
    assert(model::header_texts(headers@) =~= download_headers(content_type@, revision@));
    Ok(Reply { status: 200, headers, body })
}

/// What is known so far of a package that is being published.
#[derive(Debug)]
pub struct PublishProgress {
    pub decoded: Outcome<()>,
    /// Whether the publisher may publish for the package's repository.
    pub authorized: Option<Result<(), RuntimeError>>,
    /// The id that the package gives its plugin, once it is in the cache.
    pub staged: Outcome<String>,
    pub saved: Outcome<()>,
    /// The id under which the plugin is known, where it is.
    pub source: Outcome<Option<String>>,
    /// That the publication is queued, and how far it has come.
    pub queued: Outcome<PublishState>,
    /// Whether it was tried to note the publication with the plugin.
    pub noted: bool,
    pub started: bool,
}

/// What is to be done next with a package that is being published.
#[derive(Debug)]
pub enum PublishStep {
    Decode,
    Authorize,
    Stage,
    Save,
    FindSource,
    /// The publication is queued under this id.
    Queue(String),
    Note(String),
    Start,
    Answer(String),
    Refuse(RuntimeError),
}

impl PublishProgress {
    pub fn start() -> (progress: PublishProgress)
        ensures
            progress.decoded is None,
            progress.authorized is None,
            progress.staged is None,
            progress.saved is None,
            progress.source is None,
            progress.queued is None,
            !progress.noted,
            !progress.started,
    {
        PublishProgress {
            decoded: None,
            authorized: None,
            staged: None,
            saved: None,
            source: None,
            queued: None,
            noted: false,
            started: false,
        }
    }

    /// The publisher may publish the package.
    pub open spec fn allowed(&self) -> bool {
        steps::done(self.decoded) && match self.authorized {
            Some(Ok(_)) => true,
            _ => false,
        }
    }

    /// The package is in the cache and in the store.
    pub open spec fn kept(&self) -> bool {
        self.allowed() && steps::done(self.staged) && steps::done(self.saved)
    }

    /// The publication is queued.
    pub open spec fn waiting(&self) -> bool {
        self.kept() && steps::done(self.source) && steps::done(self.queued)
    }

    /// The publication waits for this host to start it.
    pub open spec fn startable(&self) -> bool {
        match self.queued {
            Some(Ok(state)) => state is Queued,
            _ => false,
        }
    }

    /// The id under which the plugin is published: the known one before the package's own.
    pub open spec fn published_under(&self) -> Seq<char> {
        match self.source {
            Some(Ok(Some(known))) => known@,
            _ => self.staged->0->Ok_0@,
        }
    }

    /// How the publication is refused.
    pub open spec fn refusal(&self) -> Option<(u16, Seq<char>)> {
        if !steps::done(self.decoded) {
            answered(steps::failure(self.decoded))
        } else if !self.allowed() {
            match self.authorized {
                Some(Err(error)) => Some((error.status, error.message@)),
                _ => None,
            }
        } else if !steps::done(self.staged) {
            answered(steps::failure(self.staged))
        } else if !steps::done(self.saved) {
            answered(steps::failure(self.saved))
        } else if !steps::done(self.source) {
            answered(steps::failure(self.source))
        } else {
            answered(steps::failure(self.queued))
        }
    }

    /// Whether a step is the one to be taken next.
    pub open spec fn asks(&self, step: PublishStep) -> bool {
        &&& step is Decode <==> self.decoded is None
        &&& step is Authorize <==> steps::done(self.decoded) && self.authorized is None
        &&& step is Stage <==> self.allowed() && self.staged is None
        &&& step is Save <==> self.allowed() && steps::done(self.staged) && self.saved is None
        &&& step is FindSource <==> self.kept() && self.source is None
        &&& step is Queue <==> self.kept() && steps::done(self.source) && self.queued is None
        &&& step is Note <==> self.waiting() && !self.noted
        &&& step is Start <==> self.waiting() && self.noted && self.startable() && !self.started
        &&& step is Answer <==> self.waiting() && self.noted && (self.startable()
            ==> self.started)
        &&& step is Refuse <==> self.refusal() is Some
        &&& step matches PublishStep::Queue(source) ==> source@ == self.published_under()
        &&& step matches PublishStep::Note(source) ==> source@ == self.published_under()
        &&& step matches PublishStep::Answer(source) ==> source@ == self.published_under()
        &&& step matches PublishStep::Refuse(error) ==> self.refusal() == Some(
            (error.status, error.message@),
        )
    }

    /// What is to be done next: nothing is kept of a package that its publisher may not publish,
    /// and a publication is started only where it waits.
    pub fn next(&self) -> (step: PublishStep)
        ensures
            self.asks(step),
    {
        match &self.decoded {
            None => return PublishStep::Decode,
            Some(Err(told)) => return PublishStep::Refuse(RuntimeError::bad_request(told.clone())),
            Some(Ok(())) => {},
        }
        match &self.authorized {
            None => return PublishStep::Authorize,
            Some(Err(error)) => return PublishStep::Refuse(
                RuntimeError { status: error.status, message: error.message.clone() },
            ),
            Some(Ok(())) => {},
        }
        let own = match &self.staged {
            None => return PublishStep::Stage,
            Some(Err(told)) => return PublishStep::Refuse(RuntimeError::bad_request(told.clone())),
            Some(Ok(own)) => own,
        };
        match &self.saved {
            None => return PublishStep::Save,
            Some(Err(told)) => return PublishStep::Refuse(RuntimeError::bad_request(told.clone())),
            Some(Ok(())) => {},
        }
        let source = match &self.source {
            None => return PublishStep::FindSource,
            Some(Err(told)) => return PublishStep::Refuse(RuntimeError::bad_request(told.clone())),
            Some(Ok(Some(known))) => known,
            Some(Ok(None)) => own,
        };
        let state = match &self.queued {
            None => return PublishStep::Queue(source.clone()),
            Some(Err(told)) => return PublishStep::Refuse(RuntimeError::bad_request(told.clone())),
            Some(Ok(state)) => *state,
        };
        if !self.noted {
            return PublishStep::Note(source.clone());
        }
        if state == PublishState::Queued && !self.started {
            return PublishStep::Start;
        }
        PublishStep::Answer(source.clone())
    }
}

/// How a failure is answered.
pub open spec fn answered(told: Option<Seq<char>>) -> Option<(u16, Seq<char>)> {
    match told {
        Some(told) => Some((400, told)),
        None => None,
    }
}

/// Nothing is kept of a package that its publisher may not publish.
pub proof fn lemma_foreign_package_is_not_kept(progress: PublishProgress)
    requires
        progress.authorized is Some,
        progress.authorized->0 is Err,
    ensures
        !progress.allowed(),
        !progress.kept(),
        !progress.waiting(),
{
}

/// What the publisher is told, and whether the job is started at once: only one that waits is.
pub fn publish(
    job_id: String,
    tenant_id: String,
    source_id: String,
    revision: String,
    runtime: PluginRuntime,
    page_count: usize,
    state: PublishState,
    detail: String,
) -> (told: (PublishedPluginView, bool))
    ensures
        told.0.job_id == job_id,
        told.0.tenant_id == tenant_id,
        told.0.source_id == source_id,
        told.0.revision == revision,
        told.0.runtime == runtime,
        told.0.page_count == page_count,
        told.0.state == state,
        told.0.detail == detail,
        told.1 == (state is Queued),
{
    let start = state == PublishState::Queued;
    (
        PublishedPluginView {
            job_id,
            tenant_id,
            source_id,
            revision,
            runtime,
            page_count,
            state,
            detail,
        },
        start,
    )
}

/// An upload is read where its media type, without parameters and white space and in letters of
/// either case, is that of packages, and where it is not encoded on the way.
pub proof fn lemma_which_uploads_are_read(header: Seq<char>, encoded: bool)
    ensures
        upload_refusal(None, encoded)
            == Some((415u16, "发布接口必须接收 application/vnd.aio.plugin+gzip 二进制包"@)),
        ({
            let named = text::trimmed(text::split_on(header, ';')[0]);
            let accepted = text::same_letters(named, "application/vnd.aio.plugin+gzip"@);
            &&& upload_refusal(Some(header), encoded) is None <==> accepted && !encoded
            &&& !accepted ==> upload_refusal(Some(header), encoded) == Some(
                (415u16, "发布接口必须接收 application/vnd.aio.plugin+gzip 二进制包"@),
            )
            &&& accepted && encoded ==> upload_refusal(Some(header), encoded) == Some(
                (415u16, "插件包已有内置压缩，不接受 Content-Encoding"@),
            )
        }),
{
}

/// What is downloaded: a bundle of the digest, or else a package that passed its publication and
/// whose revision is a full digest. It is sent as a file under that revision, and is never kept.
pub proof fn lemma_what_is_downloaded(bundle: bool, package: bool, revision: Seq<char>,
    content_type: Seq<char>)
    ensures
        !bundle && !package_store::package_revision(revision)
            ==> download_refusal(bundle, package, revision)
            == Some((400u16, "插件包版本必须是完整 SHA-256"@)),
        !bundle && package_store::package_revision(revision) && !package
            ==> download_refusal(bundle, package, revision) == Some((404u16, "插件包不存在或尚未通过发布验证"@)),
        (bundle || package_store::package_revision(revision) && package)
            && http_error::header_value("attachment; filename=\""@ + revision
            + ".aio-plugin\""@) ==> download_refusal(bundle, package, revision) is None,
        download_headers(content_type, revision).contains(("content-type"@, content_type)),
        download_headers(content_type, revision).contains(("content-disposition"@,
            "attachment; filename=\""@ + revision + ".aio-plugin\""@)),
        download_headers(content_type, revision).contains(("cache-control"@, "private, no-store"@)),
{
    let headers = download_headers(content_type, revision);
    assert(headers[0].0 == "content-type"@);
    assert(headers[1].0 == "content-disposition"@);
    assert(headers[2].0 == "cache-control"@);
}

/// A package is published in order: it is decoded, its publisher must be allowed to publish for its
/// repository, it is put into the cache and the store, and its publication is queued and noted
/// under the id by which the plugin is known, or else the package's own. It is started only where
/// it waits.
pub proof fn lemma_package_is_published_in_order(progress: PublishProgress, step: PublishStep)
    requires
        progress.asks(step),
    ensures
        progress.decoded is None ==> step is Decode,
        (progress.decoded is Some && progress.decoded->0 is Err)
            ==> step is Refuse && step->Refuse_0.status == 400
            && step->Refuse_0.message@ == progress.decoded->0->Err_0@,
        (progress.decoded is Some && progress.decoded->0 is Ok) && progress.authorized is None
            ==> step is Authorize,
        (progress.decoded is Some && progress.decoded->0 is Ok) && (progress.authorized is Some
            && progress.authorized->0 is Err)
            ==> step is Refuse && step->Refuse_0.status == progress.authorized->0->Err_0.status
            && step->Refuse_0.message@ == progress.authorized->0->Err_0.message@,
        (progress.decoded is Some && progress.decoded->0 is Ok) && (progress.authorized is Some
            && progress.authorized->0 is Ok) ==> {
            &&& progress.staged is None ==> step is Stage
            &&& (progress.staged is Some && progress.staged->0 is Err)
                ==> step is Refuse && step->Refuse_0.status == 400
                && step->Refuse_0.message@ == progress.staged->0->Err_0@
            &&& (progress.staged is Some && progress.staged->0 is Ok) && progress.saved is None
                ==> step is Save
            &&& (progress.staged is Some && progress.staged->0 is Ok) && (progress.saved is Some
                && progress.saved->0 is Err)
                ==> step is Refuse && step->Refuse_0.status == 400
                && step->Refuse_0.message@ == progress.saved->0->Err_0@
            &&& (progress.staged is Some && progress.staged->0 is Ok) && (progress.saved is Some
                && progress.saved->0 is Ok) && progress.source is None ==> step is FindSource
            &&& (progress.staged is Some && progress.staged->0 is Ok) && (progress.saved is Some
                && progress.saved->0 is Ok) && (progress.source is Some
                && progress.source->0 is Err)
                ==> step is Refuse && step->Refuse_0.status == 400
                && step->Refuse_0.message@ == progress.source->0->Err_0@
            &&& (progress.staged is Some && progress.staged->0 is Ok) && (progress.saved is Some
                && progress.saved->0 is Ok) && (progress.source is Some
                && progress.source->0 is Ok) ==> {
                let id = if progress.source->0->Ok_0 is Some {
                    progress.source->0->Ok_0->0@
                } else {
                    progress.staged->0->Ok_0@
                };
                &&& progress.queued is None ==> step is Queue && step->Queue_0@ == id
                &&& (progress.queued is Some && progress.queued->0 is Err)
                    ==> step is Refuse && step->Refuse_0.status == 400
                    && step->Refuse_0.message@ == progress.queued->0->Err_0@
                &&& (progress.queued is Some && progress.queued->0 is Ok) && !progress.noted
                    ==> step is Note && step->Note_0@ == id
                &&& (progress.queued is Some && progress.queued->0 is Ok) && progress.noted
                    && progress.queued->0->Ok_0 is Queued
                    && !progress.started ==> step is Start
                &&& (progress.queued is Some && progress.queued->0 is Ok) && progress.noted
                    && (!(progress.queued->0->Ok_0 is Queued)
                    || progress.started) ==> step is Answer && step->Answer_0@ == id
            }
        },
{
}

} // verus!
