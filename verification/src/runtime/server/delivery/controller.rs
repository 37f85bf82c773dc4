//! The interface of the build service.
use vstd::prelude::*;

use crate::outside;
use crate::runtime::server::delivery::store::BuildJob;
use crate::runtime::server::http_error;
use crate::runtime::server::http_error::RuntimeError;
use crate::runtime::server::process;
use crate::steps;
use crate::steps::Outcome;
use crate::text;

verus! {

/// The shortest token that opens the interface, in bytes.
pub const MIN_TOKEN_BYTES: usize = 32;

/// How many characters of a build's error are kept.
pub const MAX_ERROR_CHARS: usize = 16000;

// Tokens

/// The token of an authorization header; nothing where there is none.
pub open spec fn bearer_token(header: Option<Seq<char>>) -> Seq<char> {
    match header {
        Some(header) => if "Bearer "@.is_prefix_of(header) {
            header.skip("Bearer "@.len() as int)
        } else {
            ""@
        },
        None => ""@,
    }
}

/// Whether a header opens the interface: the host has a token that is long enough, and the digests
/// of both tokens agree.
pub open spec fn opens(configured: Seq<char>, header: Option<Seq<char>>) -> bool {
    &&& text::byte_len(configured) >= MIN_TOKEN_BYTES
    &&& text::hex(outside::sha256(vstd::utf8::encode_utf8(configured))) == text::hex(
        outside::sha256(vstd::utf8::encode_utf8(bearer_token(header))),
    )
}

/// Requires the token of the build service.
pub fn authorize(configured: &str, header: Option<&str>) -> (outcome: Result<(), RuntimeError>)
    ensures
        http_error::answers(
            outcome,
            if opens(configured@, text::optional_str(header)) {
                None
            } else {
                Some((401u16, "构建服务凭据无效"@))
            },
        ),
{
    let provided = match header {
        Some(header) => match text::strip_prefix(header, "Bearer ") {
            Some(token) => {
                assert(token@ =~= header@.skip("Bearer "@.len() as int));
                token
            },
            None => "".to_owned(),
        },
        None => "".to_owned(),
    };
    if configured.as_bytes().len() < MIN_TOKEN_BYTES || outside::sha256_hex(configured.as_bytes())
        != outside::sha256_hex(provided.as_str().as_bytes()) {
        return Err(RuntimeError::unauthorized("构建服务凭据无效".to_owned()));
    }
    Ok(())
}

/// Where no token is configured, no header opens the interface.
pub proof fn lemma_closed_without_token(configured: Seq<char>, header: Option<Seq<char>>)
    requires
        text::byte_len(configured) < MIN_TOKEN_BYTES,
    ensures
        !opens(configured, header),
{
}

// Jobs

/// Whether a status answers a sign of life.
pub open spec fn answers_heartbeat(leased: bool, status: u16) -> bool {
    status == if leased {
        204u16
    } else {
        409u16
    }
}

/// The answer to a sign of life: the job's lease must still count.
pub fn heartbeat(leased: bool) -> (status: u16)
    ensures
        answers_heartbeat(leased, status),
{
    if leased {
        204
    } else {
        409
    }
}

/// Whether a package was built for a job: from its repository and commit, under its version.
pub open spec fn built_for(
    job: BuildJob,
    git: Seq<char>,
    source_revision: Option<Seq<char>>,
    version: Seq<char>,
) -> bool {
    &&& git == job.git@
    &&& source_revision == Some(job.source_revision@)
    &&& version == job.version@
}

/// Requires that an uploaded package was built for the job.
pub fn upload(job: &BuildJob, git: &str, source_revision: Option<&str>, version: &str) -> (outcome:
    Result<(), RuntimeError>)
    ensures
        http_error::answers(
            outcome,
            if built_for(*job, git@, text::optional_str(source_revision), version@) {
                None
            } else {
                Some((400u16, "构建产物与任务的仓库、源码提交或版本不符"@))
            },
        ),
{
    let same_source = match source_revision {
        Some(revision) => text::same(revision, job.source_revision.as_str()),
        None => false,
    };
    if !text::same(git, job.git.as_str()) || !same_source || !text::same(
        version,
        job.version.as_str(),
    ) {
        return Err(
            RuntimeError::bad_request("构建产物与任务的仓库、源码提交或版本不符".to_owned()),
        );
    }
    Ok(())
}

/// What is known so far of an upload.
#[derive(Debug)]
pub struct UploadProgress {
    /// The job that the lease was given for.
    pub job: Outcome<BuildJob>,
    /// The package, as it was decoded.
    pub decoded: Outcome<UploadedPackage>,
    pub staged: Outcome<()>,
    pub saved: Outcome<()>,
    pub recorded: Outcome<()>,
}

/// What an uploaded package says of itself.
#[derive(Debug)]
pub struct UploadedPackage {
    pub git: String,
    pub source_revision: Option<String>,
    pub version: String,
    pub revision: String,
}

/// What is to be done next with an upload.
#[derive(Debug)]
pub enum UploadStep {
    CheckLease,
    Decode,
    Stage,
    Save,
    /// The job now has the package of this revision.
    Record(String),
    End,
    Refuse(RuntimeError),
}

impl UploadProgress {
    pub fn start() -> (progress: UploadProgress)
        ensures
            progress.job is None,
            progress.decoded is None,
            progress.staged is None,
            progress.saved is None,
            progress.recorded is None,
    {
        UploadProgress { job: None, decoded: None, staged: None, saved: None, recorded: None }
    }

    /// The lease counts and the package was decoded.
    pub open spec fn read(&self) -> bool {
        steps::done(self.job) && steps::done(self.decoded)
    }

    /// The package was built for the job.
    pub open spec fn fits(&self) -> bool {
        match (self.job, self.decoded) {
            (Some(Ok(job)), Some(Ok(package))) => built_for(
                job,
                package.git@,
                text::optional(package.source_revision),
                package.version@,
            ),
            _ => false,
        }
    }

    /// What is told where the upload is refused.
    pub open spec fn refusal(&self) -> Option<Seq<char>> {
        if !steps::done(self.job) {
            steps::failure(self.job)
        } else if !steps::done(self.decoded) {
            steps::failure(self.decoded)
        } else if !self.fits() {
            Some("构建产物与任务的仓库、源码提交或版本不符"@)
        } else if !steps::done(self.staged) {
            steps::failure(self.staged)
        } else if !steps::done(self.saved) {
            steps::failure(self.saved)
        } else {
            steps::failure(self.recorded)
        }
    }

    /// Whether a step is the one to be taken next.
    pub open spec fn asks(&self, step: UploadStep) -> bool {
        &&& step is CheckLease <==> self.job is None
        &&& step is Decode <==> steps::done(self.job) && self.decoded is None
        &&& step is Stage <==> self.fits() && self.staged is None
        &&& step is Save <==> self.fits() && steps::done(self.staged) && self.saved is None
        &&& step is Record <==> self.fits() && steps::done(self.staged) && steps::done(self.saved)
            && self.recorded is None
        &&& step is End <==> self.fits() && steps::done(self.staged) && steps::done(self.saved)
            && steps::done(self.recorded)
        &&& step is Refuse <==> self.refusal() is Some
        &&& step matches UploadStep::Record(revision)
            ==> revision@ == self.decoded->0->Ok_0.revision@
        &&& step matches UploadStep::Refuse(error)
            ==> error.status == 400 && self.refusal() == Some(
            error.message@,
        )
    }

    /// What is to be done next: a package is kept only where the lease counts and the package was
    /// built for the job.
    pub fn next(&self) -> (step: UploadStep)
        ensures
            self.asks(step),
    {
        let job = match &self.job {
            None => return UploadStep::CheckLease,
            Some(Err(told)) => return UploadStep::Refuse(RuntimeError::bad_request(told.clone())),
            Some(Ok(job)) => job,
        };
        let package = match &self.decoded {
            None => return UploadStep::Decode,
            Some(Err(told)) => return UploadStep::Refuse(RuntimeError::bad_request(told.clone())),
            Some(Ok(package)) => package,
        };
        let source_revision = match &package.source_revision {
            Some(revision) => Some(revision.as_str()),
            None => None,
        };
        match upload(job, package.git.as_str(), source_revision, package.version.as_str()) {
            Err(error) => return UploadStep::Refuse(error),
            Ok(()) => {},
        }
        match &self.staged {
            None => return UploadStep::Stage,
            Some(Err(told)) => return UploadStep::Refuse(RuntimeError::bad_request(told.clone())),
            Some(Ok(())) => {},
        }
        match &self.saved {
            None => return UploadStep::Save,
            Some(Err(told)) => return UploadStep::Refuse(RuntimeError::bad_request(told.clone())),
            Some(Ok(())) => {},
        }
        match &self.recorded {
            None => UploadStep::Record(package.revision.clone()),
            Some(Err(told)) => UploadStep::Refuse(RuntimeError::bad_request(told.clone())),
            Some(Ok(())) => UploadStep::End,
        }
    }
}

/// What is known so far of a build that was reported as finished.
#[derive(Debug)]
pub struct CompleteProgress {
    /// Why the build failed, as it was reported.
    pub error: Option<String>,
    /// Whether the lease counts.
    pub lease: Outcome<()>,
    pub failure_recorded: Outcome<()>,
    /// The revision of the uploaded package, where there is one.
    pub revision: Outcome<Option<String>>,
    pub documents_saved: Outcome<()>,
    pub restored: Outcome<()>,
    /// The id that the package gives its plugin.
    pub validated: Outcome<String>,
    /// The id under which the plugin is known, where it is.
    pub source: Outcome<Option<String>>,
    pub queued: Outcome<()>,
    pub marked: Outcome<()>,
    pub started: bool,
}

/// What is to be done next with a finished build.
#[derive(Debug)]
pub enum CompleteStep {
    CheckLease,
    /// The build failed; what is told of it is recorded.
    RecordFailure(String),
    ReadRevision,
    SaveDocuments(String),
    Restore(String),
    Validate(String),
    FindSource,
    /// The publication is queued under this id.
    Queue(String),
    Mark,
    Start,
    End,
    Refuse(RuntimeError),
}

impl CompleteProgress {
    pub fn start(error: Option<String>) -> (progress: CompleteProgress)
        ensures
            progress.error == error,
            progress.lease is None,
            progress.failure_recorded is None,
            progress.revision is None,
            progress.documents_saved is None,
            progress.restored is None,
            progress.validated is None,
            progress.source is None,
            progress.queued is None,
            progress.marked is None,
            !progress.started,
    {
        CompleteProgress {
            error,
            lease: None,
            failure_recorded: None,
            revision: None,
            documents_saved: None,
            restored: None,
            validated: None,
            source: None,
            queued: None,
            marked: None,
            started: false,
        }
    }

    /// The lease counts and the build failed.
    pub open spec fn broken(&self) -> bool {
        steps::done(self.lease) && self.error is Some
    }

    /// The lease counts and the build succeeded.
    pub open spec fn built(&self) -> bool {
        steps::done(self.lease) && self.error is None
    }

    /// The revision of the package that was uploaded for a build that succeeded.
    pub open spec fn package(&self) -> Option<Seq<char>> {
        match self.revision {
            Some(Ok(Some(revision))) => if self.built() {
                Some(revision@)
            } else {
                None
            },
            _ => None,
        }
    }

    /// The package is there and its documentation was saved.
    pub open spec fn documented(&self) -> bool {
        self.package() is Some && steps::done(self.documents_saved)
    }

    /// The package is in the cache and was validated.
    pub open spec fn valid(&self) -> bool {
        self.documented() && steps::done(self.restored) && steps::done(self.validated)
    }

    /// The publication was queued.
    pub open spec fn waiting(&self) -> bool {
        self.valid() && steps::done(self.source) && steps::done(self.queued)
    }

    /// What is told where the report is refused.
    pub open spec fn refusal(&self) -> Option<Seq<char>> {
        if !steps::done(self.lease) {
            steps::failure(self.lease)
        } else if self.error is Some {
            steps::failure(self.failure_recorded)
        } else if !steps::done(self.revision) {
            steps::failure(self.revision)
        } else if self.package() is None {
            Some("尚未上传构建包"@)
        } else if !steps::done(self.documents_saved) {
            steps::failure(self.documents_saved)
        } else if !steps::done(self.restored) {
            steps::failure(self.restored)
        } else if !steps::done(self.validated) {
            steps::failure(self.validated)
        } else if !steps::done(self.source) {
            steps::failure(self.source)
        } else if !steps::done(self.queued) {
            steps::failure(self.queued)
        } else {
            steps::failure(self.marked)
        }
    }

    /// The id under which the publication is queued: the known one before the package's own.
    pub open spec fn queued_under(&self) -> Seq<char> {
        match self.source {
            Some(Ok(Some(known))) => known@,
            _ => self.validated->0->Ok_0@,
        }
    }

    /// Whether a step is the one to be taken next.
    pub open spec fn asks(&self, step: CompleteStep) -> bool {
        &&& step is CheckLease <==> self.lease is None
        &&& step is RecordFailure <==> self.broken() && self.failure_recorded is None
        &&& step is ReadRevision <==> self.built() && self.revision is None
        &&& step is SaveDocuments <==> self.package() is Some && self.documents_saved is None
        &&& step is Restore <==> self.documented() && self.restored is None
        &&& step is Validate <==> self.documented() && steps::done(self.restored)
            && self.validated is None
        &&& step is FindSource <==> self.valid() && self.source is None
        &&& step is Queue <==> self.valid() && steps::done(self.source) && self.queued is None
        &&& step is Mark <==> self.waiting() && self.marked is None
        &&& step is Start <==> self.waiting() && steps::done(self.marked) && !self.started
        &&& step is End <==> {
            ||| self.broken() && steps::done(self.failure_recorded)
            ||| self.waiting() && steps::done(self.marked) && self.started
        }
        &&& step is Refuse <==> self.refusal() is Some
        &&& step matches CompleteStep::RecordFailure(told) ==> told@ == process::leading(
            self.error->0@,
            MAX_ERROR_CHARS as int,
        )
        &&& step matches CompleteStep::SaveDocuments(revision) ==> self.package() == Some(revision@)
        &&& step matches CompleteStep::Restore(revision) ==> self.package() == Some(revision@)
        &&& step matches CompleteStep::Validate(revision) ==> self.package() == Some(revision@)
        &&& step matches CompleteStep::Queue(source) ==> source@ == self.queued_under()
        &&& step matches CompleteStep::Refuse(error) ==> error.status == 400 && self.refusal()
            == Some(error.message@)
    }

    /// What is to be done next: a failure is recorded, and a success is published where its
    /// package was uploaded.
    pub fn next(&self) -> (step: CompleteStep)
        ensures
            self.asks(step),
    {
        match &self.lease {
            None => return CompleteStep::CheckLease,
            Some(Err(told)) => return CompleteStep::Refuse(RuntimeError::bad_request(told.clone())),
            Some(Ok(())) => {},
        }
        match &self.error {
            Some(error) => return match &self.failure_recorded {
                None => CompleteStep::RecordFailure(
                    process::take_chars(error.as_str(), MAX_ERROR_CHARS),
                ),
                Some(Err(told)) => CompleteStep::Refuse(RuntimeError::bad_request(told.clone())),
                Some(Ok(())) => CompleteStep::End,
            },
            None => {},
        }
        let revision = match &self.revision {
            None => return CompleteStep::ReadRevision,
            Some(Err(told)) => return CompleteStep::Refuse(RuntimeError::bad_request(told.clone())),
            Some(Ok(None)) => return CompleteStep::Refuse(
                RuntimeError::bad_request("尚未上传构建包".to_owned()),
            ),
            Some(Ok(Some(revision))) => revision,
        };
        match &self.documents_saved {
            None => return CompleteStep::SaveDocuments(revision.clone()),
            Some(Err(told)) => return CompleteStep::Refuse(RuntimeError::bad_request(told.clone())),
            Some(Ok(())) => {},
        }
        match &self.restored {
            None => return CompleteStep::Restore(revision.clone()),
            Some(Err(told)) => return CompleteStep::Refuse(RuntimeError::bad_request(told.clone())),
            Some(Ok(())) => {},
        }
        let own = match &self.validated {
            None => return CompleteStep::Validate(revision.clone()),
            Some(Err(told)) => return CompleteStep::Refuse(RuntimeError::bad_request(told.clone())),
            Some(Ok(own)) => own,
        };
        let source = match &self.source {
            None => return CompleteStep::FindSource,
            Some(Err(told)) => return CompleteStep::Refuse(RuntimeError::bad_request(told.clone())),
            Some(Ok(Some(known))) => known,
            Some(Ok(None)) => own,
        };
        match &self.queued {
            None => return CompleteStep::Queue(source.clone()),
            Some(Err(told)) => return CompleteStep::Refuse(RuntimeError::bad_request(told.clone())),
            Some(Ok(())) => {},
        }
        match &self.marked {
            None => CompleteStep::Mark,
            Some(Err(told)) => CompleteStep::Refuse(RuntimeError::bad_request(told.clone())),
            Some(Ok(())) => if self.started {
                CompleteStep::End
            } else {
                CompleteStep::Start
            },
        }
    }
}

/// A build that was reported as failed is never published, whatever else is known of it.
pub proof fn lemma_failed_build_is_not_published(progress: CompleteProgress)
    requires
        progress.error is Some,
    ensures
        !progress.valid(),
        !progress.waiting(),
{
}

/// Requires that a job could be queued again: only a failed one of the current commit is.
pub fn retry(requeued: bool) -> (outcome: Result<(), RuntimeError>)
    ensures
        http_error::answers(
            outcome,
            if requeued {
                None
            } else {
                Some((400u16, "仅可重试当前目标提交的失败任务"@))
            },
        ),
{
    if requeued {
        Ok(())
    } else {
        Err(RuntimeError::bad_request("仅可重试当前目标提交的失败任务".to_owned()))
    }
}

/// The interface opens to the holder of the configured token alone: the header must be a bearer
/// header whose token has the digest of the configured one, and the configured one must have 32
/// bytes or more.
pub proof fn lemma_interface_opens_to_its_token(configured: Seq<char>, header: Option<Seq<char>>,
    token: Seq<char>)
    ensures
        text::byte_len(configured) >= 32 ==> opens(configured, Some("Bearer "@ + configured)),
        text::byte_len(configured) < 32 ==> !opens(configured, header),
        opens(configured, Some("Bearer "@ + token))
            ==> outside::sha256(vstd::utf8::encode_utf8(token))
            == outside::sha256(vstd::utf8::encode_utf8(configured)),
        opens(configured, header) && (header is None || !"Bearer "@.is_prefix_of(header->0))
            ==> outside::sha256(vstd::utf8::encode_utf8(configured))
            == outside::sha256(vstd::utf8::encode_utf8(""@)),
{
    let whole = "Bearer "@ + configured;
    assert("Bearer "@ =~= whole.subrange(0, "Bearer "@.len() as int));
    assert(whole.skip("Bearer "@.len() as int) =~= configured);
    let other = "Bearer "@ + token;
    assert("Bearer "@ =~= other.subrange(0, "Bearer "@.len() as int));
    assert(other.skip("Bearer "@.len() as int) =~= token);
    if opens(configured, Some(other)) {
        text::lemma_hex_injective(
            outside::sha256(vstd::utf8::encode_utf8(configured)),
            outside::sha256(vstd::utf8::encode_utf8(token)),
        );
    }
    if opens(configured, header) && (header is None || !"Bearer "@.is_prefix_of(header->0)) {
        text::lemma_hex_injective(
            outside::sha256(vstd::utf8::encode_utf8(configured)),
            outside::sha256(vstd::utf8::encode_utf8(""@)),
        );
    }
}

/// An upload is kept in order: the lease must count, the package must be decoded and be of the
/// job's very repository, commit and version; then it is staged, saved, and its own revision is
/// recorded with the job. The first thing that fails is told.
pub proof fn lemma_upload_is_kept_in_order(progress: UploadProgress, step: UploadStep)
    requires
        progress.asks(step),
    ensures
        progress.job is None ==> step is CheckLease,
        (progress.job is Some && progress.job->0 is Err)
            ==> step is Refuse && step->Refuse_0.status == 400
            && step->Refuse_0.message@ == progress.job->0->Err_0@,
        (progress.job is Some && progress.job->0 is Ok) && progress.decoded is None
            ==> step is Decode,
        (progress.job is Some && progress.job->0 is Ok) && (progress.decoded is Some
            && progress.decoded->0 is Err)
            ==> step is Refuse && step->Refuse_0.status == 400
            && step->Refuse_0.message@ == progress.decoded->0->Err_0@,
        (progress.job is Some && progress.job->0 is Ok) && (progress.decoded is Some
            && progress.decoded->0 is Ok) ==> {
            let job = progress.job->0->Ok_0;
            let package = progress.decoded->0->Ok_0;
            let fits = package.git@ == job.git@ && package.source_revision is Some
                && package.source_revision->0@ == job.source_revision@ && package.version@
                == job.version@;
            &&& !fits ==> step is Refuse && step->Refuse_0.status == 400
                && step->Refuse_0.message@ == "构建产物与任务的仓库、源码提交或版本不符"@
            &&& fits && progress.staged is None ==> step is Stage
            &&& fits && (progress.staged is Some && progress.staged->0 is Err)
                ==> step is Refuse && step->Refuse_0.status == 400
                && step->Refuse_0.message@ == progress.staged->0->Err_0@
            &&& fits && (progress.staged is Some && progress.staged->0 is Ok)
                && progress.saved is None ==> step is Save
            &&& fits && (progress.staged is Some && progress.staged->0 is Ok)
                && (progress.saved is Some && progress.saved->0 is Err)
                ==> step is Refuse && step->Refuse_0.status == 400
                && step->Refuse_0.message@ == progress.saved->0->Err_0@
            &&& fits && (progress.staged is Some && progress.staged->0 is Ok)
                && (progress.saved is Some && progress.saved->0 is Ok)
                && progress.recorded is None ==> step is Record
                && step->Record_0@ == package.revision@
            &&& fits && (progress.staged is Some && progress.staged->0 is Ok)
                && (progress.saved is Some && progress.saved->0 is Ok)
                && (progress.recorded is Some && progress.recorded->0 is Err)
                ==> step is Refuse && step->Refuse_0.status == 400
                && step->Refuse_0.message@ == progress.recorded->0->Err_0@
            &&& fits && (progress.staged is Some && progress.staged->0 is Ok)
                && (progress.saved is Some && progress.saved->0 is Ok)
                && (progress.recorded is Some && progress.recorded->0 is Ok) ==> step is End
        },
{
}

/// A finished build goes its way: under a lease that counts, a failure is recorded, cut to 16000
/// characters, and nothing else happens; a success needs its uploaded package, whose documentation
/// is saved, which is brought back, validated and queued for publication under the id by which its
/// plugin is known, or else its own.
pub proof fn lemma_finished_build_goes_its_way(progress: CompleteProgress, step: CompleteStep)
    requires
        progress.asks(step),
    ensures
        progress.lease is None ==> step is CheckLease,
        (progress.lease is Some && progress.lease->0 is Err)
            ==> step is Refuse && step->Refuse_0.status == 400
            && step->Refuse_0.message@ == progress.lease->0->Err_0@,
        (progress.lease is Some && progress.lease->0 is Ok) && progress.error is Some ==> {
            &&& progress.failure_recorded is None
                ==> step is RecordFailure && step->RecordFailure_0@.len()
                <= 16000 && step->RecordFailure_0@.is_prefix_of(progress.error->0@) && (
            progress.error->0@.len() <= 16000 ==> step->RecordFailure_0@ == progress.error->0@) && (
            progress.error->0@.len() > 16000 ==> step->RecordFailure_0@.len() == 16000)
            &&& (progress.failure_recorded is Some && progress.failure_recorded->0 is Err)
                ==> step is Refuse && step->Refuse_0.status == 400
                && step->Refuse_0.message@ == progress.failure_recorded->0->Err_0@
            &&& (progress.failure_recorded is Some && progress.failure_recorded->0 is Ok)
                ==> step is End
        },
        (progress.lease is Some && progress.lease->0 is Ok) && progress.error is None ==> {
            &&& progress.revision is None ==> step is ReadRevision
            &&& (progress.revision is Some && progress.revision->0 is Err)
                ==> step is Refuse && step->Refuse_0.status == 400
                && step->Refuse_0.message@ == progress.revision->0->Err_0@
            &&& (progress.revision is Some && progress.revision->0 is Ok)
                && progress.revision->0->Ok_0 is None ==> step is Refuse
                && step->Refuse_0.status == 400 && step->Refuse_0.message@ == "尚未上传构建包"@
        },
        (progress.lease is Some && progress.lease->0 is Ok) && progress.error is None
            && (progress.revision is Some && progress.revision->0 is Ok)
            && progress.revision->0->Ok_0 is Some ==> {
            let revision = progress.revision->0->Ok_0->0@;
            &&& progress.documents_saved is None ==> step is SaveDocuments && step->SaveDocuments_0@
                == revision
            &&& (progress.documents_saved is Some && progress.documents_saved->0 is Err)
                ==> step is Refuse && step->Refuse_0.status == 400
                && step->Refuse_0.message@ == progress.documents_saved->0->Err_0@
            &&& (progress.documents_saved is Some && progress.documents_saved->0 is Ok)
                && progress.restored is None ==> step is Restore && step->Restore_0@
                == revision
            &&& (progress.documents_saved is Some && progress.documents_saved->0 is Ok)
                && (progress.restored is Some && progress.restored->0 is Err)
                ==> step is Refuse && step->Refuse_0.status == 400
                && step->Refuse_0.message@ == progress.restored->0->Err_0@
            &&& (progress.documents_saved is Some && progress.documents_saved->0 is Ok)
                && (progress.restored is Some && progress.restored->0 is Ok)
                && progress.validated is None ==> step is Validate
                && step->Validate_0@ == revision
            &&& (progress.documents_saved is Some && progress.documents_saved->0 is Ok)
                && (progress.restored is Some && progress.restored->0 is Ok)
                && (progress.validated is Some && progress.validated->0 is Err)
                ==> step is Refuse && step->Refuse_0.status == 400
                && step->Refuse_0.message@ == progress.validated->0->Err_0@
            &&& (progress.documents_saved is Some && progress.documents_saved->0 is Ok)
                && (progress.restored is Some && progress.restored->0 is Ok)
                && (progress.validated is Some && progress.validated->0 is Ok) ==> {
                &&& progress.source is None ==> step is FindSource
                &&& (progress.source is Some && progress.source->0 is Err)
                    ==> step is Refuse && step->Refuse_0.status == 400
                    && step->Refuse_0.message@ == progress.source->0->Err_0@
                &&& (progress.source is Some && progress.source->0 is Ok)
                    && progress.queued is None ==> step is Queue && step->Queue_0@
                    == if progress.source->0->Ok_0 is Some {
                    progress.source->0->Ok_0->0@
                } else {
                    progress.validated->0->Ok_0@
                }
                &&& (progress.source is Some && progress.source->0 is Ok)
                    && (progress.queued is Some && progress.queued->0 is Err)
                    ==> step is Refuse && step->Refuse_0.status == 400
                    && step->Refuse_0.message@ == progress.queued->0->Err_0@
                &&& (progress.source is Some && progress.source->0 is Ok)
                    && (progress.queued is Some && progress.queued->0 is Ok)
                    && progress.marked is None ==> step is Mark
                &&& (progress.source is Some && progress.source->0 is Ok)
                    && (progress.queued is Some && progress.queued->0 is Ok)
                    && (progress.marked is Some && progress.marked->0 is Err)
                    ==> step is Refuse && step->Refuse_0.status == 400
                    && step->Refuse_0.message@ == progress.marked->0->Err_0@
                &&& (progress.source is Some && progress.source->0 is Ok)
                    && (progress.queued is Some && progress.queued->0 is Ok)
                    && (progress.marked is Some && progress.marked->0 is Ok)
                    && !progress.started ==> step is Start
                &&& (progress.source is Some && progress.source->0 is Ok)
                    && (progress.queued is Some && progress.queued->0 is Ok)
                    && (progress.marked is Some && progress.marked->0 is Ok)
                    && progress.started ==> step is End
            }
        },
{
}

/// A sign of life is acknowledged while the lease counts, and is a conflict afterwards.
pub proof fn lemma_signs_of_life(leased: bool, status: u16)
    requires
        answers_heartbeat(leased, status),
    ensures
        leased ==> status == 204,
        !leased ==> status == 409,
{
}

} // verus!
