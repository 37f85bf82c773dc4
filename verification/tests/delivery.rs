use aio_idea::runtime::server::delivery::controller::{
    authorize, heartbeat, retry, upload, CompleteProgress, CompleteStep, UploadProgress,
    UploadStep, UploadedPackage,
};
use aio_idea::runtime::server::delivery::discovery::{
    commits_address, is_owner, manifest_address, page_address, repository_of, repository_step,
    request_marker, InspectProgress, InspectStep, RepositoryStep, ScanCache, ScanNext,
};
use aio_idea::runtime::server::delivery::documents::{
    check, image, save, sees_builds, DocumentFault, DocumentImage, DocumentRow, Documentation,
};
use aio_idea::runtime::server::delivery::rollout::{
    due_rollouts, ensure_current, expired_directories, queue_rollouts, rollout_record, BindingRow,
    RolloutState,
};
use aio_idea::runtime::server::delivery::store::{
    check_lease, claim, claim_under, BuildJob, JobRow, JobState, LeaseFault, LEASE_MICROS,
};

const TOKEN: &str = "0123456789abcdef0123456789abcdef";
const GIT: &str = "https://github.com/example/plugin.git";

fn queued(id: i64, revision: &str) -> JobRow {
    JobRow {
        id,
        git: GIT.to_owned(),
        source_revision: revision.to_owned(),
        state: JobState::Queued,
        packaged: false,
        lease: None,
        lease_until: None,
        next_attempt_at: 0,
        enabled: true,
        desired: revision.to_owned(),
    }
}

fn claimed(id: i64, revision: &str) -> BuildJob {
    claim_under(&mut vec![queued(id, revision)], 0, "lease".to_owned()).expect("a job")
}

fn job() -> BuildJob {
    claimed(7, &"a".repeat(40))
}

#[test]
fn the_build_service_needs_a_long_token() {
    let header = format!("Bearer {TOKEN}");
    assert!(authorize(TOKEN, Some(&header)).is_ok());
    assert_eq!(authorize(TOKEN, Some("Bearer wrong")).unwrap_err().status, 401);
    assert!(authorize(TOKEN, Some(TOKEN)).is_err());
    assert!(authorize(TOKEN, None).is_err());
    assert!(authorize("", None).is_err());
    let short = "x".repeat(31);
    assert!(authorize(&short, Some(&format!("Bearer {short}"))).is_err());
    assert_eq!(authorize("", None).unwrap_err().message, "构建服务凭据无效");
}

#[test]
fn a_resumed_job_keeps_its_version() {
    let mut rows = vec![queued(7, &"a".repeat(40))];
    let first = claim(&mut rows, 10).expect("a job");
    assert!(claim(&mut rows, 10 + LEASE_MICROS - 1).is_none());
    let resumed = claim(&mut rows, 11 + LEASE_MICROS).expect("a job");
    assert_eq!(resumed.lease.len(), 36);
    assert_eq!(first.version, format!("0.0.0-dev.7+{}", "a".repeat(40)));
    assert_eq!(resumed.version, first.version);
    assert_ne!(resumed.lease, first.lease);
    assert_eq!(claimed(-5, "r").version, "0.0.0-dev.-5+r");
    assert_eq!(claimed(i64::MIN, "r").version, "0.0.0-dev.-9223372036854775808+r");
}

#[test]
fn jobs_are_handed_out_in_their_order() {
    let mut late = queued(1, "r");
    late.next_attempt_at = 5;
    let mut disabled = queued(2, "r");
    disabled.enabled = false;
    let mut overtaken = queued(3, "r");
    overtaken.desired = "s".to_owned();
    let mut packaged = queued(4, "r");
    packaged.packaged = true;
    let mut rows = vec![late, disabled, overtaken, packaged, queued(5, "r")];
    assert_eq!(claim(&mut rows, 4).expect("a job").id, 4);
    assert_eq!(rows[3].state, JobState::Uploaded);
    assert_eq!(rows[3].lease_until, Some(4 + LEASE_MICROS));
    assert!(claim(&mut rows, 4).is_none());
    rows[3].state = JobState::Other;
    assert_eq!(claim(&mut rows, 6).expect("a job").id, 5);
    rows[4].state = JobState::Other;
    assert_eq!(claim(&mut rows, 6).expect("a job").id, 1);
    rows[0].state = JobState::Other;
    assert!(claim(&mut rows, 6).is_none());
}

#[test]
fn leases_count_for_current_commits() {
    let mut rows = vec![queued(7, &"a".repeat(40))];
    claim_under(&mut rows, 0, "lease".to_owned()).expect("a job");
    let found = check_lease(&rows, 7, "lease", 1).expect("a job");
    assert_eq!(found.lease, "lease");
    assert_eq!(found.git, GIT);
    let lapsed = LEASE_MICROS + 1;
    for (id, lease, now) in [(7, "wrong", 1), (8, "lease", 1), (7, "lease", lapsed)] {
        assert_eq!(check_lease(&rows, id, lease, now).unwrap_err(), LeaseFault::Expired);
    }
    claim_under(&mut rows, lapsed, "second".to_owned()).expect("a job");
    assert_eq!(check_lease(&rows, 7, "lease", lapsed).unwrap_err(), LeaseFault::Expired);
    let taken = check_lease(&rows, 7, "second", lapsed).expect("a job");
    assert_eq!(taken.version, found.version);
    rows[0].desired = "b".repeat(40);
    assert_eq!(check_lease(&rows, 7, "second", lapsed).unwrap_err(), LeaseFault::Expired);
    let mut rows = vec![queued(7, "short")];
    claim_under(&mut rows, 0, "lease".to_owned()).expect("a job");
    assert_eq!(check_lease(&rows, 7, "lease", 1).unwrap_err(), LeaseFault::CommitInvalid);
    assert_eq!(LeaseFault::Expired.message(), "构建租约已失效或源码版本已被替代");
    assert_eq!(heartbeat(true), 204);
    assert_eq!(heartbeat(false), 409);
}

#[test]
fn packages_are_uploaded_for_their_job() {
    let job = job();
    let commit = "a".repeat(40);
    assert!(upload(&job, GIT, Some(&commit), &job.version).is_ok());
    assert!(upload(&job, GIT, None, &job.version).is_err());
    assert!(upload(&job, "other", Some(&commit), &job.version).is_err());
    let error = upload(&job, GIT, Some(&commit), "1.0.0").unwrap_err();
    assert_eq!(error.status, 400);
    assert_eq!(error.message, "构建产物与任务的仓库、源码提交或版本不符");
}

#[test]
fn an_upload_is_kept_step_by_step() {
    let mut progress = UploadProgress::start();
    assert!(matches!(progress.next(), UploadStep::CheckLease));
    progress.job = Some(Ok(job()));
    assert!(matches!(progress.next(), UploadStep::Decode));
    progress.decoded = Some(Ok(UploadedPackage {
        git: GIT.to_owned(),
        source_revision: Some("a".repeat(40)),
        version: job().version,
        revision: "digest".to_owned(),
    }));
    assert!(matches!(progress.next(), UploadStep::Stage));
    progress.staged = Some(Ok(()));
    assert!(matches!(progress.next(), UploadStep::Save));
    progress.saved = Some(Err("full".to_owned()));
    match progress.next() {
        UploadStep::Refuse(error) => assert_eq!((error.status, error.message.as_str()), (400, "full")),
        other => panic!("{other:?}"),
    }
    progress.saved = Some(Ok(()));
    match progress.next() {
        UploadStep::Record(revision) => assert_eq!(revision, "digest"),
        other => panic!("{other:?}"),
    }
    progress.recorded = Some(Ok(()));
    assert!(matches!(progress.next(), UploadStep::End));
}

#[test]
fn a_finished_build_is_published_under_its_known_id() {
    let mut progress = CompleteProgress::start(None);
    assert!(matches!(progress.next(), CompleteStep::CheckLease));
    progress.lease = Some(Ok(()));
    assert!(matches!(progress.next(), CompleteStep::ReadRevision));
    progress.revision = Some(Ok(None));
    match progress.next() {
        CompleteStep::Refuse(error) => assert_eq!(error.message, "尚未上传构建包"),
        other => panic!("{other:?}"),
    }
    progress.revision = Some(Ok(Some("digest".to_owned())));
    assert!(matches!(progress.next(), CompleteStep::SaveDocuments(_)));
    progress.documents_saved = Some(Ok(()));
    assert!(matches!(progress.next(), CompleteStep::Restore(_)));
    progress.restored = Some(Ok(()));
    assert!(matches!(progress.next(), CompleteStep::Validate(_)));
    progress.validated = Some(Ok("own".to_owned()));
    assert!(matches!(progress.next(), CompleteStep::FindSource));
    progress.source = Some(Ok(None));
    match progress.next() {
        CompleteStep::Queue(source) => assert_eq!(source, "own"),
        other => panic!("{other:?}"),
    }
    progress.source = Some(Ok(Some("known".to_owned())));
    match progress.next() {
        CompleteStep::Queue(source) => assert_eq!(source, "known"),
        other => panic!("{other:?}"),
    }
    progress.queued = Some(Ok(()));
    assert!(matches!(progress.next(), CompleteStep::Mark));
    progress.marked = Some(Ok(()));
    assert!(matches!(progress.next(), CompleteStep::Start));
    progress.started = true;
    assert!(matches!(progress.next(), CompleteStep::End));
}

#[test]
fn a_failed_build_is_recorded_briefly_and_not_published() {
    let mut progress = CompleteProgress::start(Some("错".repeat(16001)));
    progress.lease = Some(Ok(()));
    progress.revision = Some(Ok(Some("digest".to_owned())));
    match progress.next() {
        CompleteStep::RecordFailure(told) => assert_eq!(told, "错".repeat(16000)),
        other => panic!("{other:?}"),
    }
    progress.failure_recorded = Some(Ok(()));
    assert!(matches!(progress.next(), CompleteStep::End));
    assert!(retry(true).is_ok());
    assert_eq!(retry(false).unwrap_err().message, "仅可重试当前目标提交的失败任务");
}

#[test]
fn names_of_owners_and_repositories() {
    assert!(is_owner("zjarlin-2"));
    assert!(!is_owner("a/b"));
    assert!(!is_owner("é"));
    assert_eq!(repository_of(GIT).as_deref(), Some("example/plugin"));
    assert_eq!(repository_of("https://gitlab.com/example/plugin.git"), None);
    assert_eq!(repository_of("https://github.com/example/plugin"), None);
    assert_eq!(
        page_address("owner", 3),
        "https://api.github.com/users/owner/repos?per_page=100&page=3&sort=updated"
    );
    assert_eq!(commits_address("a/b"), "https://api.github.com/repos/a/b/commits");
    assert_eq!(
        manifest_address("a/b"),
        "https://api.github.com/repos/a/b/contents/aio-delivery.toml"
    );
    assert_eq!(request_marker(404, Err("x".to_owned())), Ok(false));
    assert_eq!(request_marker(200, Ok(())), Ok(true));
    assert_eq!(request_marker(500, Err("x".to_owned())), Err("x".to_owned()));
    assert_eq!(repository_step(true, false), RepositoryStep::Disable);
    assert_eq!(repository_step(false, true), RepositoryStep::Disable);
    assert_eq!(repository_step(false, false), RepositoryStep::Inspect);
}

#[test]
fn scans_remember_pages_without_failures() {
    let mut cache = ScanCache::new();
    assert!(cache.condition(1).is_none());
    assert_eq!(cache.scanned(1, Some("e1".to_owned()), 100, false), ScanNext::Page(2));
    assert_eq!(cache.scanned(2, Some("e2".to_owned()), 100, false), ScanNext::Page(3));
    assert_eq!(cache.scanned(3, Some("e3".to_owned()), 7, false), ScanNext::End);
    assert_eq!(cache.condition(1).map(String::as_str), Some("e1"));
    assert_eq!(cache.unchanged(1), ScanNext::Page(2));
    assert_eq!(cache.unchanged(3), ScanNext::End);
    assert_eq!(cache.scanned(2, Some("new".to_owned()), 100, true), ScanNext::Page(3));
    assert!(cache.condition(2).is_none());
    assert_eq!(cache.scanned(1, None, 99, false), ScanNext::End);
    assert_eq!(cache.condition(1).map(String::as_str), Some("e1"));
    assert!(cache.condition(3).is_none());
    assert_eq!(cache.scanned(100, None, 100, false), ScanNext::End);
    assert_eq!(cache.unchanged(99), ScanNext::Page(100));
    assert_eq!(cache.unchanged(100), ScanNext::End);
}

#[test]
fn new_commits_are_built_where_they_say_so() {
    let mut progress = InspectProgress::start();
    assert!(matches!(progress.next(), InspectStep::ReadCommit));
    progress.commit = Some(Ok(None));
    match progress.next() {
        InspectStep::Fail(told) => assert_eq!(told, "默认分支为空"),
        other => panic!("{other:?}"),
    }
    progress.commit = Some(Ok(Some("main".to_owned())));
    match progress.next() {
        InspectStep::Fail(told) => assert_eq!(told, "无效提交 SHA"),
        other => panic!("{other:?}"),
    }
    progress.commit = Some(Ok(Some("a".repeat(40))));
    assert!(matches!(progress.next(), InspectStep::CheckKnown));
    progress.known = Some(Ok(true));
    assert!(matches!(progress.next(), InspectStep::End));
    progress.known = Some(Ok(false));
    assert!(matches!(progress.next(), InspectStep::ReadManifest));
    progress.marked = Some(Ok(false));
    assert!(matches!(progress.next(), InspectStep::Disable));
    progress.marked = Some(Ok(true));
    assert!(matches!(progress.next(), InspectStep::Queue));
    progress.queued = Some(Ok(()));
    assert!(matches!(progress.next(), InspectStep::End));
}

fn picture(path: &str, content_type: &str, content_base64: &str) -> DocumentImage {
    DocumentImage {
        path: path.to_owned(),
        content_type: content_type.to_owned(),
        content_base64: content_base64.to_owned(),
    }
}

#[test]
fn documentations_keep_to_their_limits() {
    let check = |readme: String, images: Vec<DocumentImage>| check(&Documentation { readme, images });
    assert_eq!(check("# First".to_owned(), vec![picture("a/b.png", "image/png", "aGk=")]), Ok(()));
    assert_eq!(check("x".repeat(524289), Vec::new()), Err(DocumentFault::TooLarge));
    let many = (0..65).map(|i| picture(&format!("{i}.png"), "image/png", "")).collect();
    assert_eq!(check(String::new(), many), Err(DocumentFault::TooLarge));
    for path in ["/a.png", "a\\b.png", "c:a.png", "a/../b.png", ".."] {
        assert_eq!(
            check(String::new(), vec![picture(path, "image/png", "")]),
            Err(DocumentFault::ImagePath),
            "{path}"
        );
    }
    assert_eq!(
        check(String::new(), vec![picture("a.svg", "image/svg+xml", "")]),
        Err(DocumentFault::ImageType)
    );
    assert_eq!(
        check(String::new(), vec![picture("a.png", "image/png", "?")]),
        Err(DocumentFault::ImageEncoding("Invalid symbol 63, offset 0.".to_owned()))
    );
    let half = "A".repeat(5 * 1024 * 1024 / 3 * 4);
    let large = |name: &str| picture(name, "image/gif", &half);
    assert_eq!(check(String::new(), vec![large("a"), large("b")]), Ok(()));
    assert_eq!(
        check(String::new(), vec![large("a"), large("b"), large("c")]),
        Err(DocumentFault::ImagesTooLarge)
    );
    assert_eq!(DocumentFault::ImagesTooLarge.message(), "文档图片超过限额");
}

#[test]
fn the_first_documentation_of_a_revision_is_kept() {
    let document = |readme: &str| DocumentRow {
        revision: "r".to_owned(),
        documentation: Documentation { readme: readme.to_owned(), images: Vec::new() },
    };
    let mut rows = Vec::new();
    assert_eq!(save(&mut rows, document(&"x".repeat(524289))), Err(DocumentFault::TooLarge));
    assert!(rows.is_empty());
    assert_eq!(save(&mut rows, document("# First")), Ok(()));
    assert_eq!(save(&mut rows, document("# Changed")), Ok(()));
    assert_eq!(rows.len(), 1);
    assert_eq!(rows[0].documentation.readme, "# First");
}

fn bound(tenant: &str, revision: &str) -> BindingRow {
    BindingRow {
        tenant_id: tenant.to_owned(),
        source_id: "s".to_owned(),
        git: GIT.to_owned(),
        revision: revision.to_owned(),
        enabled: true,
        published: Some("m".to_owned()),
        excluded: None,
    }
}

#[test]
fn a_round_moves_bindings_to_the_published_revision() {
    let mut disabled = bound("disabled", "old");
    disabled.enabled = false;
    let mut back = bound("back", "old");
    back.excluded = Some("m".to_owned());
    let bindings = vec![bound("behind", "old"), disabled, back, bound("there", "m")];
    let mut rollouts = Vec::new();
    queue_rollouts(&bindings, &mut rollouts, 3);
    queue_rollouts(&bindings, &mut rollouts, 4);
    assert_eq!(rollouts.len(), 1);
    assert_eq!((rollouts[0].tenant_id.as_str(), rollouts[0].updated_at), ("behind", 3));
    let chosen = due_rollouts(&bindings, &rollouts, 4);
    assert_eq!(chosen.len(), 1);
    assert_eq!((chosen[0].revision.as_str(), chosen[0].git.as_str()), ("m", GIT));
    rollouts[0].state = RolloutState::Failed;
    assert!(due_rollouts(&bindings, &rollouts, 60_000_003).is_empty());
    assert_eq!(due_rollouts(&bindings, &rollouts, 60_000_004).len(), 1);
    rollouts[0].state = RolloutState::Active;
    assert!(due_rollouts(&bindings, &rollouts, i64::MAX).is_empty());
    let many: Vec<BindingRow> = (0..9).map(|i| bound(&i.to_string(), "old")).collect();
    let mut rollouts = Vec::new();
    queue_rollouts(&many, &mut rollouts, 0);
    assert_eq!((rollouts.len(), due_rollouts(&many, &rollouts, 0).len()), (9, 8));
}

#[test]
fn images_of_a_documentation_are_answered() {
    let reply = image(Some(&picture("a.png", "image/png", "aGk="))).expect("a reply");
    assert_eq!(reply.status, 200);
    assert_eq!(reply.body, b"hi");
    assert_eq!(reply.headers[0].value, "image/png");
    assert_eq!(reply.headers[1].value, "private, max-age=31536000, immutable");
    assert_eq!(reply.headers[2].value, "nosniff");
    assert_eq!(image(None).unwrap_err().status, 404);
    assert_eq!(image(Some(&picture("a", "image/png", "?"))).unwrap_err().status, 400);
    let error = image(Some(&picture("a", "image/png\n", "aGk="))).unwrap_err();
    assert_eq!(error.message, "图片类型无效");
}

#[test]
fn builds_are_shown_to_managers() {
    assert!(sees_builds(&vec!["plugin:manage".to_owned()]));
    assert!(sees_builds(&vec!["*".to_owned()]));
    assert!(!sees_builds(&vec!["plugin:read".to_owned()]));
}

#[test]
fn overtaken_builds_are_not_rolled_out() {
    assert!(ensure_current(None).is_ok());
    assert!(ensure_current(Some(true)).is_ok());
    assert_eq!(ensure_current(Some(false)).unwrap_err(), "构建已被后续源码提交替代");
    let active = rollout_record(Ok(()));
    assert_eq!((active.state.as_str(), active.error), ("active", None));
    let failed = rollout_record(Err("down".to_owned()));
    assert_eq!((failed.state.as_str(), failed.error.as_deref()), ("failed", Some("down")));
    let kept = "A".repeat(64);
    let revisions = vec!["../x".to_owned(), kept.clone(), "a".repeat(40)];
    assert_eq!(expired_directories(&revisions), [kept]);
}
