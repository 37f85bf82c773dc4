use aio_idea::runtime::model::PluginRuntime;
use aio_idea::runtime::server::http_error::RuntimeError;
use aio_idea::runtime::server::installation::ActivatedPlugin;
use aio_idea::runtime::server::manifest::CapabilityManifest;
use aio_idea::runtime::server::package_repository::{
    fresh_staging_name, reads_pages, stage_publish, staging_name, CacheFault, CachedCopy,
    StageAction, StageProgress, StageStep,
};
use aio_idea::runtime::server::package_store::{
    is_package_revision, package_archive, parse_positive, published_package_entry, quota,
    restore_package_cache, save_package, PackageRow, RestoreStep, SaveFault, SaveStep,
};
use aio_idea::runtime::server::publication::{
    authorize_upload, download_package, ensure_package_content_type, publish, PublishProgress,
    PublishStep, UploadStep, BUNDLE_CONTENT_TYPE, PACKAGE_CONTENT_TYPE,
};
use aio_idea::runtime::server::publication_validation::{
    ensure_publish_capabilities, ensure_publish_runtime, published_marketplace_entry,
    validate_publish_payload, MarketplaceMetadata, PublicationFault,
};
use aio_idea::runtime::server::publish_job::{
    publish_report, PublishJobProgress, PublishJobStep, PublishState,
};

fn nothing() -> CapabilityManifest {
    CapabilityManifest { network: vec![], filesystem: vec![], database: false }
}

#[test]
fn accepts_only_raw_binary_package_without_transport_encoding() {
    assert!(ensure_package_content_type(None, false).is_err());
    assert!(ensure_package_content_type(Some("application/json"), false).is_err());
    assert!(ensure_package_content_type(Some(PACKAGE_CONTENT_TYPE), false).is_ok());
    assert!(ensure_package_content_type(Some(PACKAGE_CONTENT_TYPE), true).is_err());
}

#[test]
fn media_types_ignore_case_and_parameters() {
    let shouted = format!(" {} ; v=1", PACKAGE_CONTENT_TYPE.to_uppercase());
    assert!(ensure_package_content_type(Some(&shouted), false).is_ok());
    let error = ensure_package_content_type(Some("text/plain"), true).unwrap_err();
    assert_eq!(error.status, 415);
    assert_eq!(error.message, "发布接口必须接收 application/vnd.aio.plugin+gzip 二进制包");
}

#[test]
fn uploads_are_admitted_in_order() {
    let kind = Some(PACKAGE_CONTENT_TYPE);
    assert!(matches!(authorize_upload(kind, false, None, None), UploadStep::AcquireSlot));
    assert!(matches!(
        authorize_upload(kind, false, Some(true), None),
        UploadStep::AuthenticatePublisher
    ));
    assert!(matches!(authorize_upload(kind, false, Some(true), Some(Ok(()))), UploadStep::Read));
    match authorize_upload(kind, false, Some(false), None) {
        UploadStep::Refuse(error) => assert_eq!(error.status, 503),
        other => panic!("{other:?}"),
    }
    let refusal = RuntimeError::unauthorized("who".to_owned());
    match authorize_upload(kind, false, Some(true), Some(Err(refusal))) {
        UploadStep::Refuse(error) => assert_eq!((error.status, error.message.as_str()), (401, "who")),
        other => panic!("{other:?}"),
    }
    match authorize_upload(None, false, Some(false), None) {
        UploadStep::Refuse(error) => assert_eq!(error.status, 415),
        other => panic!("{other:?}"),
    }
}

#[test]
fn downloads_prefer_bundles() {
    let bundle = download_package(Some(vec![1]), Some(vec![2]), "rev").expect("a reply");
    assert_eq!(bundle.body, [1]);
    assert_eq!(bundle.headers[0].value, BUNDLE_CONTENT_TYPE);
    assert_eq!(bundle.headers[1].value, "attachment; filename=\"rev.aio-plugin\"");
    let revision = "a".repeat(64);
    let package = download_package(None, Some(vec![2]), &revision).expect("a reply");
    assert_eq!(package.body, [2]);
    assert_eq!(package.headers[0].value, PACKAGE_CONTENT_TYPE);
    assert_eq!(download_package(None, None, &revision).unwrap_err().status, 404);
    let error = download_package(None, Some(vec![2]), "rev").unwrap_err();
    assert_eq!((error.status, error.message.as_str()), (400, "插件包版本必须是完整 SHA-256"));
    let error = download_package(Some(vec![1]), None, "a\nb").unwrap_err();
    assert_eq!(error.message, "插件包下载文件名无效");
}

#[test]
fn packages_are_published_step_by_step() {
    let mut progress = PublishProgress::start();
    assert!(matches!(progress.next(), PublishStep::Decode));
    progress.decoded = Some(Ok(()));
    assert!(matches!(progress.next(), PublishStep::Authorize));
    progress.authorized = Some(Err(RuntimeError::forbidden("not yours".to_owned())));
    match progress.next() {
        PublishStep::Refuse(error) => {
            assert_eq!((error.status, error.message.as_str()), (403, "not yours"))
        }
        other => panic!("{other:?}"),
    }
    progress.authorized = Some(Ok(()));
    assert!(matches!(progress.next(), PublishStep::Stage));
    progress.staged = Some(Ok("own".to_owned()));
    assert!(matches!(progress.next(), PublishStep::Save));
    progress.saved = Some(Ok(()));
    assert!(matches!(progress.next(), PublishStep::FindSource));
    progress.source = Some(Ok(None));
    match progress.next() {
        PublishStep::Queue(source) => assert_eq!(source, "own"),
        other => panic!("{other:?}"),
    }
    progress.queued = Some(Ok(PublishState::Queued));
    assert!(matches!(progress.next(), PublishStep::Note(_)));
    progress.noted = true;
    assert!(matches!(progress.next(), PublishStep::Start));
    progress.started = true;
    assert!(matches!(progress.next(), PublishStep::Answer(_)));
    progress.started = false;
    progress.queued = Some(Ok(PublishState::Active));
    assert!(matches!(progress.next(), PublishStep::Answer(_)));
}

#[test]
fn staging_leaves_nothing_beside_the_cache() {
    let mut progress = StageProgress::start(PluginRuntime::PageDefinition);
    assert!(matches!(progress.next(), StageAction::Validate));
    progress.validated = Some(Ok(()));
    assert!(matches!(progress.next(), StageAction::ReadPages));
    progress.pages = Some(Ok(()));
    assert!(matches!(progress.next(), StageAction::PrepareCache));
    progress.prepared = Some(Ok(()));
    assert!(matches!(progress.next(), StageAction::Decide));
    progress.decided = Some(Ok(StageStep::Unpack));
    assert!(matches!(progress.next(), StageAction::Unpack));
    progress.unpacked = Some(Ok(()));
    assert!(matches!(progress.next(), StageAction::CheckRoom));
    progress.room = Some(Err("full".to_owned()));
    assert!(matches!(progress.next(), StageAction::Clean));
    progress.cleaned = true;
    match progress.next() {
        StageAction::Fail(told) => assert_eq!(told, "full"),
        other => panic!("{other:?}"),
    }
    progress.cleaned = false;
    progress.decided = Some(Ok(StageStep::Keep));
    assert!(matches!(progress.next(), StageAction::Clean));
    progress.cleaned = true;
    assert!(matches!(progress.next(), StageAction::Done));
    let runtime = StageProgress::start(PluginRuntime::Process);
    assert!(!runtime.reads_pages);
    assert_ne!(fresh_staging_name(), fresh_staging_name());
}

#[test]
fn stored_packages_are_on_offer() {
    let metadata = Some(MarketplaceMetadata {
        title: "t".to_owned(),
        summary: "s".to_owned(),
        license: "MIT".to_owned(),
        tags: Vec::new(),
    });
    let entry = published_package_entry("g", "r", metadata, None, nothing()).expect("an entry");
    assert_eq!((entry.git.as_str(), entry.rev.as_str(), entry.title.as_str()), ("g", "r", "t"));
    assert_eq!(
        published_package_entry("g", "r", None, None, nothing()).unwrap_err(),
        "已发布插件包缺少市场元数据"
    );
    assert_eq!(
        RestoreStep::ArchiveMissing.refusal_text().as_deref(),
        Some("插件中心没有保存该内容版本的二进制包")
    );
    assert_eq!(RestoreStep::Stage.refusal_text(), None);
}

#[test]
fn only_waiting_publications_are_started() {
    for (state, started) in [
        (PublishState::Queued, true),
        (PublishState::Running, false),
        (PublishState::Active, false),
        (PublishState::Failed, false),
    ] {
        let (view, start) = publish(
            "job".to_owned(),
            "tenant".to_owned(),
            "source".to_owned(),
            "revision".to_owned(),
            PluginRuntime::Process,
            3,
            state,
            "detail".to_owned(),
        );
        assert_eq!(start, started);
        assert_eq!(view.job_id, "job");
        assert_eq!(view.page_count, 3);
        assert_eq!(view.state, state);
    }
}

#[test]
fn only_independent_runtimes_are_published() {
    for runtime in
        [PluginRuntime::PageDefinition, PluginRuntime::WasmComponent, PluginRuntime::Process]
    {
        assert!(ensure_publish_runtime(runtime).is_ok());
    }
    assert_eq!(
        ensure_publish_runtime(PluginRuntime::Other).unwrap_err(),
        PublicationFault::RuntimeNotIndependent
    );
    assert!(ensure_publish_capabilities(&nothing()).is_ok());
    let mut asking = nothing();
    asking.network.push("api.example.com".to_owned());
    assert_eq!(
        ensure_publish_capabilities(&asking).unwrap_err(),
        PublicationFault::CapabilityNotGranted
    );
    assert_eq!(
        validate_publish_payload(None, &asking).unwrap_err(),
        PublicationFault::RuntimeMissing
    );
    assert_eq!(
        validate_publish_payload(Some(PluginRuntime::Process), &nothing()).expect("a runtime"),
        PluginRuntime::Process
    );
}

#[test]
fn published_entries_name_their_revision() {
    let metadata = || {
        Some(MarketplaceMetadata {
            title: "t".to_owned(),
            summary: "s".to_owned(),
            license: "MIT".to_owned(),
            tags: vec!["x".to_owned()],
        })
    };
    let entry = |revision: &str, metadata| {
        published_marketplace_entry("g", revision, metadata, Some(PluginRuntime::Process), nothing())
    };
    for revision in ["A".repeat(40), "a".repeat(64)] {
        let shown = entry(&revision, metadata()).expect("an entry");
        assert_eq!(shown.rev, revision);
        assert_eq!(shown.title, "t");
        assert!(!shown.installed);
    }
    assert_eq!(entry(&"A".repeat(64), metadata()).unwrap_err(), PublicationFault::RevisionInvalid);
    assert_eq!(entry("main", None).unwrap_err(), PublicationFault::RevisionInvalid);
    assert_eq!(entry(&"a".repeat(40), None).unwrap_err(), PublicationFault::MarketplaceMissing);
    assert_eq!(
        PublicationFault::MarketplaceMissing.message(),
        "在线发布插件必须声明 [plugin.marketplace]"
    );
}

#[test]
fn revisions_of_packages_are_digests() {
    assert!(is_package_revision(&"0123456789abcdef".repeat(4)));
    assert!(!is_package_revision(&"A".repeat(64)));
    assert!(!is_package_revision(&"a".repeat(63)));
}

#[test]
fn limits_are_positive_numbers() {
    assert_eq!(parse_positive("17"), Some(17));
    assert_eq!(parse_positive("+017"), Some(17));
    assert_eq!(parse_positive("9223372036854775807"), Some(i64::MAX));
    for value in ["0", "-1", "", "+", "1.5", " 1", "9223372036854775808"] {
        assert_eq!(parse_positive(value), None, "{value}");
        assert_eq!(value.parse::<i64>().ok().filter(|number| *number > 0), None);
    }
    assert_eq!(quota(Some("5"), 9), 5);
    assert_eq!(quota(Some("x"), 9), 9);
    assert_eq!(quota(None, 9), 9);
}

fn package(revision: &str, bytes: usize) -> PackageRow {
    PackageRow {
        git: "g".to_owned(),
        version: "1".to_owned(),
        revision: revision.to_owned(),
        archive: vec![7; bytes],
    }
}

#[test]
fn a_version_keeps_its_content_and_the_store_its_limits() {
    let empty = Vec::new;
    let kept = || vec![package("a", 1)];
    assert_eq!(save_package(&mut kept(), package("a", 9), 1, 1, 1, 1), Ok(SaveStep::AlreadySaved));
    assert_eq!(save_package(&mut kept(), package("b", 0), 1, 1, 9, 9), Err(SaveFault::VersionTaken));
    assert_eq!(save_package(&mut empty(), package("a", 1), 2, 0, 2, 9), Err(SaveFault::TooManyPackages));
    assert_eq!(save_package(&mut empty(), package("a", 5), 1, 5, 2, 9), Err(SaveFault::TooManyBytes));
    assert_eq!(save_package(&mut empty(), package("a", 4), 1, 5, 2, 9), Ok(SaveStep::Insert));
    assert_eq!(
        save_package(&mut empty(), package("a", 4), 1, i64::MAX, 2, 9),
        Err(SaveFault::TooManyBytes)
    );
    assert_eq!(
        SaveFault::ArchiveTooLong.message(),
        "out of range integral type conversion attempted"
    );
}

#[test]
fn a_saved_package_stays_what_it_was() {
    let (first, other) = ("a".repeat(64), "b".repeat(64));
    let mut rows = Vec::new();
    assert_eq!(save_package(&mut rows, package(&first, 3), 0, 0, 9, 9), Ok(SaveStep::Insert));
    assert_eq!(save_package(&mut rows, package(&first, 3), 1, 3, 9, 9), Ok(SaveStep::AlreadySaved));
    assert_eq!(
        save_package(&mut rows, package(&other, 2), 1, 3, 9, 9),
        Err(SaveFault::VersionTaken)
    );
    assert_eq!(rows.len(), 1);
    assert_eq!(package_archive(&rows, &first), Ok(Some(&vec![7; 3])));
    assert_eq!(package_archive(&rows, &other), Ok(None));
    assert_eq!(package_archive(&rows, "main").unwrap_err(), "插件包版本必须是完整 SHA-256");
}

#[test]
fn only_packages_are_brought_back() {
    let revision = "a".repeat(64);
    assert!(matches!(restore_package_cache("main", None, None), RestoreStep::Skip));
    assert!(matches!(restore_package_cache(&revision, None, None), RestoreStep::FetchArchive));
    assert!(matches!(
        restore_package_cache(&revision, Some(false), None),
        RestoreStep::ArchiveMissing
    ));
    assert!(matches!(
        restore_package_cache(&revision, Some(true), Some("other")),
        RestoreStep::RevisionMismatch
    ));
    assert!(matches!(
        restore_package_cache(&revision, Some(true), Some(&revision)),
        RestoreStep::Stage
    ));
}

#[test]
fn cached_copies_must_be_the_package() {
    let digest = "2cf24dba5fb0a30e26e83b2ac5b9e29e1b161e5c1fa7425e73043362938b9824";
    let copy = |same_manifest: bool, artifact: &[u8]| {
        Some(CachedCopy { same_manifest, artifact: artifact.to_vec() })
    };
    assert_eq!(stage_publish(&None, digest), Ok(StageStep::Unpack));
    assert_eq!(stage_publish(&copy(true, b"hello"), digest), Ok(StageStep::Keep));
    assert_eq!(stage_publish(&copy(false, b"hello"), digest), Err(CacheFault::ManifestMismatch));
    assert_eq!(stage_publish(&copy(true, b"other"), digest), Err(CacheFault::ArtifactMismatch));
    assert!(reads_pages(PluginRuntime::PageDefinition));
    assert!(!reads_pages(PluginRuntime::Process));
    assert_eq!(
        staging_name(0x00112233445566778899aabbccddeeff),
        "staging-package-00112233-4455-6677-8899-aabbccddeeff"
    );
}

#[test]
fn reports_tell_how_a_publication_ended() {
    let active = publish_report(&Ok(ActivatedPlugin {
        source_id: "s".to_owned(),
        revision: "r1".to_owned(),
        page_count: 12,
    }));
    assert_eq!(active.state, PublishState::Active);
    assert_eq!(active.detail, "版本 r1 已在线激活，共 12 个页面");
    assert_eq!(active.page_count, Some(12));
    let failed = publish_report(&Err("boom".to_owned()));
    assert_eq!(failed.state, PublishState::Failed);
    assert_eq!(failed.lifecycle, "publish-failed");
    assert_eq!(failed.detail, "后台验证或激活失败，已保留上一活动版本: boom");
    assert_eq!(failed.page_count, None);
}

#[test]
fn a_job_is_run_by_the_host_that_took_it() {
    let mut job = PublishJobProgress::start(PublishState::Queued);
    assert!(matches!(job.next(), PublishJobStep::AcquireSlot));
    job.slot = Some(true);
    assert!(matches!(job.next(), PublishJobStep::Claim));
    job.claimed = Some(Ok(false));
    assert!(matches!(job.next(), PublishJobStep::End));
    job.claimed = Some(Ok(true));
    assert!(matches!(job.next(), PublishJobStep::Note));
    job.noted = true;
    assert!(matches!(job.next(), PublishJobStep::Run));
    job.result = Some(Err("e".to_owned()));
    assert!(matches!(job.next(), PublishJobStep::Finish(_)));
    job.finished = true;
    assert!(matches!(job.next(), PublishJobStep::Record(_)));
    job.recorded = true;
    assert!(matches!(job.next(), PublishJobStep::End));
    assert!(matches!(
        PublishJobProgress::start(PublishState::Running).next(),
        PublishJobStep::End
    ));
}
