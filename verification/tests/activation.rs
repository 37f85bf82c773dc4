use aio_idea::runtime::model::{PageBody, PageDefinition, PluginRuntime, SceneDefinition};
use aio_idea::runtime::server::activation_lock::{activation_key, activation_lock, LockEntry};
use aio_idea::runtime::server::activation_store::{
    activate, ensure_current_publication, next_record, revision_id, transact, PluginRecords,
    PublishRow, RecordStep,
};
use aio_idea::runtime::server::installation::{
    resolve_install_candidate, ActivationProgress, ActivationStep, CandidateSource,
    InstallProgress, InstallStep, StartedProcess,
};
use aio_idea::runtime::server::lifecycle::{
    cleanup_new, deactivate_bound_wasm, deactivate_previous_wasm, restore_process_binding,
    stop_previous_process, ProcessPreparation, ProcessStep, WasmPreparation, WasmStep,
};
use aio_idea::runtime::server::page_state::{
    overlay_page_states, save_page_state, save_statement, SaveStatement, StoredState,
};
use aio_idea::runtime::server::reconciliation::{
    DefaultActivation, DefaultStep, ProcessRecovery, RecoveryStep, RuntimeTarget, WasmRecovery,
    WasmRecoveryStep,
};

fn failure<T>(told: &str) -> Option<Result<T, String>> {
    Some(Err(told.to_owned()))
}

#[test]
fn locks_are_named_by_tenant_and_plugin() {
    assert_eq!(activation_key("t", "s"), "t\0s");
    assert_ne!(activation_key("ab", "c"), activation_key("a", "bc"));
    let entries = vec![
        LockEntry { key: "a".to_owned(), held: false },
        LockEntry { key: "b".to_owned(), held: true },
        LockEntry { key: "c".to_owned(), held: true },
    ];
    let plan = activation_lock(&entries, "c");
    assert_eq!(plan.keep, [1, 2]);
    assert_eq!(plan.reuse, Some(2));
    assert_eq!(activation_lock(&entries, "a").reuse, None);
}

#[test]
fn activations_are_recorded_in_order() {
    assert_eq!(revision_id("s", "r"), "s:r");
    assert_ne!(revision_id("s", "r"), revision_id("sr", ""));
    let plain = activate(false);
    assert_eq!(plain.first(), Some(&RecordStep::SaveSource));
    assert_eq!(plain.last(), Some(&RecordStep::Commit));
    let publishing = activate(true);
    assert_eq!(publishing.first(), Some(&RecordStep::RequireCurrentPublication));
    assert_eq!(publishing.len(), plain.len() + 2);
    assert_eq!(next_record(false, 0, false), Some(RecordStep::SaveSource));
    assert_eq!(next_record(false, 3, true), None);
    assert_eq!(next_record(false, plain.len(), false), None);
}

#[test]
fn published_versions_are_installed_from_the_store() {
    assert_eq!(resolve_install_candidate(true), CandidateSource::Published);
    assert!(CandidateSource::Published.detail().contains("数据库已发布 artifact"));
    assert_eq!(resolve_install_candidate(false), CandidateSource::Repository);
    assert_eq!(
        CandidateSource::Repository.detail(),
        "已校验 Git 完整提交、清单和预构建 artifact"
    );
}

fn surveyed(runtime: PluginRuntime) -> ActivationProgress {
    let mut progress = ActivationProgress::start(false, false, runtime, "new".to_owned());
    assert!(matches!(progress.next(), ActivationStep::FindSource));
    progress.source = Some(Ok(()));
    assert!(matches!(progress.next(), ActivationStep::Lock));
    progress.lock = Some(Ok(()));
    assert!(matches!(progress.next(), ActivationStep::NoteValidation));
    progress.validated = Some(Ok(()));
    assert!(matches!(progress.next(), ActivationStep::ReadPreviousProcess));
    progress.previous_process = Some(Ok(Some("old".to_owned())));
    assert!(matches!(progress.next(), ActivationStep::ReadPreviousRuntime));
    progress.previous_runtime = Some(Ok(PluginRuntime::Process));
    assert!(matches!(progress.next(), ActivationStep::ReadPreviousWasm));
    progress.previous_wasm = Some(Ok(None));
    progress
}

#[test]
fn a_new_process_takes_the_place_of_the_old_one() {
    let mut progress = surveyed(PluginRuntime::Process);
    assert!(matches!(progress.next(), ActivationStep::PrepareProcess));
    progress.process =
        Some(Ok(StartedProcess { instance_id: "new".to_owned(), created: true }));
    assert!(matches!(progress.next(), ActivationStep::NoteHealth));
    progress.health = Some(Ok(()));
    assert!(matches!(progress.next(), ActivationStep::Activate));
    progress.activated = Some(Ok(()));
    assert!(matches!(progress.next(), ActivationStep::StopPrevious));
    progress.previous_stopped = true;
    assert!(matches!(progress.next(), ActivationStep::Succeed));
}

#[test]
fn a_failed_activation_cleans_up_and_restores() {
    let mut progress = surveyed(PluginRuntime::Process);
    progress.process =
        Some(Ok(StartedProcess { instance_id: "new".to_owned(), created: true }));
    progress.health = Some(Ok(()));
    progress.activated = failure("full");
    assert!(matches!(progress.next(), ActivationStep::CleanProcess));
    progress.process_cleaned = true;
    assert!(matches!(progress.next(), ActivationStep::RestorePrevious));
    progress.restored = failure("gone");
    match progress.next() {
        ActivationStep::Fail(told) => {
            assert_eq!(told, "激活插件失败: full; 恢复旧 process 插件失败: gone")
        }
        other => panic!("{other:?}"),
    }
    progress.restored = Some(Ok(()));
    assert!(matches!(progress.next(), ActivationStep::Fail(_)));
}

#[test]
fn an_unwanted_update_changes_nothing() {
    let mut progress = ActivationProgress::start(
        true,
        false,
        PluginRuntime::PageDefinition,
        "new".to_owned(),
    );
    progress.source = Some(Ok(()));
    progress.lock = Some(Ok(()));
    assert!(matches!(progress.next(), ActivationStep::CheckEligible));
    progress.eligible = Some(Ok(false));
    match progress.next() {
        ActivationStep::Fail(told) => assert_eq!(told, "安装状态或目标版本已改变，取消自动升级"),
        other => panic!("{other:?}"),
    }
}

#[test]
fn a_process_created_in_vain_is_stopped() {
    let mut preparation = ProcessPreparation::start();
    assert!(matches!(preparation.next(), ProcessStep::CheckHealth));
    preparation.health = Some(Ok(()));
    assert!(matches!(preparation.next(), ProcessStep::Start));
    preparation.started = Some(Ok(true));
    assert!(matches!(preparation.next(), ProcessStep::LoadPages));
    preparation.pages = failure("pages");
    assert!(matches!(preparation.next(), ProcessStep::Stop));
    preparation.stopped = true;
    assert!(matches!(preparation.next(), ProcessStep::Fail(_)));
    preparation.pages = Some(Ok(()));
    assert!(matches!(preparation.next(), ProcessStep::Ready));
}

#[test]
fn a_component_created_in_vain_is_dropped() {
    let mut preparation = WasmPreparation::start(true);
    assert!(matches!(preparation.next(), WasmStep::Activate));
    preparation.activated = Some(Ok(true));
    assert!(matches!(preparation.next(), WasmStep::CheckDeclared));
    preparation.declared = failure("declared");
    assert!(matches!(preparation.next(), WasmStep::Drop));
    preparation.declared = Some(Ok(()));
    assert!(matches!(preparation.next(), WasmStep::VerifyRecorded));
    preparation.verified = failure("recorded");
    assert!(matches!(preparation.next(), WasmStep::Clean));
    preparation.cleaned = Some(Ok(()));
    match preparation.next() {
        WasmStep::Fail(told) => assert_eq!(told, "recorded"),
        other => panic!("{other:?}"),
    }
    let mut unbound = WasmPreparation::start(false);
    unbound.activated = Some(Ok(true));
    unbound.declared = Some(Ok(()));
    assert!(matches!(unbound.next(), WasmStep::Ready));
}

#[test]
fn only_what_was_replaced_goes() {
    assert!(stop_previous_process(Some("a"), Some("b")));
    assert!(stop_previous_process(Some("a"), None));
    assert!(!stop_previous_process(Some("a"), Some("a")));
    assert!(!stop_previous_process(None, Some("a")));
    assert!(deactivate_previous_wasm(Some("a"), Some("b")));
    assert!(!deactivate_previous_wasm(None, None));
    assert!(deactivate_bound_wasm(PluginRuntime::WasmComponent));
    assert!(!deactivate_bound_wasm(PluginRuntime::Process));
    assert!(restore_process_binding(Some(PluginRuntime::Process)));
    assert!(!restore_process_binding(Some(PluginRuntime::WasmComponent)));
    assert!(!restore_process_binding(None));
    assert!(cleanup_new(Some(true)));
    assert!(!cleanup_new(Some(false)));
    assert!(!cleanup_new(None));
}

#[test]
fn runtimes_are_recovered_or_explained() {
    let target = RuntimeTarget {
        tenant_id: "t".to_owned(),
        source_id: "s".to_owned(),
        revision: "r".to_owned(),
    };
    let mut process = ProcessRecovery::start();
    assert!(matches!(process.next(&target), RecoveryStep::Start));
    process.started = failure("down");
    match process.next(&target) {
        RecoveryStep::Fail(told) => {
            assert_eq!(told, "恢复 process 插件失败: tenant=t source=s revision=r: down")
        }
        other => panic!("{other:?}"),
    }
    process.started = Some(Ok(true));
    assert!(matches!(process.next(&target), RecoveryStep::Validate));
    process.validated = failure("pages");
    assert!(matches!(process.next(&target), RecoveryStep::Stop));
    process.validated = Some(Ok(()));
    assert!(matches!(process.next(&target), RecoveryStep::Record));
    process.recorded = Some(Ok(()));
    assert!(matches!(process.next(&target), RecoveryStep::Ready));

    let mut wasm = WasmRecovery::start();
    wasm.activated = Some(Ok(false));
    wasm.validated = failure("pages");
    assert!(matches!(wasm.next(&target), WasmRecoveryStep::Deactivate));
    wasm.validated = Some(Ok(()));
    assert!(matches!(wasm.next(&target), WasmRecoveryStep::Ready));

    let mut default = DefaultActivation::start(PluginRuntime::Process);
    assert!(matches!(default.next(), DefaultStep::PrepareProcess));
    default.process = Some(Ok(true));
    assert!(matches!(default.next(), DefaultStep::Activate));
    default.activated = failure("full");
    assert!(matches!(default.next(), DefaultStep::StopProcess));
    default.process_stopped = true;
    default.wasm_dropped = true;
    match default.next() {
        DefaultStep::Fail(told) => assert_eq!(told, "激活默认插件组合失败: full"),
        other => panic!("{other:?}"),
    }
}

fn page(id: &str) -> PageDefinition {
    PageDefinition {
        id: id.to_owned(),
        label: id.to_owned(),
        icon: None,
        scene: SceneDefinition { id: "s".to_owned(), label: "S".to_owned() },
        menu_path: Vec::new(),
        required_permission: None,
        body: PageBody::Text { title: "declared".to_owned(), content: String::new() },
    }
}

#[test]
fn stored_states_lie_over_declared_pages() {
    let mut pages = vec![page("a"), page("b")];
    let shown = PageBody::Text { title: "stored".to_owned(), content: "c".to_owned() };
    let noted = overlay_page_states(
        &mut pages,
        vec![
            StoredState { page_id: "b".to_owned(), body: Ok(shown.clone()), generation: 4 },
            StoredState { page_id: "unknown".to_owned(), body: Err("x".to_owned()), generation: 9 },
        ],
    )
    .expect("readable states");
    assert_eq!(pages[0], page("a"));
    assert_eq!(pages[1].body, shown);
    assert_eq!(pages[1].id, "b");
    assert_eq!(noted.len(), 1);
    assert_eq!((noted[0].page_id.as_str(), noted[0].generation), ("b", 4));
    let unreadable = vec![StoredState {
        page_id: "a".to_owned(),
        body: Err("missing field `kind`".to_owned()),
        generation: 1,
    }];
    assert_eq!(
        overlay_page_states(&mut pages, unreadable).unwrap_err(),
        "解析页面状态失败: a: missing field `kind`"
    );
    assert!(save_page_state(1).is_ok());
    assert!(save_page_state(0).is_err());
    assert_eq!(save_statement(None), SaveStatement::Insert);
    assert_eq!(save_statement(Some(3)), SaveStatement::Update(3));
}

#[test]
fn a_published_plugin_is_installed_without_its_repository() {
    let mut progress = InstallProgress::start(false);
    assert!(matches!(progress.next(), InstallStep::FindPublication));
    progress.published = Some(Ok(true));
    assert!(matches!(progress.next(), InstallStep::Restore));
    progress.restored = Some(Ok(()));
    assert!(matches!(progress.next(), InstallStep::Resolve(CandidateSource::Published)));
    progress.resolved = failure("缓存缺失");
    match progress.next() {
        InstallStep::Fail(told) => {
            assert_eq!(told, "校验数据库已发布插件的本地 artifact 失败: 缓存缺失")
        }
        other => panic!("{other:?}"),
    }
    progress.published = Some(Ok(false));
    progress.resolved = None;
    assert!(matches!(progress.next(), InstallStep::Resolve(CandidateSource::Repository)));
    progress.resolved = Some(Ok(()));
    assert!(matches!(progress.next(), InstallStep::Activate));
    let mut update = InstallProgress::start(true);
    update.published = Some(Ok(false));
    match update.next() {
        InstallStep::Fail(told) => assert_eq!(told, "自动更新版本尚未发布"),
        other => panic!("{other:?}"),
    }
}

#[test]
fn later_requests_supersede_a_publication() {
    let row = |git: &str, revision: &str| PublishRow {
        git: git.to_owned(),
        revision: revision.to_owned(),
    };
    let mut requests = vec![row("g", "rev1"), row("g", "rev2"), row("other", "rev3")];
    let told = ensure_current_publication(&requests, "g", "rev1").unwrap_err();
    assert!(told.contains("后续请求"));
    assert!(ensure_current_publication(&requests, "g", "rev2").is_ok());
    requests.push(row("g", "rev1"));
    assert!(ensure_current_publication(&requests, "g", "rev1").is_ok());
    assert!(ensure_current_publication(&requests, "none", "rev1").is_err());
    let mut records = PluginRecords {
        binding: Some(("rev0".to_owned(), false)),
        instances: vec!["i0".to_owned()],
        offer: Some("rev0".to_owned()),
    };
    let late = transact(&mut records, true, &requests, "g", "rev2", Some("i2"));
    assert!(late.unwrap_err().contains("后续请求"));
    assert_eq!(records.binding, Some(("rev0".to_owned(), false)));
    assert_eq!(records.instances, ["i0"]);
    assert_eq!(records.offer.as_deref(), Some("rev0"));
    assert_eq!(transact(&mut records, true, &requests, "g", "rev1", Some("i1")), Ok(()));
    assert_eq!(records.binding, Some(("rev1".to_owned(), true)));
    assert_eq!(records.instances, ["i1"]);
    assert_eq!(records.offer.as_deref(), Some("rev1"));
    assert_eq!(transact(&mut records, false, &requests, "g", "rev9", None), Ok(()));
    assert!(records.instances.is_empty());
    assert_eq!(records.offer.as_deref(), Some("rev1"));
}

#[test]
fn published_install_candidate_uses_local_artifact_without_git() {
    let mut progress = InstallProgress::start(false);
    progress.published = Some(Ok(true));
    progress.restored = Some(Ok(()));
    let source = match progress.next() {
        InstallStep::Resolve(source) => source,
        other => panic!("{other:?}"),
    };
    assert_eq!(source, resolve_install_candidate(true));
    assert_eq!(source, CandidateSource::Published);
    assert!(source.detail().contains("数据库已发布 artifact"));
    progress.resolved = Some(Ok(()));
    assert!(!matches!(progress.next(), InstallStep::Resolve(_) | InstallStep::Fail(_)));
}

#[test]
fn missing_published_cache_fails_without_git_fallback() {
    let mut progress = InstallProgress::start(false);
    progress.published = Some(Ok(true));
    progress.restored = Some(Ok(()));
    progress.resolved = failure("插件缓存不存在");
    match progress.next() {
        InstallStep::Fail(told) => assert!(told.contains("本地 artifact")),
        other => panic!("{other:?}"),
    }
}
