use aio_idea::runtime::model::{
    Header, PageBody, PluginRuntime, PluginState, RuntimeCatalog, SessionContext, TenantView,
    UserView,
};
use aio_idea::runtime::server::components::catalog::{
    append_catalog, entry, Installation, Publication,
};
use aio_idea::runtime::server::components::controller::{
    authorize_upload, require_bundle_type, UploadStep,
};
use aio_idea::runtime::server::components::frontend::{
    asset, component_page, granted_source, identity, live, mount, mount_grant, page, render, required_permission,
    validate, validate_owner, IdentityFault, MountFault, PageFault, RenderFault,
};
use aio_idea::runtime::server::components::keyring::{
    drawn_key, is_private_mode, master_key, read_key, store_key, Creation, KeyProgress, KeyStep,
};
use aio_idea::runtime::server::components::lifecycle::{
    generation, resources, restore, Change, Grants, InstallProgress, InstallStep,
    RemovalProgress, RemovalStep, ResourcePlan, RestoreStep, SlotProgress, SlotStep, TrialProgress,
    TrialStep,
};
use aio_idea::runtime::server::components::model::{
    names_surface, Page, Request, RequestFault, Surface,
};
use aio_idea::runtime::server::components::services::{
    permission, InvocationScope, PermittedRequest, RequestContext, Services,
};
use aio_idea::runtime::server::components::store::{
    contains_source, publish, require_no_children, require_parent, source_id, Candidate,
    ComponentRow, Family, PublishFault,
};
use aio_idea::runtime::server::http_error::RuntimeError;

const SOURCE: u128 = 0x00112233445566778899aabbccddeeff;
const NOTATION: &str = "00112233-4455-6677-8899-aabbccddeeff";

fn session(permissions: &[&str]) -> SessionContext {
    SessionContext {
        session_id: "session".to_owned(),
        user_id: "user".to_owned(),
        tenant_id: "tenant".to_owned(),
        account: "a".to_owned(),
        display_name: "A".to_owned(),
        tenant_label: "T".to_owned(),
        permissions: permissions.iter().map(|name| (*name).to_owned()).collect(),
    }
}

#[test]
fn permissions_cannot_cross_plugin_or_host_boundaries() {
    let mut services = Services::new();
    let context = RequestContext {
        request_id: "request".to_owned(),
        tenant_id: None,
        user_id: None,
        session_id: None,
    };
    services.requests.push(PermittedRequest {
        context: context.clone(),
        permissions: vec![permission("first", "plugin:manage"), "host:read".to_owned()],
    });
    let mut scope = InvocationScope {
        source_id: "first".to_owned(),
        revision: "revision".to_owned(),
        context,
    };
    assert!(services.authorize(&scope, "plugin:manage"));
    assert!(!services.authorize(&scope, "host:read"));
    scope.source_id = "second".to_owned();
    assert!(!services.authorize(&scope, "plugin:manage"));
}

#[test]
fn binary_requests_reject_forged_identity_and_escaping_paths() {
    let request = |path: &str, headers: Vec<Header>| Request {
        method: "GET".to_owned(),
        path: path.to_owned(),
        query: None,
        headers,
        body: Vec::new(),
    };
    assert!(request("/screens", Vec::new()).accept().is_ok());
    assert!(request("/../secrets", Vec::new()).accept().is_err());
    assert!(request(
        "/screens",
        vec![Header { name: "x-aio-user-id".to_owned(), value: "admin".to_owned() }]
    )
    .accept()
    .is_err());
}

#[test]
fn every_request_fault_has_its_input() {
    let request = || Request {
        method: "POST".to_owned(),
        path: "/a".to_owned(),
        query: None,
        headers: Vec::new(),
        body: Vec::new(),
    };
    let header = |value: String| Header { name: "Accept".to_owned(), value };
    let mut bad = request();
    bad.method = "TRACE".to_owned();
    assert_eq!(bad.accept().unwrap_err(), RequestFault::Method);
    let mut bad = request();
    bad.path = format!("/{}", "a".repeat(2048));
    assert_eq!(bad.accept().unwrap_err(), RequestFault::Path);
    let mut bad = request();
    bad.body = vec![0; 8388609];
    assert_eq!(bad.accept().unwrap_err(), RequestFault::Limit);
    let mut bad = request();
    bad.headers = (0..9).map(|_| header("a".to_owned())).collect();
    assert_eq!(bad.accept().unwrap_err(), RequestFault::Limit);
    let mut bad = request();
    bad.headers = vec![header("a".repeat(257))];
    assert_eq!(bad.accept().unwrap_err(), RequestFault::Header);
    let mut good = request();
    good.headers = vec![header("a".repeat(256))];
    assert!(good.accept().is_ok());
    assert_eq!(RequestFault::Header.message(), "前端不能注入身份或宿主请求头");
}

#[test]
fn a_request_grants_its_permissions_until_it_ends() {
    let mut services = Services::new();
    let own = permission("plugin", "read");
    let context = services.enter_as(&session(&[own.as_str()]), "r1".to_owned());
    assert_eq!(context.request_id, "r1");
    assert_eq!(context.tenant_id.as_deref(), Some("tenant"));
    let scope = InvocationScope {
        source_id: "plugin".to_owned(),
        revision: "v".to_owned(),
        context: context.clone(),
    };
    assert!(services.authorize(&scope, "read"));
    assert!(!services.authorize(&scope, "write"));
    let tenant = scope.context.tenant_id.clone().expect("a tenant");
    let user = scope.context.user_id.clone().expect("a user");
    let found = services.interactive("r1", &tenant, &user).expect("a request");
    assert_eq!(found.request_id, "r1");
    assert!(services.interactive("r2", &tenant, &user).is_none());
    assert!(services.interactive("r1", "other", &user).is_none());
    assert!(services.interactive("r1", &tenant, "other").is_none());
    let mut forged = InvocationScope {
        source_id: "plugin".to_owned(),
        revision: "v".to_owned(),
        context,
    };
    forged.context.user_id = Some("other".to_owned());
    assert!(!services.authorize(&forged, "read"));
    services.leave("r1");
    assert!(!services.authorize(&scope, "read"));
}

fn component(id: &str, surface: &str, permission: Option<&str>) -> Page {
    Page {
        id: id.to_owned(),
        label: "L".to_owned(),
        entry: "index.html".to_owned(),
        scene: None,
        menu_path: vec!["first".to_owned(), "second".to_owned()],
        permission: permission.map(str::to_owned),
        surface: surface.to_owned(),
    }
}

fn empty_catalog() -> RuntimeCatalog {
    RuntimeCatalog {
        tenant: TenantView { id: "t".to_owned(), label: "T".to_owned() },
        user: UserView {
            label: "u".to_owned(),
            handle: "u".to_owned(),
            initials: "U".to_owned(),
        },
        pages: Vec::new(),
        page_versions: Vec::new(),
        account_items: Vec::new(),
        plugins: Vec::new(),
        context: String::new(),
        session_context: String::new(),
    }
}

#[test]
fn installed_components_add_their_pages() {
    let installation = |enabled: bool| Installation {
        source: SOURCE,
        git: "g".to_owned(),
        digest: "d".to_owned(),
        enabled,
        generation: "n".to_owned(),
        database: Some(true),
        pages: vec![
            component("main", "workspace", Some("view")),
            component("menu", "account-menu", None),
        ],
    };
    let mut catalog = empty_catalog();
    append_catalog(&vec![installation(true)], &mut catalog);
    assert_eq!(catalog.pages.len(), 2);
    let page = &catalog.pages[0];
    assert_eq!(page.id, format!("component:{NOTATION}:main"));
    assert_eq!(page.scene.id, "account");
    assert_eq!(page.body, PageBody::Frontend { entry: "index.html".to_owned() });
    assert_eq!(page.menu_path[1].id, format!("component-{NOTATION}-1-second"));
    assert_eq!(
        page.required_permission.as_deref(),
        Some(permission(NOTATION, "view").as_str())
    );
    assert_eq!(catalog.account_items.len(), 1);
    assert_eq!(catalog.account_items[0].page_id, format!("component:{NOTATION}:menu"));
    assert_eq!(catalog.page_versions[0].version, "d:n");
    assert_eq!(catalog.plugins[0].state, PluginState::Active);
    assert!(catalog.plugins[0].capabilities.database);

    let mut catalog = empty_catalog();
    append_catalog(&vec![installation(false)], &mut catalog);
    assert!(catalog.pages.is_empty());
    assert!(catalog.account_items.is_empty());
    assert_eq!(catalog.plugins[0].state, PluginState::Disabled);
}

#[test]
fn offers_tell_what_is_installed() {
    let publication = |installed: Option<&str>, enabled: Option<bool>| Publication {
        source: SOURCE,
        git: "g".to_owned(),
        digest: "d".to_owned(),
        title: "t".to_owned(),
        summary: "s".to_owned(),
        license: "MIT".to_owned(),
        tags: Vec::new(),
        parent: Some("p".to_owned()),
        parent_title: None,
        database: None,
        installed_revision: installed.map(str::to_owned),
        enabled,
    };
    let shown = entry(publication(Some("old"), Some(false)));
    assert!(shown.installed);
    assert_eq!(shown.state, Some(PluginState::Disabled));
    assert_eq!(shown.active_revision.as_deref(), Some("old"));
    assert_eq!(shown.source_id.as_deref(), Some(NOTATION));
    assert_eq!(shown.runtime, Some(PluginRuntime::WasmComponent));
    assert!(!shown.capabilities.database);
    let offered = entry(publication(None, None));
    assert!(!offered.installed);
    assert_eq!(offered.state, None);
}

#[test]
fn identities_of_pages_read_back() {
    let name = component_page(SOURCE, "main:1");
    assert_eq!(name, format!("component:{NOTATION}:main:1"));
    assert_eq!(identity(&name), Ok((SOURCE, "main:1".to_owned())));
    assert_eq!(identity("main").unwrap_err(), IdentityFault::NotAComponent);
    assert_eq!(identity("component:x").unwrap_err(), IdentityFault::NotAComponent);
    let fault = identity("component:x:y").unwrap_err();
    assert!(matches!(fault, IdentityFault::SourceInvalid(_)));
    assert!(fault.message().starts_with("invalid"));
}

#[test]
fn pages_are_declared_and_permitted() {
    let pages = vec![component("a", "workspace", Some("view"))];
    assert_eq!(page(&pages, "a", true).expect("a page").id, "a");
    assert_eq!(page(&pages, "a", false).unwrap_err(), PageFault::Forbidden);
    assert_eq!(page(&pages, "b", true).unwrap_err(), PageFault::Undeclared);
    assert_eq!(
        required_permission(SOURCE, &pages[0]),
        Some(permission(NOTATION, "view"))
    );
}

#[test]
fn mounts_belong_to_their_session_and_version() {
    let grant = |digest: &str, cookie: Option<&str>| {
        mount_grant(
            &session(&[]),
            "component:x:main",
            SOURCE,
            "generation".to_owned(),
            "digest".to_owned(),
            "index.html".to_owned(),
            digest,
            "frontend".to_owned(),
            cookie.map(str::to_owned),
            5,
        )
    };
    assert_eq!(grant("other", Some("c")).unwrap_err(), MountFault::RevisionChanged);
    assert_eq!(grant("digest", None).unwrap_err(), MountFault::CookieMissing);
    let mounted = grant("digest", Some("c")).expect("a grant");
    assert_eq!(mounted.source_id, NOTATION);
    assert_eq!(mounted.issued, 5);
    assert!(validate_owner(&session(&[]), &mounted).is_ok());
    let mut other = session(&[]);
    other.tenant_id = "other".to_owned();
    assert_eq!(validate_owner(&other, &mounted).unwrap_err().status, 403);
    assert!(validate(&mounted, SOURCE, "digest", "generation", "index.html").is_ok());
    assert!(validate(&mounted, SOURCE, "digest", "later", "index.html").is_err());
    assert!(validate(&mounted, 1, "digest", "generation", "index.html").is_err());
    let response = mount("token".to_owned(), &mounted, "s".to_owned(), "c".to_owned());
    assert_eq!(response.abi, Some(2));
    assert_eq!(response.src, "/api/runtime/components/assets/token/index.html");
}

#[test]
fn entries_are_served_with_the_guest_script() {
    let html = b"<html><head><title>t</title></head><body></body></html>";
    let rendered = render(html, "https://aio.example/p/", "sub/index.html", "guest()")
        .expect("a document");
    let text = String::from_utf8(rendered).expect("text");
    assert!(text.contains("guest()"));
    assert!(text.contains("https://aio.example/p/sub/"));
    assert_eq!(render(&[0xff], "p", "e", "g").unwrap_err(), RenderFault::NotText("invalid utf-8 sequence of 1 bytes from index 0".to_owned()));
    let mounted = mount_grant(
        &session(&[]),
        "component:x:main",
        SOURCE,
        "generation".to_owned(),
        "digest".to_owned(),
        "index.html".to_owned(),
        "digest",
        "frontend".to_owned(),
        Some("c".to_owned()),
        5,
    )
    .expect("a grant");
    assert_eq!(granted_source(&mounted), Ok(SOURCE));
    let reply = asset(
        "digest",
        Some(html.to_vec()),
        "index.html",
        &mounted,
        "token",
        "https://aio.example",
        "guest()",
    )
    .expect("a reply");
    assert_eq!(reply.status, 200);
    assert!(String::from_utf8(reply.body).expect("text").contains("guest()"));
    assert!(asset("other", Some(vec![1]), "a.js", &mounted, "t", "o", "g").is_err());
    assert!(asset("digest", None, "a.js", &mounted, "t", "o", "g").is_err());
}

#[test]
fn bundles_are_uploaded_as_they_are() {
    assert!(matches!(authorize_upload(false, None, None), UploadStep::AuthenticatePublisher));
    assert!(matches!(authorize_upload(false, Some(Ok(())), None), UploadStep::AcquireSlot));
    assert!(matches!(authorize_upload(false, Some(Ok(())), Some(true)), UploadStep::Read));
    match authorize_upload(true, None, None) {
        UploadStep::Refuse(error) => assert_eq!(error.message, "不接受传输压缩"),
        other => panic!("{other:?}"),
    }
    match authorize_upload(false, Some(Ok(())), Some(false)) {
        UploadStep::Refuse(error) => assert_eq!(error.status, 503),
        other => panic!("{other:?}"),
    }
    let refusal = RuntimeError::forbidden("no".to_owned());
    assert!(matches!(authorize_upload(false, Some(Err(refusal)), None), UploadStep::Refuse(_)));
    assert!(require_bundle_type(Some("application/vnd.aio.component+gzip")).is_ok());
    assert_eq!(require_bundle_type(Some("application/json")).unwrap_err().status, 415);
}

fn grants() -> Grants {
    Grants {
        database: true,
        storage: false,
        cryptography: false,
        management: false,
        identity_provider: false,
    }
}

#[test]
fn components_do_not_manage_the_host() {
    assert_eq!(resources(grants()), Some(ResourcePlan { database: true, storage: false }));
    assert_eq!(resources(Grants { management: true, ..grants() }), None);
    assert_eq!(resources(Grants { identity_provider: true, ..grants() }), None);
}

#[test]
fn an_installation_that_cannot_be_recorded_is_undone() {
    let mut progress = InstallProgress::start();
    assert!(matches!(progress.next(), InstallStep::FindPublished));
    progress.published = Some(Ok(false));
    match progress.next() {
        InstallStep::Fail(told) => assert_eq!(told, "插件尚未发布"),
        other => panic!("{other:?}"),
    }
    progress.published = Some(Ok(true));
    progress.parent = Some(Ok(()));
    progress.resources = Some(Ok(()));
    progress.previous = Some(Ok(true));
    assert!(matches!(progress.next(), InstallStep::Activate));
    progress.activated = Some(Ok(()));
    progress.recorded = Some(Err("full".to_owned()));
    assert!(matches!(progress.next(), InstallStep::PreparePreviousResources));
    progress.previous_resources = Some(Ok(()));
    assert!(matches!(progress.next(), InstallStep::ActivatePrevious));
    progress.previous_activated = Some(Ok(()));
    match progress.next() {
        InstallStep::Fail(told) => assert_eq!(told, "full"),
        other => panic!("{other:?}"),
    }
    progress.previous = Some(Ok(false));
    assert!(matches!(progress.next(), InstallStep::Deactivate));
}

#[test]
fn a_removal_that_cannot_be_recorded_is_undone() {
    assert_eq!(Change::named("enable"), Some(Change::Enable));
    assert_eq!(Change::named("uninstall"), Some(Change::Uninstall));
    assert_eq!(Change::named("other"), None);
    let mut progress = RemovalProgress::start();
    assert!(matches!(progress.next(), RemovalStep::RequireNoChildren));
    progress.childless = Some(Ok(()));
    progress.installed = Some(Ok(false));
    match progress.next() {
        RemovalStep::Fail(told) => assert_eq!(told, "当前租户未安装插件"),
        other => panic!("{other:?}"),
    }
    progress.installed = Some(Ok(true));
    progress.process = Some(Ok(false));
    progress.previous = Some(Ok(true));
    progress.deactivated = Some(Ok(()));
    assert!(matches!(progress.next(), RemovalStep::Record));
    progress.recorded = Some(Err("full".to_owned()));
    assert!(matches!(progress.next(), RemovalStep::PreparePreviousResources));
    progress.recorded = Some(Ok(()));
    assert!(matches!(progress.next(), RemovalStep::Succeed));
}

#[test]
fn the_record_of_an_installation_counts() {
    assert_eq!(restore(true, None, "d"), RestoreStep::ActivateProcess);
    assert_eq!(restore(false, Some("d"), "d"), RestoreStep::Keep);
    assert_eq!(restore(false, Some("c"), "d"), RestoreStep::Activate);
    assert_eq!(restore(false, None, "d"), RestoreStep::Activate);
}

#[test]
fn a_place_is_kept_after_its_component_is_back() {
    assert!(matches!(SlotProgress::start(true).next(), SlotStep::Use));
    let mut progress = SlotProgress::start(false);
    assert!(matches!(progress.next(), SlotStep::Create));
    progress.created = Some(Ok(()));
    assert!(matches!(progress.next(), SlotStep::ReadStored));
    progress.stored = Some(Ok(true));
    assert!(matches!(progress.next(), SlotStep::PrepareResources));
    progress.resources = Some(Ok(()));
    assert!(matches!(progress.next(), SlotStep::Restore));
    progress.restored = Some(Err("broken".to_owned()));
    assert!(matches!(progress.next(), SlotStep::Fail(_)));
    progress.restored = Some(Ok(()));
    assert!(matches!(progress.next(), SlotStep::Keep));
    progress.kept = true;
    assert!(matches!(progress.next(), SlotStep::Use));
}

#[test]
fn a_bundle_is_taken_down_after_its_trial() {
    let mut process = TrialProgress::start(true);
    assert!(matches!(process.next(), TrialStep::PrepareProcess));
    process.prepared = Some(Ok(()));
    assert!(matches!(process.next(), TrialStep::StopProcess));
    process.stopped = Some(Ok(()));
    assert!(matches!(process.next(), TrialStep::End));
    let mut hosted = TrialProgress::start(false);
    hosted.resources = Some(Ok(()));
    hosted.replaced = Some(Ok(()));
    assert!(matches!(hosted.next(), TrialStep::ReadDescription));
    hosted.active = Some(false);
    match hosted.next() {
        TrialStep::Fail(told) => assert_eq!(told, "候选实例未激活"),
        other => panic!("{other:?}"),
    }
    hosted.active = Some(true);
    assert!(matches!(hosted.next(), TrialStep::Deactivate));
    hosted.deactivated = true;
    assert!(matches!(hosted.next(), TrialStep::End));
}

#[test]
fn surfaces_have_names() {
    assert_eq!(Surface::AccountEntry.name(), "account-entry");
    assert!(names_surface("workspace"));
    assert!(names_surface("fullscreen"));
    assert!(!names_surface("desktop"));
}

#[test]
fn a_published_source_keeps_its_parent_and_runtime() {
    let candidate = || Candidate {
        git: "g".to_owned(),
        readme_bytes: 10,
        marketplace: Some(Some("p".to_owned())),
        process: true,
        known_parent: Some(Some("p".to_owned())),
        published_process: Some(true),
        cycle: false,
    };
    assert_eq!(publish(&candidate()), Ok(()));
    let fault = |candidate: Candidate| publish(&candidate).unwrap_err();
    assert_eq!(
        fault(Candidate { readme_bytes: 524289, ..candidate() }),
        PublishFault::ReadmeTooLong
    );
    assert_eq!(
        fault(Candidate { marketplace: None, ..candidate() }),
        PublishFault::MarketplaceMissing
    );
    assert_eq!(
        fault(Candidate { marketplace: Some(Some("g".to_owned())), ..candidate() }),
        PublishFault::OwnParent
    );
    assert_eq!(
        fault(Candidate { known_parent: Some(None), ..candidate() }),
        PublishFault::ParentChanged
    );
    assert_eq!(fault(Candidate { process: false, ..candidate() }), PublishFault::RuntimeChanged);
    assert_eq!(fault(Candidate { cycle: true, ..candidate() }), PublishFault::ParentCycle);
    assert!(require_parent(&None, false).is_ok());
    assert_eq!(
        require_parent(&Some("p".to_owned()), false).unwrap_err(),
        "请先安装并启用父插件: p"
    );
    assert!(require_no_children(&Vec::new()).is_ok());
    assert_eq!(
        require_no_children(&vec!["a".to_owned(), "b".to_owned()]).unwrap_err(),
        "请先卸载子插件: a、b"
    );
}

#[test]
fn requests_get_random_ids() {
    let mut services = Services::new();
    let first = services.enter(&session(&[])).request_id;
    let second = services.enter(&session(&[])).request_id;
    assert_ne!(first, second);
    assert_eq!(first.len(), 36);
    assert_eq!(first.as_bytes()[14], b'4');
    assert_eq!(services.requests.len(), 2);
    services.leave(&first);
    assert_eq!(services.requests.len(), 1);
    assert_ne!(generation(), generation());
}

#[test]
fn sources_keep_their_ids() {
    assert_eq!(source_id(Some(SOURCE)), SOURCE);
    let fresh = source_id(None);
    assert_eq!(fresh >> 76 & 0xf, 4);
    assert_eq!(fresh >> 62 & 0x3, 2);
    assert_eq!(contains_source(NOTATION), Some(SOURCE));
    assert_eq!(contains_source("published-source"), None);
}

#[test]
fn expired_mounts_are_told() {
    let error = live(None).unwrap_err();
    assert_eq!((error.status, error.message.as_str()), (401, "挂载已过期"));
}

#[test]
fn a_master_key_reads_back() {
    let key: Vec<u8> = (0..32).collect();
    let stored = store_key(&key);
    assert!(stored.starts_with(b"[0,1,2,"));
    assert_eq!(read_key(&stored), Ok(key));
    assert!(read_key(b"[1,2]").unwrap_err().starts_with("invalid length 2"));
    assert!(read_key(b"{}").unwrap_err().starts_with("invalid type: map"));
    let fresh = master_key().expect("a random source");
    assert_ne!(fresh, master_key().expect("a random source"));
    assert_eq!(read_key(&fresh).expect("a key").len(), 32);
    assert_eq!(drawn_key(Ok(vec![7; 32])), Ok(store_key(&[7; 32])));
    assert_eq!(drawn_key(Err("no source".to_owned())), Err("no source".to_owned()));
}

#[test]
fn a_key_that_others_can_read_is_not_used() {
    assert!(is_private_mode(0o100600));
    assert!(!is_private_mode(0o100640));
    let mut progress = KeyProgress::start(false);
    assert!(matches!(progress.next(), KeyStep::CreateDirectory));
    progress.directory = Some(Ok(false));
    match progress.next() {
        KeyStep::Fail(told) => assert_eq!(told, "密钥目录无效"),
        other => panic!("{other:?}"),
    }
    progress.directory = Some(Ok(true));
    assert!(matches!(progress.next(), KeyStep::MakeKey));
    progress.made = Some(Err("no source".to_owned()));
    match progress.next() {
        KeyStep::Fail(told) => assert_eq!(told, "生成主密钥失败: no source"),
        other => panic!("{other:?}"),
    }
    progress.made = Some(Ok(()));
    assert!(matches!(progress.next(), KeyStep::CreateFile));
    progress.created = Some(Creation::AlreadyThere);
    assert!(matches!(progress.next(), KeyStep::ReadMode));
    progress.mode = Some(Ok(0o644));
    match progress.next() {
        KeyStep::Fail(told) => assert_eq!(told, "宿主主密钥文件权限必须为 0600"),
        other => panic!("{other:?}"),
    }
    progress.mode = Some(Ok(0o600));
    assert!(matches!(progress.next(), KeyStep::ReadKey));
    progress.read = Some(Ok(()));
    assert!(matches!(progress.next(), KeyStep::Ready));
}

#[test]
fn a_parent_stays_while_its_child_is_there() {
    let row = |git: &str, parent: Option<&str>, versions: &[&str]| ComponentRow {
        git: git.to_owned(),
        title: format!("Title of {git}"),
        parent: parent.map(str::to_owned),
        versions: versions.iter().map(|digest| digest.to_string()).collect(),
        published: versions.last().map(|digest| digest.to_string()),
        installed: None,
    };
    let digest = |family: &Family, at: usize| {
        family.rows[at].installed.as_ref().map(|version| version.digest.clone())
    };
    let rows = vec![row("parent", None, &["first", "second"]), row("child", Some("parent"), &["c"])];
    let mut family = Family { rows, plugins: Vec::new() };
    let told = family.install("child", None).unwrap_err();
    assert_eq!(told, "请先安装并启用父插件: parent");
    assert_eq!(family.change("parent", "uninstall").unwrap_err(), "当前租户未安装插件");
    assert_eq!(family.install("parent", Some("third")).unwrap_err(), "插件尚未发布");
    assert_eq!(family.install("absent", None).unwrap_err(), "插件尚未发布");
    assert_eq!(family.install("parent", Some("first")), Ok(()));
    assert_eq!(family.install("child", None), Ok(()));
    assert_eq!(family.install("parent", None), Ok(()));
    assert_eq!(digest(&family, 0).as_deref(), Some("second"));
    for action in ["uninstall", "disable"] {
        let told = family.change("parent", action).unwrap_err();
        assert_eq!(told, "请先卸载子插件: Title of child");
        assert_eq!(digest(&family, 0).as_deref(), Some("second"));
    }
    assert_eq!(family.change("parent", "rollback"), Ok(()));
    assert_eq!(digest(&family, 0).as_deref(), Some("first"));
    assert_eq!(family.change("parent", "rollback").unwrap_err(), "没有可回滚的发布版本");
    assert_eq!(family.change("parent", "explode").unwrap_err(), "未知管理操作");
    assert_eq!(family.change("child", "uninstall"), Ok(()));
    assert_eq!(family.change("parent", "disable"), Ok(()));
    assert!(family.install("child", None).is_err());
    assert_eq!(family.change("parent", "enable"), Ok(()));
    assert_eq!(family.change("parent", "uninstall"), Ok(()));
    assert_eq!(digest(&family, 0), None);
    family.plugins.push("parent".to_owned());
    assert_eq!(family.install("child", None), Ok(()));
}
