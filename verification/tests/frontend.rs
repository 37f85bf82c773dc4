use aio_idea::html::HeadFault;
use aio_idea::outside::UrlParts;
use aio_idea::runtime::model::{PageBody, PageDefinition, SceneDefinition, SessionContext};
use aio_idea::runtime::server::frontend_access::{AssetDigest, FrontendAccess, FrontendGrant};
use aio_idea::runtime::server::frontend_delivery::compression;
use aio_idea::runtime::server::frontend_document::{
    bounded_entry, checked_origin, content_policy, directory_of, public_origin, render_entry,
    EntryDocumentFault, OriginFault,
};
use aio_idea::runtime::server::frontend_model::{
    find_digest, AssetSize, FrontendPackage, FrontendRequest, PageBinding, ServiceBinding,
};
use aio_idea::runtime::server::frontend_package::{
    check_package, package_metadata, PackageCache, PackageFault,
};
use aio_idea::runtime::server::frontend_routes::{
    asset, asset_source, component_response, etag_of, frontend_entry, grant as found_grant,
    mount_entry, mount_grant, mount_response, page, request_slot, unmount, validate_binding,
    validate_request, validate_session, Access, AccessProgress, AccessStep, AssetSource,
};
use aio_idea::runtime::server::http_error::RuntimeError;

const LIMIT: usize = 64 * 1024 * 1024;
const HELLO_SHA256: &str = "2cf24dba5fb0a30e26e83b2ac5b9e29e1b161e5c1fa7425e73043362938b9824";

fn grant(issued: u64) -> FrontendGrant {
    FrontendGrant {
        cookie: "session=testing".to_owned(),
        session_id: "session-a".to_owned(),
        tenant_id: "tenant-a".to_owned(),
        user_id: "user-a".to_owned(),
        page_id: "counter".to_owned(),
        source_id: "source-a".to_owned(),
        activation_generation: "activation-a".to_owned(),
        revision: "a".repeat(64),
        entry: "index.html".to_owned(),
        frontend_path: "dist/web".to_owned(),
        assets: Vec::new(),
        issued,
    }
}

fn session() -> SessionContext {
    SessionContext {
        session_id: "session-a".to_owned(),
        user_id: "user-a".to_owned(),
        tenant_id: "tenant-a".to_owned(),
        account: "test".to_owned(),
        display_name: "Test".to_owned(),
        tenant_label: "Test".to_owned(),
        permissions: Vec::new(),
    }
}

fn binding(body: PageBody) -> PageBinding {
    PageBinding {
        source_id: "source-a".to_owned(),
        activation_generation: "activation-a".to_owned(),
        page: PageDefinition {
            id: "counter".to_owned(),
            label: "Counter".to_owned(),
            icon: None,
            scene: SceneDefinition { id: "s".to_owned(), label: "S".to_owned() },
            menu_path: Vec::new(),
            required_permission: None,
            body,
        },
        service: ServiceBinding { revision: "a".repeat(64) },
    }
}

fn frontend_binding() -> PageBinding {
    binding(PageBody::Frontend { entry: "index.html".to_owned() })
}

#[test]
fn frontend_grants_reject_other_sessions_and_tenants() {
    let grant = grant(0);
    let mut session = session();
    assert!(validate_session(&session, &grant).is_ok());
    session.tenant_id = "tenant-b".to_owned();
    assert!(validate_session(&session, &grant).is_err());
    session.tenant_id = grant.tenant_id.clone();
    session.session_id = "session-b".to_owned();
    assert!(validate_session(&session, &grant).is_err());
}

#[test]
fn frontend_requests_cannot_escape_declared_route_paths() {
    let mut request = FrontendRequest {
        method: "POST".to_owned(),
        path: "/counter/increment".to_owned(),
        query: None,
        body: "{}".to_owned(),
    };
    assert!(validate_request(&request).is_ok());
    for path in [
        "https://evil.example",
        "/counter/../private",
        "/counter/%2e%2e/private",
        "//private",
        "/counter?redirect=secret",
        "/counter\\private",
    ] {
        request.path = path.to_owned();
        assert!(validate_request(&request).is_err(), "{path}");
    }
    request.path = "/counter".to_owned();
    request.method = "CONNECT".to_owned();
    assert!(validate_request(&request).is_err());
}

#[test]
fn grants_expire_revoke_and_enforce_per_user_quota() {
    let now = 1_000_000;
    let mut access = FrontendAccess::new("http://127.0.0.1:8080").expect("a valid origin");
    assert!(access.issue("first".to_owned(), grant(now), now).is_ok());
    assert_eq!(access.get("first", now).expect("a grant").page_id, "counter");
    access.remove("first");
    assert!(access.get("first", now).is_none());
    assert!(access.issue("expired".to_owned(), grant(now - 1801), now).is_ok());
    assert!(access.get("expired", now).is_none());
    for i in 0..16 {
        assert!(access.issue(format!("mount-{i}"), grant(now), now).is_ok());
    }
    assert!(access.issue("one too many".to_owned(), grant(now), now).is_err());
}

#[test]
fn renew_keeps_token_without_reviving_expired_or_removed_mounts() {
    let now = 1_000_000;
    let mut access = FrontendAccess::new("http://127.0.0.1:8080").expect("a valid origin");
    assert!(access.issue("old".to_owned(), grant(now - 1790), now).is_ok());
    assert!(access.renew("old", now));
    assert!(now - access.get("old", now).expect("a grant").issued < 1);
    access.remove("old");
    assert!(!access.renew("old", now));
    assert!(access.issue("gone".to_owned(), grant(now - 1801), now).is_ok());
    assert!(!access.renew("gone", now));
}

#[test]
fn document_bootstrap_replaces_base_and_stays_in_sandbox() {
    let prefix = "https://aio.example/api/runtime/frontend/assets/token/";
    let rendered = render_entry(b"<!doctype html><html><head><base href='https://evil.example/'></head><body><script type='module' src='assets/app.js'></script></body></html>", prefix, "index.html", "token", LIMIT).expect("a document");
    let rendered = String::from_utf8(rendered).expect("text");
    assert_eq!(rendered.matches("<base").count(), 1);
    assert!(rendered.contains(&format!("href=\"{prefix}\"")));
    assert!(rendered.contains("__aio_bridge.js"));
    assert!(!rendered.contains("evil.example"));
    let policy = content_policy(prefix);
    assert_eq!(policy.replace(prefix, "https://b.example/"), content_policy("https://b.example/"));
    assert_eq!(policy.matches(prefix).count(), 6);
    assert!(policy.contains("sandbox allow-scripts;"));
    assert!(policy.contains("script-src 'unsafe-inline' 'unsafe-eval' 'wasm-unsafe-eval'"));
    assert!(!policy.contains("allow-same-origin"));
    assert!(policy.contains("connect-src https://aio.example/api/runtime/frontend/assets/token/;"));
    assert!(FrontendAccess::new("https://aio.example/path").is_err());
    assert!(FrontendAccess::new("http://public.example").is_err());
    let nested = String::from_utf8(
        render_entry(b"<head></head>", prefix, "pages/index.html", "token", LIMIT)
            .expect("a document"),
    )
    .expect("text");
    assert!(nested.contains(&format!("href=\"{prefix}pages/\"")));
}

#[test]
fn another_user_of_the_same_session_is_refused() {
    let mut session = session();
    session.user_id = "user-b".to_owned();
    assert!(validate_session(&session, &grant(0)).is_err());
    assert!(unmount(&session, &grant(0)).is_err());
}

#[test]
fn a_mount_lives_for_half_an_hour() {
    let mut access = FrontendAccess::new("https://aio.example").expect("a valid origin");
    assert!(access.issue("t".to_owned(), grant(1000), 1000).is_ok());
    assert!(access.get("t", 1000 + 1799).is_some());
    assert!(access.get("t", 1000 + 1800).is_none());
    assert!(access.renew("t", 1000 + 1799));
    assert!(access.get("t", 1000 + 1800).is_some());
}

#[test]
fn origins_are_secure_and_bare() {
    assert_eq!(public_origin("https://aio.example").expect("an origin"), "https://aio.example");
    assert_eq!(public_origin("https://aio.example/").expect("an origin"), "https://aio.example");
    assert_eq!(
        public_origin("http://localhost:3000").expect("an origin"),
        "http://localhost:3000"
    );
    let fault = public_origin("not an address").unwrap_err();
    assert_eq!(fault, OriginFault::Unparsable("relative URL without a base".to_owned()));
    assert_eq!(fault.message(), "AIO_PUBLIC_ORIGIN 无效: relative URL without a base");
    assert_eq!(public_origin("http://aio.example").unwrap_err(), OriginFault::NotSecure);
    assert_eq!(public_origin("https://aio.example/?a=1").unwrap_err(), OriginFault::NotBare);
    assert_eq!(public_origin("https://user@aio.example").unwrap_err(), OriginFault::NotBare);
    assert_eq!(
        checked_origin(Err::<UrlParts, String>("told".to_owned())).unwrap_err(),
        OriginFault::Unparsable("told".to_owned())
    );
    let nested = "blob:".repeat(200000);
    assert_eq!(public_origin(&nested).unwrap_err(), OriginFault::NotSecure);
}

#[test]
fn documents_that_cannot_be_framed_are_told_apart() {
    let prefix = "https://aio.example/a/";
    assert_eq!(
        render_entry(&[0xff, 0xfe], prefix, "index.html", "t", LIMIT).unwrap_err(),
        EntryDocumentFault::NotText("invalid utf-8 sequence of 1 bytes from index 0".to_owned())
    );
    assert_eq!(
        render_entry(b"<head></head>", prefix, "index.html", "t", 3).unwrap_err(),
        EntryDocumentFault::TooLarge
    );
    assert_eq!(
        bounded_entry(Err(HeadFault::HeadMissing), 10).unwrap_err(),
        EntryDocumentFault::Head(HeadFault::HeadMissing)
    );
    let framed = render_entry(b"<head><base><base href='b'></head>", "p/", "a/i.html", "t", LIMIT);
    assert_eq!(
        String::from_utf8(framed.expect("a document")).expect("text"),
        "<html><head><base href=\"p/a/\"><script src=\"p/__aio_bridge.js\" data-token=\"t\"></script><base href=\"b\"></head><body></body></html>"
    );
    let deep = "<div>".repeat(508);
    assert!(render_entry(deep.as_bytes(), prefix, "index.html", "t", LIMIT).is_ok());
    let deeper = "<div>".repeat(3000);
    let fault = render_entry(deeper.as_bytes(), prefix, "index.html", "t", LIMIT).unwrap_err();
    assert_eq!(fault, EntryDocumentFault::Head(HeadFault::TooComplex));
    let templates = "<TEMPLATE>".repeat(513);
    let fault = render_entry(templates.as_bytes(), prefix, "index.html", "t", LIMIT).unwrap_err();
    assert_eq!(fault, EntryDocumentFault::Head(HeadFault::TooComplex));
    assert_eq!(fault.message(), "前端入口过于复杂");
    assert_eq!(bounded_entry(Ok("abc".to_owned()), 3).expect("bytes"), b"abc");
    assert_eq!(bounded_entry(Ok("abcd".to_owned()), 3).unwrap_err(), EntryDocumentFault::TooLarge);
}

#[test]
fn a_directory_ends_at_the_last_slash() {
    assert_eq!(directory_of("pages/deep/index.html"), "pages/deep/");
    assert_eq!(directory_of("index.html"), "");
    assert_eq!(directory_of("a/"), "a/");
}

#[test]
fn request_limits_are_exact() {
    let request = |path: String, query: Option<String>, body: String| FrontendRequest {
        method: "GET".to_owned(),
        path,
        query,
        body,
    };
    let longest = format!("/{}", "a".repeat(2048));
    assert!(validate_request(&request(longest.clone(), None, String::new())).is_ok());
    assert!(validate_request(&request(format!("{longest}a"), None, String::new())).is_err());
    assert!(validate_request(&request("/a".into(), Some("q".repeat(8192)), String::new())).is_ok());
    assert!(validate_request(&request("/a".into(), Some("q".repeat(8193)), String::new())).is_err());
    assert!(validate_request(&request("/a".into(), Some("a\u{7}".into()), String::new())).is_err());
    assert!(validate_request(&request("/a".into(), None, "b".repeat(1024 * 1024))).is_ok());
    assert!(validate_request(&request("/a".into(), None, "b".repeat(1024 * 1024 + 1))).is_err());
    let error = validate_request(&request("a".into(), None, String::new())).unwrap_err();
    assert_eq!(error.status, 400);
    assert_eq!(error.message, "服务路径必须以 / 开始");
}

#[test]
fn only_front_end_pages_have_an_entry() {
    assert_eq!(frontend_entry(&frontend_binding()).expect("an entry"), "index.html");
    let text = binding(PageBody::Text { title: "t".to_owned(), content: "c".to_owned() });
    assert!(frontend_entry(&text).is_err());
}

#[test]
fn pages_must_be_active_and_permitted() {
    assert!(page(true, true).is_ok());
    let missing = page(false, true).unwrap_err();
    let forbidden = page(true, false).unwrap_err();
    assert_ne!(missing.status, forbidden.status);
    assert_eq!(forbidden.status, 403);
}

#[test]
fn a_mounted_page_stays_valid_until_its_activation_changes() {
    let session = session();
    let package = FrontendPackage {
        path: "dist/web".to_owned(),
        assets: vec![AssetDigest {
            path: "index.html".to_owned(),
            sha256: HELLO_SHA256.to_owned(),
        }],
        asset_sizes: vec![AssetSize { path: "index.html".to_owned(), bytes: 5 }],
    };
    let binding = frontend_binding();
    let entry = mount_entry("source-a", &binding).expect("an entry");
    assert!(mount_entry("source-b", &binding).is_err());
    assert!(mount_grant(
        &session,
        "counter".to_owned(),
        &binding,
        entry.clone(),
        &package,
        None,
        7
    )
    .is_err());
    let grant = mount_grant(
        &session,
        "counter".to_owned(),
        &binding,
        entry,
        &package,
        Some("session=testing".to_owned()),
        7,
    )
    .expect("a grant");
    assert_eq!(grant.issued, 7);
    assert_eq!(grant.assets, package.assets);
    assert!(validate_binding(&session, &grant, &Some(frontend_binding()), true).is_ok());
    let mut changed = frontend_binding();
    changed.activation_generation = "activation-b".to_owned();
    assert!(validate_binding(&session, &grant, &Some(changed), true).is_err());
    assert!(validate_binding(&session, &grant, &Some(frontend_binding()), false).is_err());
    assert!(validate_binding(&session, &grant, &None, true).is_err());
    let response = mount_response("token".to_owned(), &grant, "sc".to_owned(), "c".to_owned());
    assert_eq!(response.token, "token");
    assert!(response.src.contains("token"));
    assert_eq!(response.revision, grant.revision);
}

#[test]
fn assets_are_served_only_with_the_digest_of_the_package() {
    let mut grant = grant(0);
    grant.assets = vec![AssetDigest { path: "app.js".to_owned(), sha256: HELLO_SHA256.to_owned() }];
    let source = asset_source("app.js", "__modules__", &grant).expect("a source");
    match &source {
        AssetSource::Packaged { artifact, sha256 } => {
            assert_eq!(artifact, "dist/web/app.js");
            assert_eq!(sha256, HELLO_SHA256);
        }
        other => panic!("{other:?}"),
    }
    assert!(matches!(asset_source("__aio_bridge.js", "m", &grant), Ok(AssetSource::Bridge)));
    assert!(matches!(asset_source("m", "m", &grant), Ok(AssetSource::Modules)));
    assert_eq!(asset_source("other.js", "m", &grant).unwrap_err().status, 404);

    let served = asset(
        &source,
        b"hello".to_vec(),
        "app.js",
        &grant,
        "token",
        "https://aio.example",
        None,
        LIMIT,
    )
    .expect("a reply");
    assert_eq!(served.status, 200);
    assert_eq!(served.body, b"hello");
    let etag = served
        .headers
        .iter()
        .find(|header| header.name == "etag")
        .expect("a tag")
        .value
        .clone();
    assert!(etag.contains(HELLO_SHA256));
    let media = served.headers.iter().find(|header| header.name == "content-type").expect("a type");
    assert!(media.value.contains("javascript"));

    let confirmed = asset(
        &source,
        b"hello".to_vec(),
        "app.js",
        &grant,
        "token",
        "https://aio.example",
        Some(&etag),
        LIMIT,
    )
    .expect("a reply");
    assert_eq!(confirmed.status, 304);
    assert!(confirmed.body.is_empty());

    for tag in [None, Some(etag.as_str())] {
        assert!(asset(
            &source,
            b"forged".to_vec(),
            "app.js",
            &grant,
            "token",
            "https://aio.example",
            tag,
            LIMIT,
        )
        .is_err());
    }
}

#[test]
fn a_tag_names_the_digest() {
    assert_eq!(etag_of(b"hello"), format!("\"{HELLO_SHA256}\""));
}

#[test]
fn service_answers_are_text() {
    let response = component_response(200, None, b"ok".to_vec()).expect("a response");
    assert_eq!(response.status, 200);
    assert_eq!(response.body, "ok");
    assert!(component_response(200, None, vec![0xff]).is_err());
}

#[test]
fn digests_are_found_by_their_paths() {
    let assets = vec![
        AssetDigest { path: "a".to_owned(), sha256: "1".to_owned() },
        AssetDigest { path: "b".to_owned(), sha256: "2".to_owned() },
    ];
    assert_eq!(find_digest(&assets, "b").expect("a digest"), "2");
    assert!(find_digest(&assets, "c").is_none());
}

#[test]
fn packages_are_checked_and_kept_up_to_a_limit() {
    let revision = "a".repeat(64);
    let assets =
        vec![AssetDigest { path: "index.html".to_owned(), sha256: HELLO_SHA256.to_owned() }];
    assert!(check_package(&revision, &assets, &revision, "index.html").is_ok());
    assert_eq!(
        check_package("other", &assets, &revision, "index.html").unwrap_err(),
        PackageFault::RevisionMismatch
    );
    assert_eq!(
        check_package(&revision, &assets, &revision, "missing.html").unwrap_err(),
        PackageFault::RevisionMismatch
    );
    assert_eq!(
        package_metadata(None, Vec::new(), Vec::new()).unwrap_err(),
        PackageFault::FrontendMissing
    );
    let mut cache = PackageCache::new();
    for i in 0..70 {
        let package = package_metadata(Some(format!("path-{i}")), assets.clone(), Vec::new())
            .expect("a package");
        cache.remember(format!("revision-{i}"), package);
        assert!(cache.entries.len() <= 64);
    }
    assert_eq!(cache.path("revision-69").expect("a path"), "path-69");
    assert!(cache.get("revision-69", "index.html", true).expect("kept").is_some());
    assert_eq!(
        cache.get("revision-69", "missing.html", true).unwrap_err(),
        PackageFault::EntryNotPublished
    );
    assert!(cache.get("unknown", "index.html", true).expect("to be loaded").is_none());
}

#[test]
fn static_answers_are_compressed_by_type() {
    assert!(compression(200, Some("application/wasm")));
    assert!(compression(200, Some("application/javascript")));
    assert!(!compression(200, Some("text/html")));
    assert!(!compression(304, Some("application/wasm")));
    assert!(!compression(200, None));
}

#[test]
fn access_is_checked_again_under_the_lock() {
    let mut progress = AccessProgress::start(Access::Request);
    assert!(matches!(progress.next(), AccessStep::Authenticate));
    progress.known = Some(Ok(()));
    assert!(matches!(progress.next(), AccessStep::AcquireSlot));
    progress.slot = Some(false);
    match progress.next() {
        AccessStep::Refuse(error) => assert_eq!(error.status, 503),
        other => panic!("{other:?}"),
    }
    progress.slot = Some(true);
    assert!(matches!(progress.next(), AccessStep::FindGrant));
    progress.found = Some(true);
    assert!(matches!(progress.next(), AccessStep::CheckCall));
    progress.well_formed = Some(Ok(()));
    assert!(matches!(progress.next(), AccessStep::Lock));
    progress.locked = Some(Ok(()));
    assert!(matches!(progress.next(), AccessStep::FindGrantAgain));
    progress.still_found = Some(false);
    match progress.next() {
        AccessStep::Refuse(error) => assert_eq!(error.message, "前端挂载凭证无效或已过期"),
        other => panic!("{other:?}"),
    }
    progress.still_found = Some(true);
    assert!(matches!(progress.next(), AccessStep::AuthenticateAgain));
    progress.session = Some(Ok(()));
    assert!(matches!(progress.next(), AccessStep::CheckBinding));
    progress.binding = Some(Err(RuntimeError::forbidden("changed".to_owned())));
    match progress.next() {
        AccessStep::Refuse(error) => assert_eq!(error.message, "changed"),
        other => panic!("{other:?}"),
    }
    progress.binding = Some(Ok(()));
    assert!(matches!(progress.next(), AccessStep::Proceed));
    assert!(matches!(AccessProgress::start(Access::Asset).next(), AccessStep::AcquireSlot));
    assert!(matches!(AccessProgress::start(Access::Renew).next(), AccessStep::Authenticate));
    assert_eq!(request_slot(false).unwrap_err().message, "前端请求超过宿主并发配额");
    assert_eq!(found_grant(None).unwrap_err().status, 401);
    let mounted = grant(3);
    assert_eq!(found_grant(Some(&mounted)).expect("a grant").issued, 3);
}

#[test]
fn the_prefix_stands_in_six_directives() {
    let policy = content_policy("PREFIX");
    let directives: Vec<&str> = policy.split("; ").collect();
    assert_eq!(directives.len(), 13);
    let named: Vec<&str> = directives
        .iter()
        .filter(|directive| directive.ends_with(" PREFIX"))
        .filter_map(|directive| directive.split(' ').next())
        .collect();
    assert_eq!(
        named,
        ["script-src", "connect-src", "style-src", "img-src", "font-src", "base-uri"]
    );
    assert_eq!(directives[1], "default-src 'none'");
    assert_eq!(directives[10], "form-action 'none'");
}
