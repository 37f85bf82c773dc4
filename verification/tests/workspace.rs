use aio_idea::pages::home::HomePlugin;
use aio_idea::runtime::client::{
    account_action, catalog, frame_id, increment, mount_refusal,
};
use aio_idea::runtime::model::{
    MenuGroupDefinition, PageBody, PageDefinition, RuntimeAccountItem, SceneDefinition,
};
use aio_idea::workspace::{
    account_items, forgets_assets, is_seen, reloads, retain_pages, runtime_page, workspace_view,
    ApplicationAccountItem, LoadedApplication, WorkspaceView,
};

fn loaded(user: Option<u32>) -> LoadedApplication<u32> {
    LoadedApplication { snapshot: user }
}

#[test]
fn a_failure_keeps_what_was_shown() {
    assert!(matches!(workspace_view::<u32>(None, None), WorkspaceView::Loading));
    assert!(matches!(workspace_view(None, Some(loaded(Some(1)))), WorkspaceView::Shown(1)));
    match workspace_view::<u32>(Some(Err("offline".to_owned())), None) {
        WorkspaceView::Alert(told) => assert_eq!(told, "offline"),
        other => panic!("{other:?}"),
    }
    let failed = Some(Err("offline".to_owned()));
    assert!(matches!(workspace_view(failed, Some(loaded(Some(2)))), WorkspaceView::Shown(2)));
    let fresh = Some(Ok(loaded(None)));
    assert!(matches!(workspace_view(fresh, Some(loaded(Some(2)))), WorkspaceView::Login));
}

#[test]
fn assets_are_forgotten_at_logout() {
    assert!(forgets_assets(&Some(Ok(loaded(None)))));
    assert!(!forgets_assets(&Some(Ok(loaded(Some(1))))));
    assert!(!forgets_assets::<u32>(&None));
    assert!(reloads(true, None));
    assert!(reloads(false, Some("invalidated")));
    assert!(!reloads(false, Some("focus")));
}

fn item(id: &str, permission: Option<&str>) -> ApplicationAccountItem {
    ApplicationAccountItem {
        id: id.to_owned(),
        label: id.to_owned(),
        icon: None,
        page_id: None,
        required_permission: permission.map(str::to_owned),
        destructive: true,
    }
}

#[test]
fn entries_are_shown_to_those_who_may() {
    let permissions = vec!["file:manage".to_owned(), "*".to_owned()];
    assert!(is_seen(&permissions, &None));
    assert!(is_seen(&permissions, &Some("file:manage".to_owned())));
    assert!(!is_seen(&permissions, &Some("user:manage".to_owned())));
    let contributed = |id: &str, permission: Option<&str>| RuntimeAccountItem {
        id: id.to_owned(),
        label: id.to_owned(),
        icon: None,
        page_id: format!("page-{id}"),
        required_permission: permission.map(str::to_owned),
    };
    let items = account_items(
        vec![item("logout", None), item("users", Some("user:manage"))],
        vec![contributed("files", Some("file:manage")), contributed("roles", Some("rbac"))],
        &permissions,
    );
    let ids: Vec<&str> = items.iter().map(|item| item.id.as_str()).collect();
    assert_eq!(ids, ["logout", "files"]);
    assert!(items[0].destructive);
    assert!(!items[1].destructive);
    assert_eq!(items[1].page_id.as_deref(), Some("page-files"));
}

#[test]
fn the_start_page_is_for_everyone() {
    let pages = HomePlugin.pages();
    assert_eq!(pages.len(), 1);
    assert_eq!(pages[0].id, "home");
    assert_eq!(pages[0].label, "首页");
    assert_eq!(pages[0].icon.as_deref(), Some("house"));
    assert_eq!(pages[0].scene_label, "工作区");
    let mut all = HomePlugin.pages();
    let mut hidden = HomePlugin.pages();
    hidden[0].required_permission = Some("secret".to_owned());
    all.append(&mut hidden);
    let seen = retain_pages(all, &Vec::new());
    assert_eq!(seen.len(), 1);
    assert!(seen[0].required_permission.is_none());
}

#[test]
fn runtime_pages_keep_what_their_plugin_declares() {
    let group =
        MenuGroupDefinition { id: "g".to_owned(), label: "G".to_owned(), icon: None };
    let shown = runtime_page(
        PageDefinition {
            id: "counter".to_owned(),
            label: "Counter".to_owned(),
            icon: Some("plus".to_owned()),
            scene: SceneDefinition { id: "s".to_owned(), label: "S".to_owned() },
            menu_path: vec![group.clone()],
            required_permission: None,
            body: PageBody::Counter { title: "t".to_owned(), button: "b".to_owned() },
        },
        "{}".to_owned(),
    );
    assert_eq!(shown.id, "counter");
    assert_eq!(shown.scene_label, "S");
    assert_eq!(shown.menu_path, [group]);
    assert_eq!(shown.definition, "{}");
}

#[test]
fn clients_tell_what_the_server_answered() {
    assert!(catalog(200).is_ok());
    assert!(catalog(299).is_ok());
    assert_eq!(catalog(503).unwrap_err(), "HTTP 503");
    assert_eq!(catalog(199).unwrap_err(), "HTTP 199");
    assert!(account_action("logout"));
    assert!(!account_action("Logout"));
    assert_eq!(increment(0), 1);
    assert_eq!(increment(u64::MAX), u64::MAX);
    assert_eq!(mount_refusal(None), "挂载前端失败");
    assert_eq!(mount_refusal(Some("no")), "no");
    assert_eq!(frame_id("t"), "aio-frontend-t");
    assert_ne!(frame_id("a"), frame_id("b"));
}
