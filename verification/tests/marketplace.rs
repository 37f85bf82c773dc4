use aio_idea::runtime::model::PluginRuntime;
use aio_idea::runtime::server::manifest::CapabilityManifest;
use aio_idea::runtime::server::marketplace_store::{
    marketplace_entry, revision_matches, StoredEntry,
};
use aio_idea::runtime::server::marketplace_sync::{sync_step, SyncSet, SyncStep};

#[test]
fn published_revision_matches_when_install_omits_revision() {
    assert!(revision_matches(&"a".repeat(40), None));
}

#[test]
fn published_revision_matches_only_the_requested_commit() {
    let published = "a".repeat(40);

    assert!(revision_matches(&published, Some(&published)));
    assert!(revision_matches(&published, Some(&published.to_uppercase())));
    assert!(!revision_matches(&published, Some(&"b".repeat(40))));
}

#[test]
fn an_entry_on_offer_is_not_installed() {
    let entry = marketplace_entry(StoredEntry {
        git: "g".to_owned(),
        rev: "r".to_owned(),
        title: "t".to_owned(),
        summary: "s".to_owned(),
        license: "MIT".to_owned(),
        tags: vec!["x".to_owned()],
        runtime: Some(PluginRuntime::Process),
        capabilities: CapabilityManifest { network: vec![], filesystem: vec![], database: true },
    });
    assert_eq!(entry.git, "g");
    assert_eq!(entry.tags, ["x"]);
    assert_eq!(entry.runtime, Some(PluginRuntime::Process));
    assert!(entry.capabilities.database);
    assert!(!entry.installed);
    assert!(entry.source_id.is_none());
}

#[test]
fn a_source_is_synchronized_once_at_a_time() {
    let mut set = SyncSet::new();
    assert!(set.begin("a"));
    assert!(!set.begin("a"));
    assert!(set.begin("b"));
    set.end("a");
    assert!(set.begin("a"));
    assert!(!set.begin("b"));
}

#[test]
fn a_failed_synchronization_is_recorded() {
    assert!(matches!(sync_step(&Ok(()), None, false), SyncStep::Replace));
    assert!(matches!(sync_step(&Ok(()), Some(true), false), SyncStep::End));
    match sync_step(&Ok(()), Some(false), false) {
        SyncStep::RecordFailure(told) => assert_eq!(told, "写入市场索引缓存失败"),
        other => panic!("{other:?}"),
    }
    match sync_step(&Err("offline".to_owned()), None, false) {
        SyncStep::RecordFailure(told) => assert_eq!(told, "offline"),
        other => panic!("{other:?}"),
    }
}
