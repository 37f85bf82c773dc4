use aio_idea::runtime::model::PluginRuntime;
use aio_idea::runtime::server::manifest::{
    validate, visit, CapabilityManifest, ManifestError, PluginManifest, RepositoryManifest,
    RuntimeManifest, SubpluginManifest, VisitState,
};

const RUNTIME: &str = r#"
[plugin.runtime]
kind = "wasm-component"
artifact = "dist/plugin.wasm"
"#;

fn strings(table: &toml::Table, key: &str) -> Vec<String> {
    match table.get(key) {
        Some(value) => value
            .as_array()
            .expect("a list")
            .iter()
            .map(|item| item.as_str().expect("a text").to_owned())
            .collect(),
        None => Vec::new(),
    }
}

fn text(table: &toml::Table, key: &str) -> String {
    table.get(key).and_then(|value| value.as_str()).expect("a text").to_owned()
}

fn parse(source: &str) -> Result<RepositoryManifest, ManifestError> {
    let document: toml::Table = toml::from_str(source).expect("a TOML document");
    let plugin = document["plugin"].as_table().expect("a table");
    let runtime = plugin["runtime"].as_table().expect("a table");
    let kind = match text(runtime, "kind").as_str() {
        "page-definition" => PluginRuntime::PageDefinition,
        "wasm-component" => PluginRuntime::WasmComponent,
        "process" => PluginRuntime::Process,
        _ => PluginRuntime::Other,
    };
    let capabilities = match plugin.get("capabilities").and_then(|value| value.as_table()) {
        Some(table) => CapabilityManifest {
            network: strings(table, "network"),
            filesystem: strings(table, "filesystem"),
            database: table.get("database").and_then(|value| value.as_bool()).unwrap_or(false),
        },
        None => CapabilityManifest { network: vec![], filesystem: vec![], database: false },
    };
    let subplugins = match plugin.get("subplugins").and_then(|value| value.as_array()) {
        Some(list) => list
            .iter()
            .map(|item| {
                let table = item.as_table().expect("a table");
                SubpluginManifest {
                    id: text(table, "id"),
                    dependencies: strings(table, "dependencies"),
                    pages: strings(table, "pages"),
                    routes: strings(table, "routes"),
                    account_actions: strings(table, "account_actions"),
                }
            })
            .collect(),
        None => Vec::new(),
    };
    let manifest = RepositoryManifest {
        plugin: PluginManifest {
            runtime: RuntimeManifest { kind, artifact: text(runtime, "artifact") },
            capabilities,
            subplugins,
        },
    };
    validate(&manifest)?;
    Ok(manifest)
}

#[test]
fn accepts_parent_with_ordered_subplugins() {
    let manifest = parse(&format!(
        "{RUNTIME}\n[[plugin.subplugins]]\nid='profile'\npages=['profile']\n[[plugin.subplugins]]\nid='account'\ndependencies=['profile']\naccount_actions=['profile']"
    ))
    .expect("a valid manifest");
    assert_eq!(manifest.plugin.subplugins.len(), 2);
}

#[test]
fn rejects_missing_dependency() {
    let error = parse(&format!(
        "{RUNTIME}\n[[plugin.subplugins]]\nid='account'\ndependencies=['missing']"
    ))
    .unwrap_err();
    assert!(error.message().contains("依赖不存在"));
}

#[test]
fn rejects_dependency_cycle() {
    let error = parse(&format!(
        "{RUNTIME}\n[[plugin.subplugins]]\nid='a'\ndependencies=['b']\n[[plugin.subplugins]]\nid='b'\ndependencies=['a']"
    ))
    .unwrap_err();
    assert!(error.message().contains("循环"));
}

#[test]
fn rejects_duplicate_page_declaration() {
    let error = parse(&format!(
        "{RUNTIME}\n[[plugin.subplugins]]\nid='a'\npages=['home']\n[[plugin.subplugins]]\nid='b'\npages=['home']"
    ))
    .unwrap_err();
    assert!(error.message().contains("页面声明重复"));
}

#[test]
fn rejects_ungranted_wasm_capability() {
    let error = parse(&format!(
        "{RUNTIME}\n[plugin.capabilities]\nnetwork=['api.example.com']"
    ))
    .unwrap_err();
    assert!(error.message().contains("未授予"));
}

#[test]
fn every_manifest_fault_has_its_input() {
    let blank = RUNTIME.replace("dist/plugin.wasm", "  ");
    assert!(matches!(parse(&blank), Err(ManifestError::EmptyArtifact)));
    let twice = format!("{RUNTIME}\n[[plugin.subplugins]]\nid='a'\n[[plugin.subplugins]]\nid='a'");
    assert!(matches!(parse(&twice), Err(ManifestError::DuplicateSubplugin)));
    let unnamed = format!("{RUNTIME}\n[[plugin.subplugins]]\nid='  '");
    assert!(matches!(parse(&unnamed), Err(ManifestError::EmptySubpluginId)));
    let database = format!("{RUNTIME}\n[plugin.capabilities]\ndatabase=true");
    assert!(matches!(parse(&database), Err(ManifestError::UngrantedCapability)));
    let files = format!("{RUNTIME}\n[plugin.capabilities]\nfilesystem=['/tmp']");
    assert!(matches!(parse(&files), Err(ManifestError::UngrantedCapability)));
}

#[test]
fn a_reported_cycle_names_one_of_its_members() {
    let ring = format!(
        "{RUNTIME}\n[[plugin.subplugins]]\nid='start'\ndependencies=['a']\n[[plugin.subplugins]]\nid='a'\ndependencies=['b']\n[[plugin.subplugins]]\nid='b'\ndependencies=['c']\n[[plugin.subplugins]]\nid='c'\ndependencies=['a']"
    );
    match parse(&ring) {
        Err(ManifestError::DependencyCycle { plugin }) => {
            assert!(["a", "b", "c"].contains(&plugin.as_str()));
        }
        other => panic!("{other:?}"),
    }
    let own = format!("{RUNTIME}\n[[plugin.subplugins]]\nid='a'\ndependencies=['a']");
    match parse(&own) {
        Err(ManifestError::DependencyCycle { plugin }) => assert_eq!(plugin, "a"),
        other => panic!("{other:?}"),
    }
}

#[test]
fn a_diamond_of_dependencies_is_no_cycle() {
    let diamond = format!(
        "{RUNTIME}\n[[plugin.subplugins]]\nid='a'\ndependencies=['b','c']\n[[plugin.subplugins]]\nid='b'\ndependencies=['d']\n[[plugin.subplugins]]\nid='c'\ndependencies=['d']\n[[plugin.subplugins]]\nid='d'"
    );
    assert!(parse(&diamond).is_ok());
}

#[test]
fn visiting_marks_everything_that_is_reached() {
    let targets = vec![vec![1], vec![], vec![0]];
    let mut states: Vec<Option<VisitState>> = vec![None, None, None];
    assert!(visit(0, &targets, &mut states).is_ok());
    assert!(matches!(states[0], Some(VisitState::Visited)));
    assert!(matches!(states[1], Some(VisitState::Visited)));
    assert!(states[2].is_none());
}

#[test]
fn the_order_of_subplugins_does_not_matter() {
    let one = r#"
[[plugin.subplugins]]
id = "a"
dependencies = ["b", "c"]
pages = ["p", "q"]
[[plugin.subplugins]]
id = "b"
dependencies = ["c"]
[[plugin.subplugins]]
id = "c"
pages = ["r"]
"#;
    let other = r#"
[[plugin.subplugins]]
id = "c"
pages = ["r"]
[[plugin.subplugins]]
id = "a"
dependencies = ["c", "b"]
pages = ["q", "p"]
[[plugin.subplugins]]
id = "b"
dependencies = ["c"]
"#;
    assert!(parse(&format!("{RUNTIME}{one}")).is_ok());
    assert!(parse(&format!("{RUNTIME}{other}")).is_ok());
    let cyclic = one.replace("id = \"c\"", "id = \"c\"\ndependencies = [\"a\"]");
    assert!(parse(&format!("{RUNTIME}{cyclic}")).is_err());
    let cyclic = other.replace("id = \"c\"", "id = \"c\"\ndependencies = [\"a\"]");
    assert!(parse(&format!("{RUNTIME}{cyclic}")).is_err());
}
