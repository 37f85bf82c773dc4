//! The data that the server and its clients exchange.
use vstd::prelude::*;

use crate::runtime::server::manifest::CapabilityManifest;
use crate::text;

verus! {

/// How a plugin runs.
#[derive(Clone, Copy, Debug, PartialEq, Eq, Structural)]
pub enum PluginRuntime {
    /// Pages described by data alone.
    PageDefinition,
    /// A WebAssembly component run by the host.
    WasmComponent,
    /// A container that answers over HTTP.
    Process,
    /// Any other runtime that a manifest may name.
    Other,
}

/// Whether an installed plugin runs.
#[derive(Clone, Copy, Debug, PartialEq, Eq, Structural)]
pub enum PluginState {
    Active,
    Disabled,
    Failed,
}

/// A button pressed on a page.
#[derive(Clone, Debug, PartialEq, Eq)]
pub struct PageActionRequest {
    pub page_id: String,
    pub action_id: String,
}

/// The tenant whose workspace is shown.
#[derive(Clone, Debug, PartialEq, Eq)]
pub struct TenantView {
    pub id: String,
    pub label: String,
}

/// The user who looks at the workspace.
#[derive(Clone, Debug, PartialEq, Eq)]
pub struct UserView {
    pub label: String,
    pub handle: String,
    pub initials: String,
}

/// A person's login: who, for which tenant, with which permissions.
#[derive(Clone, Debug, PartialEq, Eq)]
pub struct SessionContext {
    pub session_id: String,
    pub user_id: String,
    pub tenant_id: String,
    pub account: String,
    pub display_name: String,
    pub tenant_label: String,
    pub permissions: Vec<String>,
}

/// A group of pages in the navigation.
#[derive(Clone, Debug, PartialEq, Eq)]
pub struct SceneDefinition {
    pub id: String,
    pub label: String,
}

/// A level of a page's menu.
#[derive(Clone, Debug, PartialEq, Eq)]
pub struct MenuGroupDefinition {
    pub id: String,
    pub label: String,
    pub icon: Option<String>,
}

/// What a page shows.
#[derive(Clone, Debug, PartialEq, Eq)]
pub enum PageBody {
    Counter { title: String, button: String },
    Text { title: String, content: String },
    Frontend { entry: String },
}

/// A page of the workspace.
#[derive(Clone, Debug, PartialEq, Eq)]
pub struct PageDefinition {
    pub id: String,
    pub label: String,
    pub icon: Option<String>,
    pub scene: SceneDefinition,
    pub menu_path: Vec<MenuGroupDefinition>,
    pub required_permission: Option<String>,
    pub body: PageBody,
}

/// The version of a page that is shown.
#[derive(Clone, Debug, PartialEq, Eq)]
pub struct PageVersion {
    pub page_id: String,
    pub version: String,
}

/// An entry of the account menu.
#[derive(Clone, Debug, PartialEq, Eq)]
pub struct RuntimeAccountItem {
    pub id: String,
    pub label: String,
    pub icon: Option<String>,
    pub page_id: String,
    pub required_permission: Option<String>,
}

/// A plugin that a tenant has installed.
#[derive(Clone, Debug, PartialEq, Eq)]
pub struct InstalledPluginView {
    pub source_id: String,
    pub git: String,
    pub revision: String,
    pub runtime: PluginRuntime,
    pub state: PluginState,
    pub capabilities: CapabilityManifest,
}

/// Everything that a workspace shows.
#[derive(Clone, Debug, PartialEq, Eq)]
pub struct RuntimeCatalog {
    pub tenant: TenantView,
    pub user: UserView,
    pub pages: Vec<PageDefinition>,
    pub page_versions: Vec<PageVersion>,
    pub account_items: Vec<RuntimeAccountItem>,
    pub plugins: Vec<InstalledPluginView>,
    pub context: String,
    pub session_context: String,
}

/// Something that happened to a plugin.
#[derive(Clone, Debug, PartialEq, Eq)]
pub struct PluginLifecycleEvent {
    pub id: String,
    pub lifecycle: String,
    pub detail: String,
    pub created_at: String,
}

/// A request to install a plugin, at its newest revision where none is named.
#[derive(Clone, Debug, PartialEq, Eq)]
pub struct InstallPluginRequest {
    pub git: String,
    pub rev: Option<String>,
}

/// A plugin on offer.
#[derive(Clone, Debug, PartialEq, Eq)]
pub struct MarketplaceEntry {
    pub git: String,
    pub rev: String,
    pub title: String,
    pub summary: String,
    pub license: String,
    pub tags: Vec<String>,
    pub installed: bool,
    pub source_id: Option<String>,
    pub state: Option<PluginState>,
    pub active_revision: Option<String>,
    pub runtime: Option<PluginRuntime>,
    pub capabilities: CapabilityManifest,
    pub parent_git: Option<String>,
    pub parent_title: Option<String>,
}

/// An answer of the runtime's interface.
#[derive(Clone, Debug, PartialEq, Eq)]
pub struct RuntimeResponse<T> {
    pub data: T,
}

/// A header of a request or an answer.
#[derive(Clone, Debug, PartialEq, Eq)]
pub struct Header {
    pub name: String,
    pub value: String,
}

/// One tree object of a commit, as its publisher sends it.
#[derive(Debug)]
pub struct GitTreeProof {
    pub oid: String,
    pub content_base64: String,
}

/// The objects that show what a commit holds.
#[derive(Debug)]
pub struct GitProof {
    pub commit_base64: String,
    pub trees: Vec<GitTreeProof>,
}

/// What a publisher sends of a revision besides the artifact.
#[derive(Debug)]
pub struct PublishPluginRequest {
    pub git: String,
    pub rev: String,
    pub manifest_toml: String,
    pub git_proof: GitProof,
}

// Contents as text

/// The contents of a menu level.
#[verifier::ext_equal]
pub struct MenuGroupText {
    pub id: Seq<char>,
    pub label: Seq<char>,
    pub icon: Option<Seq<char>>,
}

impl View for MenuGroupDefinition {
    type V = MenuGroupText;

    open spec fn view(&self) -> MenuGroupText {
        MenuGroupText { id: self.id@, label: self.label@, icon: text::optional(self.icon) }
    }
}

/// The contents of a page's body.
#[verifier::ext_equal]
pub enum PageBodyText {
    Counter { title: Seq<char>, button: Seq<char> },
    Text { title: Seq<char>, content: Seq<char> },
    Frontend { entry: Seq<char> },
}

impl View for PageBody {
    type V = PageBodyText;

    open spec fn view(&self) -> PageBodyText {
        match self {
            PageBody::Counter { title, button } => PageBodyText::Counter {
                title: title@,
                button: button@,
            },
            PageBody::Text { title, content } => PageBodyText::Text {
                title: title@,
                content: content@,
            },
            PageBody::Frontend { entry } => PageBodyText::Frontend { entry: entry@ },
        }
    }
}

/// The contents of a page.
#[verifier::ext_equal]
pub struct PageText {
    pub id: Seq<char>,
    pub label: Seq<char>,
    pub icon: Option<Seq<char>>,
    pub scene_id: Seq<char>,
    pub scene_label: Seq<char>,
    pub menu_path: Seq<MenuGroupText>,
    pub required_permission: Option<Seq<char>>,
    pub body: PageBodyText,
}

/// The contents of a menu path.
pub open spec fn menu_texts(groups: Seq<MenuGroupDefinition>) -> Seq<MenuGroupText> {
    groups.map_values(|g: MenuGroupDefinition| g@)
}

impl View for PageDefinition {
    type V = PageText;

    open spec fn view(&self) -> PageText {
        PageText {
            id: self.id@,
            label: self.label@,
            icon: text::optional(self.icon),
            scene_id: self.scene.id@,
            scene_label: self.scene.label@,
            menu_path: menu_texts(self.menu_path@),
            required_permission: text::optional(self.required_permission),
            body: self.body@,
        }
    }
}

/// The contents of a list of pages.
pub open spec fn page_texts(pages: Seq<PageDefinition>) -> Seq<PageText> {
    pages.map_values(|p: PageDefinition| p@)
}

/// The contents of an account entry.
#[verifier::ext_equal]
pub struct AccountItemText {
    pub id: Seq<char>,
    pub label: Seq<char>,
    pub icon: Option<Seq<char>>,
    pub page_id: Seq<char>,
    pub required_permission: Option<Seq<char>>,
}

impl View for RuntimeAccountItem {
    type V = AccountItemText;

    open spec fn view(&self) -> AccountItemText {
        AccountItemText {
            id: self.id@,
            label: self.label@,
            icon: text::optional(self.icon),
            page_id: self.page_id@,
            required_permission: text::optional(self.required_permission),
        }
    }
}

/// The contents of a list of account entries.
pub open spec fn account_texts(items: Seq<RuntimeAccountItem>) -> Seq<AccountItemText> {
    items.map_values(|i: RuntimeAccountItem| i@)
}

/// The contents of a set of capabilities.
#[verifier::ext_equal]
pub struct CapabilitiesText {
    pub network: Seq<Seq<char>>,
    pub filesystem: Seq<Seq<char>>,
    pub database: bool,
}

impl View for CapabilityManifest {
    type V = CapabilitiesText;

    open spec fn view(&self) -> CapabilitiesText {
        CapabilitiesText {
            network: text::texts(self.network@),
            filesystem: text::texts(self.filesystem@),
            database: self.database,
        }
    }
}

/// The contents of an installed plugin's entry.
#[verifier::ext_equal]
pub struct InstalledText {
    pub source_id: Seq<char>,
    pub git: Seq<char>,
    pub revision: Seq<char>,
    pub runtime: PluginRuntime,
    pub state: PluginState,
    pub capabilities: CapabilitiesText,
}

impl View for InstalledPluginView {
    type V = InstalledText;

    open spec fn view(&self) -> InstalledText {
        InstalledText {
            source_id: self.source_id@,
            git: self.git@,
            revision: self.revision@,
            runtime: self.runtime,
            state: self.state,
            capabilities: self.capabilities@,
        }
    }
}

/// The contents of a list of installed plugins.
pub open spec fn installed_texts(plugins: Seq<InstalledPluginView>) -> Seq<InstalledText> {
    plugins.map_values(|p: InstalledPluginView| p@)
}

/// The versions of the pages as a map from their ids.
pub open spec fn version_map(versions: Seq<PageVersion>) -> Map<Seq<char>, Seq<char>>
    decreases versions.len(),
{
    if versions.len() == 0 {
        Map::empty()
    } else {
        version_map(versions.drop_last()).insert(versions.last().page_id@, versions.last().version@)
    }
}

/// A header's name and value.
pub open spec fn header_text(header: Header) -> (Seq<char>, Seq<char>) {
    (header.name@, header.value@)
}

/// The names and values of headers, in order.
pub open spec fn header_texts(headers: Seq<Header>) -> Seq<(Seq<char>, Seq<char>)> {
    headers.map_values(|h: Header| header_text(h))
}

/// A header with the given name and value.
pub fn header(name: &str, value: &str) -> (made: Header)
    ensures
        header_text(made) == (name@, value@),
{
    Header { name: name.to_owned(), value: value.to_owned() }
}

// Laws

/// Two pages with the same contents agree in all that they declare.
pub proof fn lemma_contents_of_a_page(page: PageDefinition, other: PageDefinition)
    requires
        page@ == other@,
    ensures
        page.id@ == other.id@,
        page.label@ == other.label@,
        text::optional(page.icon) == text::optional(other.icon),
        page.scene.id@ == other.scene.id@,
        page.scene.label@ == other.scene.label@,
        page.menu_path@.len() == other.menu_path@.len(),
        forall|i: int| 0 <= i < page.menu_path@.len()
            ==> (#[trigger] page.menu_path@[i]).id@ == other.menu_path@[i].id@
            && page.menu_path@[i].label@ == other.menu_path@[i].label@
            && text::optional(page.menu_path@[i].icon) == text::optional(other.menu_path@[i].icon),
        text::optional(page.required_permission) == text::optional(other.required_permission),
        page.body is Counter <==> other.body is Counter,
        page.body is Text <==> other.body is Text,
        page.body is Frontend <==> other.body is Frontend,
        page.body is Frontend ==> page.body->entry@ == other.body->entry@,
        page.body is Counter ==> page.body->Counter_title@ == other.body->Counter_title@
            && page.body->button@ == other.body->button@,
        page.body is Text ==> page.body->Text_title@ == other.body->Text_title@
            && page.body->content@ == other.body->content@,
{
    let (left, right) = (menu_texts(page.menu_path@), menu_texts(other.menu_path@));
    assert(left.len() == page.menu_path@.len() && right.len() == other.menu_path@.len());
    assert forall|i: int| 0 <= i < page.menu_path@.len() implies (#[trigger] page.menu_path@[i]).id@
        == other.menu_path@[i].id@ && page.menu_path@[i].label@ == other.menu_path@[i].label@
        && text::optional(page.menu_path@[i].icon) == text::optional(other.menu_path@[i].icon) by {
        assert(left[i] == page.menu_path@[i]@ && right[i] == other.menu_path@[i]@);
    }
}

/// Two account entries with the same contents agree in all that they declare.
pub proof fn lemma_contents_of_an_account_entry(item: RuntimeAccountItem, other: RuntimeAccountItem)
    requires
        item@ == other@,
    ensures
        item.id@ == other.id@,
        item.label@ == other.label@,
        text::optional(item.icon) == text::optional(other.icon),
        item.page_id@ == other.page_id@,
        text::optional(item.required_permission) == text::optional(other.required_permission),
{
}

/// Two entries of installed plugins with the same contents agree in all that they say.
pub proof fn lemma_contents_of_an_installed_plugin(plugin: InstalledPluginView,
    other: InstalledPluginView)
    requires
        plugin@ == other@,
    ensures
        plugin.source_id@ == other.source_id@,
        plugin.git@ == other.git@,
        plugin.revision@ == other.revision@,
        plugin.runtime == other.runtime,
        plugin.state == other.state,
        text::texts(plugin.capabilities.network@) == text::texts(other.capabilities.network@),
        text::texts(plugin.capabilities.filesystem@) == text::texts(other.capabilities.filesystem@),
        plugin.capabilities.database == other.capabilities.database,
{
}

/// Of several versions under one id the last counts, and every other id keeps its own.
pub proof fn lemma_last_version_counts(versions: Seq<PageVersion>, last: PageVersion, id: Seq<char>)
    ensures
        version_map(Seq::<PageVersion>::empty()) == Map::<Seq<char>, Seq<char>>::empty(),
        version_map(versions.push(last)).dom().contains(last.page_id@)
            && version_map(versions.push(last))[last.page_id@] == last.version@,
        id != last.page_id@ ==> version_map(versions.push(last)).dom().contains(id)
            == version_map(versions).dom().contains(id),
        id != last.page_id@ && version_map(versions).dom().contains(id)
            ==> version_map(versions.push(last))[id] == version_map(versions)[id],
{
    assert(versions.push(last).drop_last() =~= versions);
}

/// A header is its name and its value, and headers keep their order.
pub proof fn lemma_headers(headers: Seq<Header>, i: int)
    ensures
        header_texts(headers).len() == headers.len(),
        0 <= i < headers.len() ==> header_texts(headers)[i]
            == (headers[i].name@, headers[i].value@),
{
}

} // verus!
