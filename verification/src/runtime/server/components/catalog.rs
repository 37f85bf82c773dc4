//! The components of a tenant, as its workspace shows them.
use vstd::prelude::*;

use crate::outside;
use crate::runtime::model;
use crate::runtime::model::{
    AccountItemText, InstalledPluginView, InstalledText, MarketplaceEntry, MenuGroupDefinition,
    MenuGroupText, PageBody, PageBodyText, PageDefinition, PageText, PageVersion, PluginRuntime,
    PluginState, RuntimeAccountItem, RuntimeCatalog, SceneDefinition,
};
use crate::runtime::server::components::frontend;
use crate::runtime::server::components::model::Page;
use crate::runtime::server::components::services;
use crate::runtime::server::manifest::CapabilityManifest;
use crate::text;

verus! {

/// A component that a tenant has installed.
#[derive(Debug)]
pub struct Installation {
    pub source: u128,
    pub git: String,
    pub digest: String,
    pub enabled: bool,
    pub generation: String,
    pub database: Option<bool>,
    pub pages: Vec<Page>,
}

/// A component on offer, and what the tenant has installed of it.
#[derive(Debug)]
pub struct Publication {
    pub source: u128,
    pub git: String,
    pub digest: String,
    pub title: String,
    pub summary: String,
    pub license: String,
    pub tags: Vec<String>,
    pub parent: Option<String>,
    pub parent_title: Option<String>,
    pub database: Option<bool>,
    pub installed_revision: Option<String>,
    pub enabled: Option<bool>,
}

/// Nothing but, perhaps, the database.
pub open spec fn database_only(database: Option<bool>) -> model::CapabilitiesText {
    model::CapabilitiesText {
        network: Seq::empty(),
        filesystem: Seq::empty(),
        database: database == Some(true),
    }
}

/// The capabilities of a component, from what is stored of its database.
fn capabilities(database: Option<bool>) -> (granted: CapabilityManifest)
    ensures
        granted@ == database_only(database),
{
    let granted = CapabilityManifest {
        network: Vec::new(),
        filesystem: Vec::new(),
        database: match database {
            Some(database) => database,
            None => false,
        },
    };
    assert(text::texts(granted.network@) =~= Seq::<Seq<char>>::empty());
    assert(text::texts(granted.filesystem@) =~= Seq::<Seq<char>>::empty());
    granted
}

/// Whether a component runs.
pub open spec fn run_state(enabled: bool) -> PluginState {
    if enabled {
        PluginState::Active
    } else {
        PluginState::Disabled
    }
}

/// A component on offer, as the market shows it.
pub fn entry(publication: Publication) -> (shown: MarketplaceEntry)
    ensures
        shown.git == publication.git,
        shown.rev == publication.digest,
        shown.title == publication.title,
        shown.summary == publication.summary,
        shown.license == publication.license,
        shown.tags == publication.tags,
        shown.installed == (publication.installed_revision is Some),
        text::optional(shown.source_id) == Some(outside::hyphenated(publication.source)),
        shown.state == match publication.installed_revision {
            Some(_) => Some(run_state(publication.enabled == Some(true))),
            None => None,
        },
        shown.active_revision == publication.installed_revision,
        shown.runtime == Some(PluginRuntime::WasmComponent),
        shown.capabilities@ == database_only(publication.database),
        shown.parent_git == publication.parent,
        shown.parent_title == publication.parent_title,
{
    let installed = publication.installed_revision.is_some();
    let enabled = match publication.enabled {
        Some(enabled) => enabled,
        None => false,
    };
    let state = if installed {
        Some(
            if enabled {
                PluginState::Active
            } else {
                PluginState::Disabled
            },
        )
    } else {
        None
    };
    MarketplaceEntry {
        git: publication.git,
        rev: publication.digest,
        title: publication.title,
        summary: publication.summary,
        license: publication.license,
        tags: publication.tags,
        installed,
        source_id: Some(outside::uuid_text(publication.source)),
        state,
        active_revision: publication.installed_revision,
        runtime: Some(PluginRuntime::WasmComponent),
        capabilities: capabilities(publication.database),
        parent_git: publication.parent,
        parent_title: publication.parent_title,
    }
}

// What a component adds to the workspace

/// The id of a component's page.
pub open spec fn page_id(source: u128, id: Seq<char>) -> Seq<char> {
    "component:"@ + outside::hyphenated(source) + ":"@ + id
}

/// The permission that a component's page asks for.
pub open spec fn page_permission(source: u128, page: Page) -> Option<Seq<char>> {
    match page.permission {
        Some(name) => Some(services::permission_name(outside::hyphenated(source), name@)),
        None => None,
    }
}

/// A level of a component's menu.
pub open spec fn menu_group(source: u128, i: int, label: Seq<char>) -> MenuGroupText {
    MenuGroupText {
        id: "component-"@ + outside::hyphenated(source) + "-"@ + text::decimal(i as nat) + "-"@
            + label,
        label,
        icon: None,
    }
}

/// A component's page in the workspace. A page without a scene belongs to the account.
pub open spec fn workspace_page(source: u128, page: Page) -> PageText {
    PageText {
        id: page_id(source, page.id@),
        label: page.label@,
        icon: None,
        scene_id: match page.scene {
            Some((id, label)) => id@,
            None => "account"@,
        },
        scene_label: match page.scene {
            Some((id, label)) => label@,
            None => "账户"@,
        },
        menu_path: Seq::new(
            page.menu_path@.len(),
            |i: int| menu_group(source, i, page.menu_path@[i]@),
        ),
        required_permission: page_permission(source, page),
        body: PageBodyText::Frontend { entry: page.entry@ },
    }
}

/// A component's page in the account menu.
pub open spec fn account_item(source: u128, page: Page) -> AccountItemText {
    AccountItemText {
        id: page_id(source, page.id@),
        label: page.label@,
        icon: None,
        page_id: page_id(source, page.id@),
        required_permission: page_permission(source, page),
    }
}

/// The version under which a page is shown.
pub open spec fn page_version(installation: Installation) -> Seq<char> {
    installation.digest@ + ":"@ + installation.generation@
}

/// The pages that some components add to the workspace, in order.
pub open spec fn added_pages(source: u128, pages: Seq<Page>) -> Seq<PageText> {
    pages.map_values(|p: Page| workspace_page(source, p))
}

/// The entries that a component's pages add to the account menu: all but workspace pages.
pub open spec fn added_items(source: u128, pages: Seq<Page>) -> Seq<AccountItemText>
    decreases pages.len(),
{
    if pages.len() == 0 {
        Seq::empty()
    } else {
        let items = added_items(source, pages.drop_last());
        if pages.last().surface@ == "workspace"@ {
            items
        } else {
            items.push(account_item(source, pages.last()))
        }
    }
}

/// The versions that a component's pages add.
pub open spec fn added_versions(
    versions: Map<Seq<char>, Seq<char>>,
    installation: Installation,
    pages: Seq<Page>,
) -> Map<Seq<char>, Seq<char>>
    decreases pages.len(),
{
    if pages.len() == 0 {
        versions
    } else {
        added_versions(versions, installation, pages.drop_last()).insert(
            page_id(installation.source, pages.last().id@),
            page_version(installation),
        )
    }
}

/// The pages of an installation that are shown: none where it is disabled.
pub open spec fn shown_pages(installation: Installation) -> Seq<Page> {
    if installation.enabled {
        installation.pages@
    } else {
        Seq::empty()
    }
}

/// An installed component, as the list of plugins shows it.
pub open spec fn installed(installation: Installation) -> InstalledText {
    InstalledText {
        source_id: outside::hyphenated(installation.source),
        git: installation.git@,
        revision: installation.digest@,
        runtime: PluginRuntime::WasmComponent,
        state: run_state(installation.enabled),
        capabilities: database_only(installation.database),
    }
}

/// The pages that the installations add.
pub open spec fn all_pages(installations: Seq<Installation>) -> Seq<PageText>
    decreases installations.len(),
{
    if installations.len() == 0 {
        Seq::empty()
    } else {
        let last = installations.last();
        all_pages(installations.drop_last()) + added_pages(last.source, shown_pages(last))
    }
}

/// The account entries that the installations add.
pub open spec fn all_items(installations: Seq<Installation>) -> Seq<AccountItemText>
    decreases installations.len(),
{
    if installations.len() == 0 {
        Seq::empty()
    } else {
        let last = installations.last();
        all_items(installations.drop_last()) + added_items(last.source, shown_pages(last))
    }
}

/// The versions of the pages after the installations were added.
pub open spec fn all_versions(
    versions: Map<Seq<char>, Seq<char>>,
    installations: Seq<Installation>,
) -> Map<Seq<char>, Seq<char>>
    decreases installations.len(),
{
    if installations.len() == 0 {
        versions
    } else {
        let last = installations.last();
        added_versions(
            all_versions(versions, installations.drop_last()),
            last,
            shown_pages(last),
        )
    }
}

/// The menu path of a component's page.
fn menu_path(source: &str, Ghost(id): Ghost<u128>, labels: &Vec<String>) -> (groups: Vec<
    MenuGroupDefinition,
>)
    requires
        source@ == outside::hyphenated(id),
    ensures
        model::menu_texts(groups@) == Seq::new(
            labels@.len(),
            |i: int| menu_group(id, i, labels@[i]@),
        ),
{
    let mut groups: Vec<MenuGroupDefinition> = Vec::new();
    let mut i: usize = 0;
    while i < labels.len()
        invariant
            i <= labels@.len(),
            source@ == outside::hyphenated(id),
            model::menu_texts(groups@) == Seq::new(
                i as nat,
                |k: int| menu_group(id, k, labels@[k]@),
            ),
        decreases labels@.len() - i,
    {
        let number = text::decimal_text(i as u64);
        let name = "component-".to_owned().concat(source).concat("-").concat(
            number.as_str(),
        ).concat("-").concat(labels[i].as_str());
        let ghost before = model::menu_texts(groups@);
        let group = MenuGroupDefinition { id: name, label: labels[i].clone(), icon: None };
        let ghost added = group@;
        groups.push(group);
        assert(added == menu_group(id, i as int, labels@[i as int]@));
        assert(model::menu_texts(groups@) =~= before.push(added));
        i += 1;
        assert(model::menu_texts(groups@) =~= Seq::new(
            i as nat,
            |k: int| menu_group(id, k, labels@[k]@),
        ));
    }
    groups
}

/// Adds one page of a component to the workspace.
fn append_page(installation: &Installation, source: &str, page: &Page, catalog: &mut RuntimeCatalog)
    requires
        source@ == outside::hyphenated(installation.source),
    ensures
        model::page_texts(final(catalog).pages@) == model::page_texts(old(catalog).pages@).push(
            workspace_page(installation.source, *page),
        ),
        model::account_texts(final(catalog).account_items@) == if page.surface@ == "workspace"@ {
            model::account_texts(old(catalog).account_items@)
        } else {
            model::account_texts(old(catalog).account_items@).push(
                account_item(installation.source, *page),
            )
        },
        model::version_map(final(catalog).page_versions@) == model::version_map(
            old(catalog).page_versions@,
        ).insert(page_id(installation.source, page.id@), page_version(*installation)),
        final(catalog).plugins == old(catalog).plugins,
        final(catalog).tenant == old(catalog).tenant,
        final(catalog).user == old(catalog).user,
        final(catalog).context == old(catalog).context,
        final(catalog).session_context == old(catalog).session_context,
{
    let id = frontend::component_page(installation.source, page.id.as_str());
    let permission = match &page.permission {
        Some(name) => Some(services::permission(source, name.as_str())),
        None => None,
    };
    let permission_again = match &page.permission {
        Some(name) => Some(services::permission(source, name.as_str())),
        None => None,
    };
    let (scene_id, scene_label) = match &page.scene {
        Some((id, label)) => (id.clone(), label.clone()),
        None => ("account".to_owned(), "账户".to_owned()),
    };
    let version = installation.digest.clone().concat(":").concat(installation.generation.as_str());
    let ghost versions = catalog.page_versions@;
    let ghost items = model::account_texts(catalog.account_items@);
    let ghost pages = model::page_texts(catalog.pages@);
    catalog.page_versions.push(PageVersion { page_id: id.clone(), version });
    assert(catalog.page_versions@.drop_last() =~= versions);
    if !text::same(page.surface.as_str(), "workspace") {
        let item = RuntimeAccountItem {
            id: id.clone(),
            label: page.label.clone(),
            icon: None,
            page_id: id.clone(),
            required_permission: permission_again,
        };
        let ghost added = item@;
        catalog.account_items.push(item);
        assert(added == account_item(installation.source, *page));
        assert(model::account_texts(catalog.account_items@) =~= items.push(added));
    }
    let groups = menu_path(source, Ghost(installation.source), &page.menu_path);
    let shown = PageDefinition {
        id,
        label: page.label.clone(),
        icon: None,
        scene: SceneDefinition { id: scene_id, label: scene_label },
        menu_path: groups,
        required_permission: permission,
        body: PageBody::Frontend { entry: page.entry.clone() },
    };
    let ghost added = shown@;
    catalog.pages.push(shown);
    assert(added =~= workspace_page(installation.source, *page));
    assert(model::page_texts(catalog.pages@) =~= pages.push(added));
}

/// Adds the pages of one enabled component to the workspace.
fn append_pages(installation: &Installation, source: &str, catalog: &mut RuntimeCatalog)
    requires
        source@ == outside::hyphenated(installation.source),
    ensures
        model::page_texts(final(catalog).pages@) == model::page_texts(old(catalog).pages@)
            + added_pages(installation.source, installation.pages@),
        model::account_texts(final(catalog).account_items@) == model::account_texts(
            old(catalog).account_items@,
        ) + added_items(installation.source, installation.pages@),
        model::version_map(final(catalog).page_versions@) == added_versions(
            model::version_map(old(catalog).page_versions@),
            *installation,
            installation.pages@,
        ),
        final(catalog).plugins == old(catalog).plugins,
        final(catalog).tenant == old(catalog).tenant,
        final(catalog).user == old(catalog).user,
        final(catalog).context == old(catalog).context,
        final(catalog).session_context == old(catalog).session_context,
{
    let ghost all = installation.pages@;
    let ghost pages = model::page_texts(catalog.pages@);
    let ghost items = model::account_texts(catalog.account_items@);
    let ghost versions = model::version_map(catalog.page_versions@);
    let mut i: usize = 0;
    assert(pages + added_pages(installation.source, all.take(0)) =~= pages);
    assert(items + added_items(installation.source, all.take(0)) =~= items);
    while i < installation.pages.len()
        invariant
            i <= installation.pages@.len(),
            all == installation.pages@,
            source@ == outside::hyphenated(installation.source),
            model::page_texts(catalog.pages@) == pages + added_pages(
                installation.source,
                all.take(i as int),
            ),
            model::account_texts(catalog.account_items@) == items + added_items(
                installation.source,
                all.take(i as int),
            ),
            model::version_map(catalog.page_versions@) == added_versions(
                versions,
                *installation,
                all.take(i as int),
            ),
            catalog.plugins == old(catalog).plugins,
            catalog.tenant == old(catalog).tenant,
            catalog.user == old(catalog).user,
            catalog.context == old(catalog).context,
            catalog.session_context == old(catalog).session_context,
        decreases installation.pages@.len() - i,
    {
        append_page(installation, source, &installation.pages[i], catalog);
        let ghost longer = all.take(i as int + 1);
        assert(longer.drop_last() =~= all.take(i as int));
        assert(longer.last() == all[i as int]);
        assert(added_pages(installation.source, longer) =~= added_pages(
            installation.source,
            all.take(i as int),
        ).push(workspace_page(installation.source, all[i as int])));
        i += 1;
        assert(model::page_texts(catalog.pages@) =~= pages + added_pages(
            installation.source,
            longer,
        ));
        assert(model::account_texts(catalog.account_items@) =~= items + added_items(
            installation.source,
            longer,
        ));
    }
    assert(all.take(i as int) =~= all);
}

/// Adds the installed components to a workspace: each to the list of plugins, and the pages of
/// those that are enabled, with their account entries and versions.
pub fn append_catalog(installations: &Vec<Installation>, catalog: &mut RuntimeCatalog)
    ensures
        model::installed_texts(final(catalog).plugins@) == model::installed_texts(
            old(catalog).plugins@,
        ) + installations@.map_values(|i: Installation| installed(i)),
        model::page_texts(final(catalog).pages@) == model::page_texts(old(catalog).pages@)
            + all_pages(installations@),
        model::account_texts(final(catalog).account_items@) == model::account_texts(
            old(catalog).account_items@,
        ) + all_items(installations@),
        model::version_map(final(catalog).page_versions@) == all_versions(
            model::version_map(old(catalog).page_versions@),
            installations@,
        ),
        final(catalog).tenant == old(catalog).tenant,
        final(catalog).user == old(catalog).user,
        final(catalog).context == old(catalog).context,
        final(catalog).session_context == old(catalog).session_context,
{
    let ghost rows = installations@;
    let ghost plugins = model::installed_texts(catalog.plugins@);
    let ghost pages = model::page_texts(catalog.pages@);
    let ghost items = model::account_texts(catalog.account_items@);
    let ghost versions = model::version_map(catalog.page_versions@);
    let mut i: usize = 0;
    assert(plugins + rows.take(0).map_values(|i: Installation| installed(i)) =~= plugins);
    assert(pages + all_pages(rows.take(0)) =~= pages);
    assert(items + all_items(rows.take(0)) =~= items);
    while i < installations.len()
        invariant
            i <= installations@.len(),
            rows == installations@,
            model::installed_texts(catalog.plugins@) == plugins + rows.take(i as int).map_values(
                |i: Installation| installed(i),
            ),
            model::page_texts(catalog.pages@) == pages + all_pages(rows.take(i as int)),
            model::account_texts(catalog.account_items@) == items + all_items(rows.take(i as int)),
            model::version_map(catalog.page_versions@) == all_versions(
                versions,
                rows.take(i as int),
            ),
            catalog.tenant == old(catalog).tenant,
            catalog.user == old(catalog).user,
            catalog.context == old(catalog).context,
            catalog.session_context == old(catalog).session_context,
        decreases installations@.len() - i,
    {
        let installation = &installations[i];
        let source = outside::uuid_text(installation.source);
        let ghost listed = model::installed_texts(catalog.plugins@);
        let view = InstalledPluginView {
            source_id: source.clone(),
            git: installation.git.clone(),
            revision: installation.digest.clone(),
            runtime: PluginRuntime::WasmComponent,
            state: if installation.enabled {
                PluginState::Active
            } else {
                PluginState::Disabled
            },
            capabilities: capabilities(installation.database),
        };
        let ghost added = view@;
        catalog.plugins.push(view);
        assert(added == installed(*installation));
        assert(model::installed_texts(catalog.plugins@) =~= listed.push(added));
        let ghost longer = rows.take(i as int + 1);
        assert(longer.drop_last() =~= rows.take(i as int));
        assert(longer.last() == *installation);
        assert(longer.map_values(|i: Installation| installed(i)) =~= rows.take(i as int).map_values(
            |i: Installation| installed(i),
        ).push(added));
        if installation.enabled {
            append_pages(installation, source.as_str(), catalog);
        } else {
            assert(added_pages(installation.source, shown_pages(*installation)) =~= Seq::<
                PageText,
            >::empty());
            assert(added_items(installation.source, shown_pages(*installation)) =~= Seq::<
                AccountItemText,
            >::empty());
        }
        i += 1;
        assert(model::installed_texts(catalog.plugins@) =~= plugins + longer.map_values(
            |i: Installation| installed(i),
        ));
        assert(model::page_texts(catalog.pages@) =~= pages + all_pages(longer));
        assert(model::account_texts(catalog.account_items@) =~= items + all_items(longer));
    }
    assert(rows.take(i as int) =~= rows);
}

/// A disabled component is listed, but shows nothing.
pub proof fn lemma_disabled_shows_nothing(installation: Installation)
    requires
        !installation.enabled,
    ensures
        shown_pages(installation).len() == 0,
        installed(installation).state == PluginState::Disabled,
{
}

proof fn lemma_page_is_shown(rows: Seq<Installation>, i: int, j: int) -> (k: int)
    requires
        0 <= i < rows.len(),
        rows[i].enabled,
        0 <= j < rows[i].pages@.len(),
    ensures
        0 <= k < all_pages(rows).len(),
        all_pages(rows)[k] == workspace_page(rows[i].source, rows[i].pages@[j]),
    decreases rows.len(),
{
    let front = rows.drop_last();
    if i < front.len() {
        assert(front[i] == rows[i]);
        lemma_page_is_shown(front, i, j)
    } else {
        all_pages(front).len() + j
    }
}

proof fn lemma_shown_page_is_from(rows: Seq<Installation>, k: int) -> (from: (int, int))
    requires
        0 <= k < all_pages(rows).len(),
    ensures
        0 <= from.0 < rows.len(),
        rows[from.0].enabled,
        0 <= from.1 < rows[from.0].pages@.len(),
        all_pages(rows)[k] == workspace_page(rows[from.0].source, rows[from.0].pages@[from.1]),
    decreases rows.len(),
{
    let front = rows.drop_last();
    if k < all_pages(front).len() {
        let from = lemma_shown_page_is_from(front, k);
        assert(front[from.0] == rows[from.0]);
        from
    } else {
        (rows.len() - 1, k - all_pages(front).len())
    }
}

/// Every page of an enabled component is shown, and as the component declares it: under its label,
/// with its entry, in its scene and under its menu; only a page without a scene goes to the
/// account. Its id and its permission name the component. What was shown before stays where it was.
pub proof fn lemma_declared_page_is_shown(
    installations: Seq<Installation>,
    before: RuntimeCatalog,
    after: RuntimeCatalog,
    i: int,
    j: int,
) -> (k: int)
    requires
        model::page_texts(after.pages@) == model::page_texts(before.pages@) + all_pages(
            installations,
        ),
        0 <= i < installations.len(),
        installations[i].enabled,
        0 <= j < installations[i].pages@.len(),
    ensures
        before.pages@.len() <= k < after.pages@.len(),
        ({
            let page = installations[i].pages@[j];
            let shown = after.pages@[k];
            let source = outside::hyphenated(installations[i].source);
            &&& shown.id@ == "component:"@ + source + ":"@ + page.id@
            &&& shown.label@ == page.label@
            &&& shown.icon is None
            &&& page.scene matches Some(scene) ==> shown.scene.id@ == scene.0@
                && shown.scene.label@ == scene.1@
            &&& page.scene is None ==> shown.scene.id@ == "account"@ && shown.scene.label@
                == "账户"@
            &&& shown.menu_path@.len() == page.menu_path@.len()
            &&& forall|m: int|
                0 <= m < page.menu_path@.len() ==> (#[trigger] shown.menu_path@[m]).label@
                    == page.menu_path@[m]@ && shown.menu_path@[m].icon is None
                    && shown.menu_path@[m].id@ == "component-"@ + source + "-"@ + text::decimal(
                    m as nat,
                ) + "-"@ + page.menu_path@[m]@
            &&& shown.required_permission is Some == page.permission is Some
            &&& page.permission matches Some(name) ==> shown.required_permission->0@
                == "component:"@ + source + ":"@ + name@
            &&& shown.body matches PageBody::Frontend { entry } && entry@ == page.entry@
        }),
{
    let at = lemma_page_is_shown(installations, i, j);
    let k = before.pages@.len() + at;
    let texts = model::page_texts(after.pages@);
    assert(texts.len() == after.pages@.len());
    assert(texts[k] == after.pages@[k]@);
    assert(texts[k] == workspace_page(installations[i].source, installations[i].pages@[j]));
    let groups = after.pages@[k].menu_path@;
    let named = installations[i].pages@[j].menu_path@;
    assert(model::menu_texts(groups).len() == groups.len());
    assert forall|m: int| 0 <= m < named.len() implies (#[trigger] groups[m]).label@ == named[m]@
        && groups[m].icon is None && groups[m].id@ == "component-"@ + outside::hyphenated(
        installations[i].source,
    ) + "-"@ + text::decimal(m as nat) + "-"@ + named[m]@ by {
        assert(model::menu_texts(groups)[m] == groups[m]@);
        assert(texts[k].menu_path[m] == menu_group(installations[i].source, m, named[m]@));
    }
    k
}

/// Nothing is shown but what enabled components declare, each component's pages behind those of the
/// ones before it, in the order in which it declares them; what was shown before stays in front.
pub proof fn lemma_only_enabled_components_are_shown(
    installations: Seq<Installation>,
    before: RuntimeCatalog,
    after: RuntimeCatalog,
    k: int,
    added: Installation,
) -> (from: (int, int))
    requires
        model::page_texts(after.pages@) == model::page_texts(before.pages@) + all_pages(
            installations,
        ),
        before.pages@.len() <= k < after.pages@.len(),
    ensures
        0 <= from.0 < installations.len(),
        installations[from.0].enabled,
        0 <= from.1 < installations[from.0].pages@.len(),
        after.pages@[k].label@ == installations[from.0].pages@[from.1].label@,
        after.pages@[k].id@ == "component:"@ + outside::hyphenated(installations[from.0].source)
            + ":"@ + installations[from.0].pages@[from.1].id@,
        all_pages(installations).is_prefix_of(all_pages(installations.push(added))),
        all_pages(installations.push(added)).len() == all_pages(installations).len()
            + if added.enabled {
            added.pages@.len()
        } else {
            0
        },
        forall|j: int|
            0 <= j < added.pages@.len() && added.enabled ==> (#[trigger] all_pages(
                installations.push(added),
            )[all_pages(installations).len() + j]).label == added.pages@[j].label@,
{
    let texts = model::page_texts(after.pages@);
    assert(texts.len() == after.pages@.len());
    assert(texts[k] == after.pages@[k]@);
    assert(installations.push(added).drop_last() =~= installations);
    lemma_shown_page_is_from(installations, k - before.pages@.len())
}

proof fn lemma_added_item(source: u128, pages: Seq<Page>, j: int) -> (k: int)
    requires
        0 <= j < pages.len(),
        pages[j].surface@ != "workspace"@,
    ensures
        0 <= k < added_items(source, pages).len(),
        added_items(source, pages)[k] == account_item(source, pages[j]),
    decreases pages.len(),
{
    let front = pages.drop_last();
    if j < front.len() {
        assert(front[j] == pages[j]);
        lemma_added_item(source, front, j)
    } else {
        added_items(source, front).len() as int
    }
}

proof fn lemma_added_item_is_from(source: u128, pages: Seq<Page>, k: int) -> (j: int)
    requires
        0 <= k < added_items(source, pages).len(),
    ensures
        0 <= j < pages.len(),
        pages[j].surface@ != "workspace"@,
        added_items(source, pages)[k] == account_item(source, pages[j]),
    decreases pages.len(),
{
    let front = pages.drop_last();
    if k < added_items(source, front).len() {
        let j = lemma_added_item_is_from(source, front, k);
        assert(front[j] == pages[j]);
        j
    } else {
        pages.len() - 1
    }
}

proof fn lemma_item_is_listed(rows: Seq<Installation>, i: int, j: int) -> (k: int)
    requires
        0 <= i < rows.len(),
        rows[i].enabled,
        0 <= j < rows[i].pages@.len(),
        rows[i].pages@[j].surface@ != "workspace"@,
    ensures
        0 <= k < all_items(rows).len(),
        all_items(rows)[k] == account_item(rows[i].source, rows[i].pages@[j]),
    decreases rows.len(),
{
    let front = rows.drop_last();
    if i < front.len() {
        assert(front[i] == rows[i]);
        lemma_item_is_listed(front, i, j)
    } else {
        all_items(front).len() + lemma_added_item(rows[i].source, rows[i].pages@, j)
    }
}

proof fn lemma_listed_item_is_from(rows: Seq<Installation>, k: int) -> (from: (int, int))
    requires
        0 <= k < all_items(rows).len(),
    ensures
        0 <= from.0 < rows.len(),
        rows[from.0].enabled,
        0 <= from.1 < rows[from.0].pages@.len(),
        rows[from.0].pages@[from.1].surface@ != "workspace"@,
        all_items(rows)[k] == account_item(rows[from.0].source, rows[from.0].pages@[from.1]),
    decreases rows.len(),
{
    let front = rows.drop_last();
    if k < all_items(front).len() {
        let from = lemma_listed_item_is_from(front, k);
        assert(front[from.0] == rows[from.0]);
        from
    } else {
        let last = rows.last();
        (
            rows.len() - 1,
            lemma_added_item_is_from(last.source, shown_pages(last), k - all_items(front).len()),
        )
    }
}

/// The account menu gets an entry for each page of an enabled component that is not a workspace
/// page: it leads to that page, under its label, and asks for the same permission.
pub proof fn lemma_account_page_is_listed(
    installations: Seq<Installation>,
    before: RuntimeCatalog,
    after: RuntimeCatalog,
    i: int,
    j: int,
) -> (k: int)
    requires
        model::account_texts(after.account_items@) == model::account_texts(before.account_items@)
            + all_items(installations),
        0 <= i < installations.len(),
        installations[i].enabled,
        0 <= j < installations[i].pages@.len(),
        installations[i].pages@[j].surface@ != "workspace"@,
    ensures
        before.account_items@.len() <= k < after.account_items@.len(),
        ({
            let page = installations[i].pages@[j];
            let item = after.account_items@[k];
            let source = outside::hyphenated(installations[i].source);
            &&& item.id@ == "component:"@ + source + ":"@ + page.id@
            &&& item.page_id@ == item.id@
            &&& item.label@ == page.label@
            &&& item.icon is None
            &&& item.required_permission is Some == page.permission is Some
            &&& page.permission matches Some(name) ==> item.required_permission->0@ == "component:"@
                + source + ":"@ + name@
        }),
{
    let k = before.account_items@.len() + lemma_item_is_listed(installations, i, j);
    let texts = model::account_texts(after.account_items@);
    assert(texts.len() == after.account_items@.len());
    assert(texts[k] == after.account_items@[k]@);
    k
}

/// No workspace page and no page of a disabled component gets an entry in the account menu.
pub proof fn lemma_only_account_pages_are_listed(
    installations: Seq<Installation>,
    before: RuntimeCatalog,
    after: RuntimeCatalog,
    k: int,
) -> (from: (int, int))
    requires
        model::account_texts(after.account_items@) == model::account_texts(before.account_items@)
            + all_items(installations),
        before.account_items@.len() <= k < after.account_items@.len(),
    ensures
        0 <= from.0 < installations.len(),
        installations[from.0].enabled,
        0 <= from.1 < installations[from.0].pages@.len(),
        installations[from.0].pages@[from.1].surface@ != "workspace"@,
        after.account_items@[k].id@ == "component:"@ + outside::hyphenated(
            installations[from.0].source,
        ) + ":"@ + installations[from.0].pages@[from.1].id@,
{
    let texts = model::account_texts(after.account_items@);
    assert(texts.len() == after.account_items@.len());
    assert(texts[k] == after.account_items@[k]@);
    lemma_listed_item_is_from(installations, k - before.account_items@.len())
}

proof fn lemma_added_version(
    versions: Map<Seq<char>, Seq<char>>,
    installation: Installation,
    pages: Seq<Page>,
    id: Seq<char>,
)
    ensures
        ({
            let after = added_versions(versions, installation, pages);
            let named = exists|j: int|
                0 <= j < pages.len() && page_id(installation.source, (#[trigger] pages[j]).id@)
                    == id;
            &&& named ==> after.contains_key(id) && after[id] == page_version(installation)
            &&& !named ==> after.contains_key(id) == versions.contains_key(id) && (
            versions.contains_key(id) ==> after[id] == versions[id])
        }),
    decreases pages.len(),
{
    if pages.len() > 0 {
        let front = pages.drop_last();
        lemma_added_version(versions, installation, front, id);
        if exists|j: int|
            0 <= j < front.len() && page_id(installation.source, (#[trigger] front[j]).id@) == id {
            let j = choose|j: int|
                0 <= j < front.len() && page_id(installation.source, (#[trigger] front[j]).id@)
                    == id;
            assert(pages[j] == front[j]);
        }
        if exists|j: int|
            0 <= j < pages.len() && page_id(installation.source, (#[trigger] pages[j]).id@) == id {
            let j = choose|j: int|
                0 <= j < pages.len() && page_id(installation.source, (#[trigger] pages[j]).id@)
                    == id;
            if j < front.len() {
                assert(front[j] == pages[j]);
            } else {
                assert(pages.last() == pages[j]);
            }
        }
        assert(pages.last() == pages[pages.len() - 1]);
    }
}

proof fn lemma_version_of(versions: Map<Seq<char>, Seq<char>>, rows: Seq<Installation>,
    id: Seq<char>)
    ensures
        ({
            let after = all_versions(versions, rows);
            &&& (forall|i: int, j: int|
                0 <= i < rows.len() && rows[i].enabled && 0 <= j < rows[i].pages@.len() ==> page_id(
                    rows[i].source,
                    (#[trigger] rows[i].pages@[j]).id@,
                ) != id) ==> after.contains_key(id) == versions.contains_key(id) && (
            versions.contains_key(id) ==> after[id] == versions[id])
            &&& forall|i: int, j: int|
                0 <= i < rows.len() && rows[i].enabled && 0 <= j < rows[i].pages@.len() && page_id(
                    rows[i].source,
                    (#[trigger] rows[i].pages@[j]).id@,
                ) == id && (forall|m: int, n: int|
                    i < m < rows.len() && rows[m].enabled && 0 <= n < rows[m].pages@.len()
                        ==> page_id(rows[m].source, (#[trigger] rows[m].pages@[n]).id@) != id)
                    ==> after.contains_key(id) && after[id] == page_version(rows[i])
        }),
    decreases rows.len(),
{
    if rows.len() > 0 {
        let front = rows.drop_last();
        let last = rows.last();
        lemma_version_of(versions, front, id);
        lemma_added_version(all_versions(versions, front), last, shown_pages(last), id);
        assert forall|i: int, j: int|
            0 <= i < front.len() && rows[i].enabled
                && 0 <= j < rows[i].pages@.len() implies #[trigger] rows[i].pages@[j]
            == front[i].pages@[j] by {}
        if forall|i: int, j: int|
            0 <= i < rows.len() && rows[i].enabled && 0 <= j < rows[i].pages@.len() ==> page_id(
                rows[i].source,
                (#[trigger] rows[i].pages@[j]).id@,
            ) != id {
            assert forall|i: int, j: int|
                0 <= i < front.len() && front[i].enabled
                    && 0 <= j < front[i].pages@.len() implies page_id(
                front[i].source,
                (#[trigger] front[i].pages@[j]).id@,
            ) != id by {
                assert(rows[i].pages@[j] == front[i].pages@[j]);
            }
            assert forall|j: int| 0 <= j < shown_pages(last).len() implies page_id(
                last.source,
                (#[trigger] shown_pages(last)[j]).id@,
            ) != id by {
                assert(rows[rows.len() - 1].pages@[j] == last.pages@[j]);
            }
        }
        assert forall|i: int, j: int|
            0 <= i < rows.len() && rows[i].enabled && 0 <= j < rows[i].pages@.len() && page_id(
                rows[i].source,
                (#[trigger] rows[i].pages@[j]).id@,
            ) == id && (forall|m: int, n: int|
                i < m < rows.len() && rows[m].enabled && 0 <= n < rows[m].pages@.len() ==> page_id(
                    rows[m].source,
                    (#[trigger] rows[m].pages@[n]).id@,
                ) != id) implies ({
            let after = all_versions(versions, rows);
            after.contains_key(id) && after[id] == page_version(rows[i])
        }) by {
            if i == rows.len() - 1 {
                assert(shown_pages(last)[j] == rows[i].pages@[j]);
            } else {
                assert(front[i].pages@[j] == rows[i].pages@[j]);
                assert forall|m: int, n: int|
                    i < m < front.len() && front[m].enabled
                        && 0 <= n < front[m].pages@.len() implies page_id(
                    front[m].source,
                    (#[trigger] front[m].pages@[n]).id@,
                ) != id by {
                    assert(rows[m].pages@[n] == front[m].pages@[n]);
                }
                assert forall|n: int| 0 <= n < shown_pages(last).len() implies page_id(
                    last.source,
                    (#[trigger] shown_pages(last)[n]).id@,
                ) != id by {
                    assert(rows[rows.len() - 1].pages@[n] == last.pages@[n]);
                }
            }
        }
    }
}

/// Each shown page of a component has the version of its installation, its digest and generation,
/// where no later component shows a page of the same id; a page that no component shows keeps its
/// version.
pub proof fn lemma_pages_have_their_installations_version(
    versions: Map<Seq<char>, Seq<char>>,
    rows: Seq<Installation>,
    i: int,
    j: int,
    other: Seq<char>,
)
    requires
        0 <= i < rows.len(),
        rows[i].enabled,
        0 <= j < rows[i].pages@.len(),
        forall|m: int, n: int|
            i < m < rows.len() && 0 <= n < rows[m].pages@.len() ==> "component:"@
                + outside::hyphenated(rows[m].source) + ":"@ + (#[trigger] rows[m].pages@[n]).id@
                != "component:"@ + outside::hyphenated(rows[i].source) + ":"@
                + rows[i].pages@[j].id@,
        forall|m: int, n: int|
            0 <= m < rows.len() && 0 <= n < rows[m].pages@.len() ==> other != "component:"@
                + outside::hyphenated(rows[m].source) + ":"@ + (#[trigger] rows[m].pages@[n]).id@,
    ensures
        ({
            let after = all_versions(versions, rows);
            let id = "component:"@ + outside::hyphenated(rows[i].source) + ":"@
                + rows[i].pages@[j].id@;
            &&& after.contains_key(id)
            &&& after[id] == rows[i].digest@ + ":"@ + rows[i].generation@
            &&& after.contains_key(other) == versions.contains_key(other)
            &&& versions.contains_key(other) ==> after[other] == versions[other]
        }),
{
    let id = page_id(rows[i].source, rows[i].pages@[j].id@);
    lemma_version_of(versions, rows, id);
    lemma_version_of(versions, rows, other);
}

/// Every installed component is listed behind what was listed before, enabled or not: with its
/// address, its digest, whether it runs, and whether it has a database.
pub proof fn lemma_every_component_is_listed(
    installations: Seq<Installation>,
    before: RuntimeCatalog,
    after: RuntimeCatalog,
    i: int,
)
    requires
        model::installed_texts(after.plugins@) == model::installed_texts(before.plugins@)
            + installations.map_values(|i: Installation| installed(i)),
        0 <= i < installations.len(),
    ensures
        after.plugins@.len() == before.plugins@.len() + installations.len(),
        ({
            let shown = after.plugins@[before.plugins@.len() + i];
            &&& shown.source_id@ == outside::hyphenated(installations[i].source)
            &&& shown.git@ == installations[i].git@
            &&& shown.revision@ == installations[i].digest@
            &&& shown.runtime is WasmComponent
            &&& installations[i].enabled ==> shown.state is Active
            &&& !installations[i].enabled ==> shown.state is Disabled
            &&& shown.capabilities.database == (installations[i].database == Some(true))
            &&& shown.capabilities.network@.len() == 0
            &&& shown.capabilities.filesystem@.len() == 0
        }),
{
    let texts = model::installed_texts(after.plugins@);
    let k = before.plugins@.len() + i;
    assert(texts.len() == after.plugins@.len());
    assert(texts[k] == after.plugins@[k]@);
    assert(texts[k] == installed(installations[i]));
    let shown = after.plugins@[k];
    assert(text::texts(shown.capabilities.network@).len() == 0);
    assert(text::texts(shown.capabilities.filesystem@).len() == 0);
}

} // verus!
