//! The workspace: what it shows while it loads, and which entries a user sees.
use vstd::prelude::*;

use crate::runtime::model::{MenuGroupDefinition, PageDefinition, RuntimeAccountItem};
use crate::runtime::model;
use crate::text;

verus! {

/// A page that comes with the workspace.
#[derive(Debug)]
pub struct ApplicationPage {
    pub id: String,
    pub label: String,
    pub icon: Option<String>,
    pub scene_id: String,
    pub scene_label: String,
    pub menu_path: Vec<MenuGroupDefinition>,
    pub required_permission: Option<String>,
}

/// An entry of the account menu, as it is shown.
#[derive(Debug)]
pub struct ApplicationAccountItem {
    pub id: String,
    pub label: String,
    pub icon: Option<String>,
    pub page_id: Option<String>,
    pub required_permission: Option<String>,
    pub destructive: bool,
}

/// A page of a plugin, as it is shown.
#[derive(Debug)]
pub struct ApplicationRuntimePage {
    pub id: String,
    pub label: String,
    pub icon: Option<String>,
    pub scene_id: String,
    pub scene_label: String,
    pub menu_path: Vec<MenuGroupDefinition>,
    pub required_permission: Option<String>,
    /// The page's body, as JSON.
    pub definition: String,
}

// Loading

/// What the workspace was loaded with: who is logged in and what they see, or no one.
#[derive(Debug)]
pub struct LoadedApplication<S> {
    pub snapshot: Option<S>,
}

/// What the workspace shows.
#[derive(Debug)]
pub enum WorkspaceView<S> {
    Loading,
    Login,
    /// What is told of the failure.
    Alert(String),
    Shown(S),
}

/// Whether a view is what the workspace shows.
pub open spec fn shows<S>(result: Option<Result<LoadedApplication<S>, String>>,
    last: Option<LoadedApplication<S>>, view: WorkspaceView<S>) -> bool {
    match result {
        Some(Ok(loaded)) => view == loaded_view(loaded),
        Some(Err(told)) => view == match last {
            Some(loaded) => loaded_view(loaded),
            None => WorkspaceView::Alert(told),
        },
        None => view == match last {
            Some(loaded) => loaded_view(loaded),
            None => WorkspaceView::Loading,
        },
    }
}

/// Decides what the workspace shows, from how loading went and from what was loaded last: while it
/// loads anew, and where that fails, what was there before stays.
pub fn workspace_view<S>(
    result: Option<Result<LoadedApplication<S>, String>>,
    last: Option<LoadedApplication<S>>,
) -> (view: WorkspaceView<S>)
    ensures
        shows(result, last, view),
{
    let loaded = match result {
        Some(Ok(loaded)) => loaded,
        Some(Err(told)) => match last {
            Some(loaded) => loaded,
            None => return WorkspaceView::Alert(told),
        },
        None => match last {
            Some(loaded) => loaded,
            None => return WorkspaceView::Loading,
        },
    };
    match loaded.snapshot {
        Some(snapshot) => WorkspaceView::Shown(snapshot),
        None => WorkspaceView::Login,
    }
}

/// What is shown of a workspace that was loaded.
pub open spec fn loaded_view<S>(loaded: LoadedApplication<S>) -> WorkspaceView<S> {
    match loaded.snapshot {
        Some(snapshot) => WorkspaceView::Shown(snapshot),
        None => WorkspaceView::Login,
    }
}

/// Whether the assets of plugins that were kept are deleted: where no one is logged in.
pub fn forgets_assets<S>(result: &Option<Result<LoadedApplication<S>, String>>) -> (yes: bool)
    ensures
        yes == match *result {
            Some(Ok(loaded)) => loaded.snapshot is None,
            _ => false,
        },
{
    match result {
        Some(Ok(loaded)) => loaded.snapshot.is_none(),
        _ => false,
    }
}

/// Whether the workspace is loaded anew.
pub open spec fn loads_anew(finished: bool, reason: Option<&str>, yes: bool) -> bool {
    yes == (finished || text::optional_str(reason) == Some("invalidated"@))
}

/// Whether the workspace is loaded anew: where it was loaded, or where a change was announced.
pub fn reloads(finished: bool, reason: Option<&str>) -> (yes: bool)
    ensures
        loads_anew(finished, reason, yes),
{
    if finished {
        return true;
    }
    match reason {
        Some(reason) => text::same(reason, "invalidated"),
        None => false,
    }
}

// Permissions

/// Whether a user sees an entry: it asks for no permission, or for one that they have.
pub open spec fn sees(permissions: Seq<Seq<char>>, required: Option<Seq<char>>) -> bool {
    match required {
        None => true,
        Some(permission) => permissions.contains(permission),
    }
}

/// Whether a user sees an entry.
pub fn is_seen(permissions: &Vec<String>, required: &Option<String>) -> (yes: bool)
    ensures
        yes == sees(text::texts(permissions@), text::optional(*required)),
{
    match required {
        None => true,
        Some(permission) => text::holds(permissions, permission.as_str()),
    }
}

/// The pages of the workspace that a user sees, in their order.
pub open spec fn seen_pages(
    pages: Seq<ApplicationPage>,
    permissions: Seq<Seq<char>>,
) -> Seq<ApplicationPage>
    decreases pages.len(),
{
    if pages.len() == 0 {
        Seq::empty()
    } else if sees(permissions, text::optional(pages.last().required_permission)) {
        seen_pages(pages.drop_last(), permissions).push(pages.last())
    } else {
        seen_pages(pages.drop_last(), permissions)
    }
}

/// The pages of the workspace that a user sees.
pub fn retain_pages(pages: Vec<ApplicationPage>, permissions: &Vec<String>) -> (seen: Vec<
    ApplicationPage,
>)
    ensures
        seen@ == seen_pages(pages@, text::texts(permissions@)),
{
    let ghost all = pages@;
    let mut rest = pages;
    let mut seen: Vec<ApplicationPage> = Vec::new();
    let count: usize = rest.len();
    let mut i: usize = 0;
    while i < count
        invariant
            i <= count,
            count == all.len(),
            rest@ == all.skip(i as int),
            seen@ == seen_pages(all.take(i as int), text::texts(permissions@)),
        decreases count - i,
    {
        let page = rest.remove(0);
        assert(page == all[i as int]);
        assert(all.take(i as int + 1).drop_last() =~= all.take(i as int));
        assert(rest@ =~= all.skip(i as int + 1));
        if is_seen(permissions, &page.required_permission) {
            seen.push(page);
        }
        i += 1;
    }
    assert(all.take(i as int) =~= all);
    seen
}

/// The entries of the account menu that a user sees, in their order.
pub open spec fn seen_items(
    items: Seq<ApplicationAccountItem>,
    permissions: Seq<Seq<char>>,
) -> Seq<ApplicationAccountItem>
    decreases items.len(),
{
    if items.len() == 0 {
        Seq::empty()
    } else if sees(permissions, text::optional(items.last().required_permission)) {
        seen_items(items.drop_last(), permissions).push(items.last())
    } else {
        seen_items(items.drop_last(), permissions)
    }
}

/// A plugin's entry of the account menu, as it is shown: it leads to its page.
pub open spec fn shown_item(item: RuntimeAccountItem) -> ApplicationAccountItem {
    ApplicationAccountItem {
        id: item.id,
        label: item.label,
        icon: item.icon,
        page_id: Some(item.page_id),
        required_permission: item.required_permission,
        destructive: false,
    }
}

/// The entries of the account menu: those of the workspace, then those of its plugins, as far as
/// the user sees them.
pub fn account_items(
    own: Vec<ApplicationAccountItem>,
    contributed: Vec<RuntimeAccountItem>,
    permissions: &Vec<String>,
) -> (items: Vec<ApplicationAccountItem>)
    ensures
        items@ == seen_items(own@, text::texts(permissions@)) + seen_items(
            contributed@.map_values(|i: RuntimeAccountItem| shown_item(i)),
            text::texts(permissions@),
        ),
{
    let ghost all = own@;
    let ghost known = text::texts(permissions@);
    let mut rest = own;
    let mut items: Vec<ApplicationAccountItem> = Vec::new();
    let count: usize = rest.len();
    let mut i: usize = 0;
    while i < count
        invariant
            i <= count,
            count == all.len(),
            known == text::texts(permissions@),
            rest@ == all.skip(i as int),
            items@ == seen_items(all.take(i as int), known),
        decreases count - i,
    {
        let item = rest.remove(0);
        assert(item == all[i as int]);
        assert(all.take(i as int + 1).drop_last() =~= all.take(i as int));
        assert(rest@ =~= all.skip(i as int + 1));
        if is_seen(permissions, &item.required_permission) {
            items.push(item);
        }
        i += 1;
    }
    assert(all.take(i as int) =~= all);
    let ghost own_seen = items@;
    let ghost shown = contributed@.map_values(|i: RuntimeAccountItem| shown_item(i));
    let ghost plugin_items = contributed@;
    let mut rest = contributed;
    let count: usize = rest.len();
    let mut i: usize = 0;
    assert(shown.take(0) =~= Seq::empty());
    assert(items@ =~= own_seen + seen_items(shown.take(0), known));
    while i < count
        invariant
            i <= count,
            count == plugin_items.len(),
            known == text::texts(permissions@),
            shown == plugin_items.map_values(|i: RuntimeAccountItem| shown_item(i)),
            rest@ == plugin_items.skip(i as int),
            items@ == own_seen + seen_items(shown.take(i as int), known),
        decreases count - i,
    {
        let item = rest.remove(0);
        assert(item == plugin_items[i as int]);
        assert(shown.take(i as int + 1).drop_last() =~= shown.take(i as int));
        assert(rest@ =~= plugin_items.skip(i as int + 1));
        assert(shown[i as int] == shown_item(item));
        let ghost before = items@;
        if is_seen(permissions, &item.required_permission) {
            let shown_entry = ApplicationAccountItem {
                id: item.id,
                label: item.label,
                icon: item.icon,
                page_id: Some(item.page_id),
                required_permission: item.required_permission,
                destructive: false,
            };
            items.push(shown_entry);
            assert(items@ =~= own_seen + seen_items(shown.take(i as int), known).push(
                shown[i as int],
            ));
        }
        i += 1;
    }
    assert(shown.take(i as int) =~= shown);
    items
}

/// No one sees an entry of the account menu for which they lack the permission.
pub proof fn lemma_items_are_permitted(
    items: Seq<ApplicationAccountItem>,
    permissions: Seq<Seq<char>>,
    entry: ApplicationAccountItem,
)
    ensures
        seen_items(items, permissions).contains(entry) <==> items.contains(entry) && sees(
            permissions,
            text::optional(entry.required_permission),
        ),
    decreases items.len(),
{
    if items.len() > 0 {
        let front = items.drop_last();
        lemma_items_are_permitted(front, permissions, entry);
        let kept = seen_items(front, permissions);
        let all = seen_items(items, permissions);
        if items.contains(entry) {
            let k = choose|k: int| 0 <= k < items.len() && items[k] == entry;
            if k < front.len() {
                assert(front[k] == entry);
            }
        }
        if front.contains(entry) {
            let k = choose|k: int| 0 <= k < front.len() && front[k] == entry;
            assert(items[k] == entry);
        }
        if kept.contains(entry) {
            let k = choose|k: int| 0 <= k < kept.len() && kept[k] == entry;
            assert(all[k] == entry);
        }
        if all.contains(entry) {
            let k = choose|k: int| 0 <= k < all.len() && all[k] == entry;
            if k < kept.len() {
                assert(kept[k] == entry);
            }
        }
        if entry == items.last() {
            assert(items[items.len() - 1] == entry);
            if sees(permissions, text::optional(entry.required_permission)) {
                assert(all[all.len() - 1] == entry);
            }
        }
    }
}

/// No one sees a page of the workspace for which they lack the permission.
pub proof fn lemma_pages_are_permitted(
    pages: Seq<ApplicationPage>,
    permissions: Seq<Seq<char>>,
    page: ApplicationPage,
)
    ensures
        seen_pages(pages, permissions).contains(page) <==> pages.contains(page) && sees(
            permissions,
            text::optional(page.required_permission),
        ),
    decreases pages.len(),
{
    if pages.len() > 0 {
        let front = pages.drop_last();
        lemma_pages_are_permitted(front, permissions, page);
        let kept = seen_pages(front, permissions);
        let all = seen_pages(pages, permissions);
        if pages.contains(page) {
            let k = choose|k: int| 0 <= k < pages.len() && pages[k] == page;
            if k < front.len() {
                assert(front[k] == page);
            }
        }
        if front.contains(page) {
            let k = choose|k: int| 0 <= k < front.len() && front[k] == page;
            assert(pages[k] == page);
        }
        if kept.contains(page) {
            let k = choose|k: int| 0 <= k < kept.len() && kept[k] == page;
            assert(all[k] == page);
        }
        if all.contains(page) {
            let k = choose|k: int| 0 <= k < all.len() && all[k] == page;
            if k < kept.len() {
                assert(kept[k] == page);
            }
        }
        if page == pages.last() {
            assert(pages[pages.len() - 1] == page);
            if sees(permissions, text::optional(page.required_permission)) {
                assert(all[all.len() - 1] == page);
            }
        }
    }
}

/// A plugin's page, as it is shown with its body as JSON.
pub fn runtime_page(page: PageDefinition, definition: String) -> (shown: ApplicationRuntimePage)
    ensures
        shown.id == page.id,
        shown.label == page.label,
        shown.icon == page.icon,
        shown.scene_id == page.scene.id,
        shown.scene_label == page.scene.label,
        model::menu_texts(shown.menu_path@) == model::menu_texts(page.menu_path@),
        shown.required_permission == page.required_permission,
        shown.definition == definition,
{
    ApplicationRuntimePage {
        id: page.id,
        label: page.label,
        icon: page.icon,
        scene_id: page.scene.id,
        scene_label: page.scene.label,
        menu_path: page.menu_path,
        required_permission: page.required_permission,
        definition,
    }
}

// Laws

/// An entry that asks for no permission is seen by everyone, and any other by those who have the
/// permission.
pub proof fn lemma_who_sees_an_entry(permissions: Seq<Seq<char>>, permission: Seq<char>)
    ensures
        sees(permissions, None),
        sees(permissions, Some(permission))
            <==> exists|i: int| 0 <= i < permissions.len()
            && #[trigger] permissions[i] == permission,
{
}

/// What is seen keeps its order, and nothing is shown twice or left out.
pub proof fn lemma_order_of_pages(pages: Seq<ApplicationPage>, last: ApplicationPage,
    permissions: Seq<Seq<char>>)
    ensures
        seen_pages(Seq::<ApplicationPage>::empty(), permissions).len() == 0,
        last.required_permission is None || permissions.contains(last.required_permission->0@)
            ==> seen_pages(pages.push(last), permissions)
            == seen_pages(pages, permissions).push(last),
        last.required_permission is Some && !permissions.contains(last.required_permission->0@)
            ==> seen_pages(pages.push(last), permissions) == seen_pages(pages, permissions),
{
    assert(pages.push(last).drop_last() =~= pages);
}

/// What is seen keeps its order, and nothing is shown twice or left out.
pub proof fn lemma_order_of_items(items: Seq<ApplicationAccountItem>,
    last: ApplicationAccountItem, permissions: Seq<Seq<char>>)
    ensures
        seen_items(Seq::<ApplicationAccountItem>::empty(), permissions).len() == 0,
        last.required_permission is None || permissions.contains(last.required_permission->0@)
            ==> seen_items(items.push(last), permissions)
            == seen_items(items, permissions).push(last),
        last.required_permission is Some && !permissions.contains(last.required_permission->0@)
            ==> seen_items(items.push(last), permissions) == seen_items(items, permissions),
{
    assert(items.push(last).drop_last() =~= items);
}

/// A plugin's entry of the account menu is shown as it is declared, leads to its page and is never
/// marked as destructive.
pub proof fn lemma_shown_item(item: RuntimeAccountItem)
    ensures
        shown_item(item).id == item.id,
        shown_item(item).label == item.label,
        shown_item(item).icon == item.icon,
        shown_item(item).page_id == Some(item.page_id),
        shown_item(item).required_permission == item.required_permission,
        !shown_item(item).destructive,
{
}

/// A workspace that was loaded shows the snapshot of whoever is logged in, and the login where no
/// one is.
pub proof fn lemma_what_a_loaded_workspace_shows<S>(loaded: LoadedApplication<S>)
    ensures
        loaded.snapshot is Some ==> loaded_view(loaded) is Shown
            && loaded_view(loaded)->Shown_0 == loaded.snapshot->0,
        loaded.snapshot is None ==> loaded_view(loaded) is Login,
{
}

/// What was loaded is shown; while nothing new could be loaded, what was loaded last stays, and
/// only a workspace that never loaded waits or tells the failure.
pub proof fn lemma_what_a_workspace_shows<S>(result: Option<Result<LoadedApplication<S>, String>>,
    last: Option<LoadedApplication<S>>, view: WorkspaceView<S>)
    requires
        shows(result, last, view),
    ensures
        result is Some && result->0 is Ok ==> view == loaded_view(result->0->Ok_0),
        !(result is Some && result->0 is Ok) && last is Some ==> view == loaded_view(last->0),
        result is None && last is None ==> view is Loading,
        result is Some && result->0 is Err && last is None
            ==> view is Alert && view->Alert_0 == result->0->Err_0,
{
}

/// A workspace loads anew once it was loaded, and whenever a change was announced.
pub proof fn lemma_when_a_workspace_loads_anew(finished: bool, reason: Option<&str>, yes: bool)
    requires
        loads_anew(finished, reason, yes),
    ensures
        finished ==> yes,
        reason is Some && reason->0@ == "invalidated"@ ==> yes,
        !finished && (reason is None || reason->0@ != "invalidated"@) ==> !yes,
{
}

} // verus!
