//! Which bundles may be published, and how components depend on one another.
use vstd::prelude::*;

use crate::outside;
use crate::text;

verus! {

/// The longest documentation of a published bundle, in bytes.
pub const MAX_README_BYTES: usize = 524288;

/// What is known of a bundle, and of its source, when it is to be published.
#[derive(Debug)]
pub struct Candidate {
    pub git: String,
    pub readme_bytes: usize,
    /// The parent that the bundle's marketplace entry names; absent without such an entry.
    pub marketplace: Option<Option<String>>,
    pub process: bool,
    /// The parent of the source, where it has been published before.
    pub known_parent: Option<Option<String>>,
    /// Whether the published version runs as a process, where there is one.
    pub published_process: Option<bool>,
    /// Whether the source is among the ancestors of its parent.
    pub cycle: bool,
}

/// Why a bundle is not published.
#[derive(Clone, Copy, Debug, PartialEq, Eq, Structural)]
pub enum PublishFault {
    ReadmeTooLong,
    MarketplaceMissing,
    OwnParent,
    ParentChanged,
    RuntimeChanged,
    ParentCycle,
}

/// Why a bundle is not published. The checks are made in this order.
pub open spec fn publish_fault(candidate: Candidate) -> Option<PublishFault> {
    let parent = text::optional(candidate.marketplace->0);
    if candidate.readme_bytes > MAX_README_BYTES {
        Some(PublishFault::ReadmeTooLong)
    } else if candidate.marketplace is None {
        Some(PublishFault::MarketplaceMissing)
    } else if parent == Some(candidate.git@) {
        Some(PublishFault::OwnParent)
    } else if candidate.known_parent is Some && text::optional(candidate.known_parent->0)
        != parent {
        Some(PublishFault::ParentChanged)
    } else if candidate.published_process is Some && candidate.published_process->0
        != candidate.process {
        Some(PublishFault::RuntimeChanged)
    } else if parent is Some && candidate.cycle {
        Some(PublishFault::ParentCycle)
    } else {
        None
    }
}

/// Decides whether a bundle may be published: it is documented briefly, belongs to a market,
/// keeps its parent and its runtime, and has no ancestor among its descendants.
pub fn publish(candidate: &Candidate) -> (outcome: Result<(), PublishFault>)
    ensures
        match outcome {
            Ok(()) => publish_fault(*candidate) is None,
            Err(fault) => publish_fault(*candidate) == Some(fault),
        },
{
    if candidate.readme_bytes > MAX_README_BYTES {
        return Err(PublishFault::ReadmeTooLong);
    }
    let parent = match &candidate.marketplace {
        Some(parent) => parent,
        None => return Err(PublishFault::MarketplaceMissing),
    };
    match parent {
        Some(parent) => {
            if text::same(parent.as_str(), candidate.git.as_str()) {
                return Err(PublishFault::OwnParent);
            }
        },
        None => {},
    }
    match &candidate.known_parent {
        Some(known) => {
            if !text::same_optional(known, parent) {
                return Err(PublishFault::ParentChanged);
            }
        },
        None => {},
    }
    match candidate.published_process {
        Some(published) => {
            if published != candidate.process {
                return Err(PublishFault::RuntimeChanged);
            }
        },
        None => {},
    }
    if parent.is_some() && candidate.cycle {
        return Err(PublishFault::ParentCycle);
    }
    Ok(())
}

/// The id of a source: the one under which it was published before, or a random one.
pub fn source_id(existing: Option<u128>) -> (source: u128)
    ensures
        match existing {
            Some(known) => source == known,
            None => outside::random_uuid(source),
        },
{
    match existing {
        Some(known) => known,
        None => outside::fresh_uuid(),
    }
}

/// The source that a text names, where it is the id of one that may be a component.
pub fn contains_source(source: &str) -> (id: Option<u128>)
    ensures
        match id {
            Some(id) => outside::uuid_value(source@) matches Ok(named) && named == id,
            None => outside::uuid_value(source@) is Err,
        },
{
    match outside::parse_uuid(source) {
        Ok(id) => Some(id),
        Err(_) => None,
    }
}

/// A published source keeps the parent and the runtime with which it was first published.
pub proof fn lemma_published_source_is_stable(candidate: Candidate)
    requires
        publish_fault(candidate) is None,
    ensures
        candidate.known_parent is Some ==> text::optional(candidate.known_parent->0)
            == text::optional(candidate.marketplace->0),
        candidate.published_process is Some ==> candidate.published_process->0
            == candidate.process,
        text::optional(candidate.marketplace->0) != Some(candidate.git@),
{
}

impl PublishFault {
    /// The text shown for the fault.
    pub open spec fn text(&self) -> Seq<char> {
        match self {
            PublishFault::ReadmeTooLong => "README 超过限制"@,
            PublishFault::MarketplaceMissing => "发布包必须声明 plugin.marketplace"@,
            PublishFault::OwnParent => "插件不能以自身为父插件"@,
            PublishFault::ParentChanged => "已发布来源不能改变父插件归属"@,
            PublishFault::RuntimeChanged => "已发布来源不能改变运行时类型"@,
            PublishFault::ParentCycle => "父子插件关系形成循环"@,
        }
    }

    /// The text shown for the fault.
    pub fn message(&self) -> (message: String)
        ensures
            message@ == self.text(),
    {
        let message = match self {
            PublishFault::ReadmeTooLong => "README 超过限制",
            PublishFault::MarketplaceMissing => "发布包必须声明 plugin.marketplace",
            PublishFault::OwnParent => "插件不能以自身为父插件",
            PublishFault::ParentChanged => "已发布来源不能改变父插件归属",
            PublishFault::RuntimeChanged => "已发布来源不能改变运行时类型",
            PublishFault::ParentCycle => "父子插件关系形成循环",
        };
        message.to_owned()
    }
}

/// Whether an outcome says that a component can stand on its parent.
pub open spec fn stands(parent: &Option<String>, installed: bool, outcome: Result<(),
    String>) -> bool {
    match outcome {
        Ok(()) => *parent is None || installed,
        Err(told) => *parent is Some && !installed && told@ == "请先安装并启用父插件: "@
            + parent->0@,
    }
}

/// Requires that the parent of a component, where it has one, is installed and enabled.
pub fn require_parent(parent: &Option<String>, installed: bool) -> (outcome: Result<(), String>)
    ensures
        stands(parent, installed, outcome),
{
    match parent {
        Some(parent) => {
            if !installed {
                return Err("请先安装并启用父插件: ".to_owned().concat(parent.as_str()));
            }
            Ok(())
        },
        None => Ok(()),
    }
}

/// Requires that no component that builds on this one is installed.
pub fn require_no_children(children: &Vec<String>) -> (outcome: Result<(), String>)
    ensures
        match outcome {
            Ok(()) => children@.len() == 0,
            Err(told) => children@.len() > 0 && told@ == "请先卸载子插件: "@ + text::joined(
                text::texts(children@),
                "、"@,
            ),
        },
{
    if children.is_empty() {
        return Ok(());
    }
    let names = text::join(children, "、");
    Err("请先卸载子插件: ".to_owned().concat(names.as_str()))
}

// Families

/// The version of a component that a tenant has installed.
#[derive(Clone, Debug)]
pub struct InstalledVersion {
    pub digest: String,
    pub enabled: bool,
}

/// A component and what a tenant has of it: its parent, its versions in the order in which they
/// came, the one that is published, and the one that is installed, with its title. The statements
/// that read and write the tables must agree with what is said of these rows here.
#[derive(Debug)]
pub struct ComponentRow {
    pub git: String,
    pub title: String,
    pub parent: Option<String>,
    pub versions: Vec<String>,
    pub published: Option<String>,
    pub installed: Option<InstalledVersion>,
}

/// The components and a tenant's other enabled plugins.
#[derive(Debug)]
pub struct Family {
    pub rows: Vec<ComponentRow>,
    pub plugins: Vec<String>,
}

/// What a row of the components holds.
#[verifier::ext_equal]
pub struct ComponentText {
    pub git: Seq<char>,
    pub title: Seq<char>,
    pub parent: Option<Seq<char>>,
    pub versions: Seq<Seq<char>>,
    pub published: Option<Seq<char>>,
    pub installed: Option<(Seq<char>, bool)>,
}

impl View for ComponentRow {
    type V = ComponentText;

    open spec fn view(&self) -> ComponentText {
        ComponentText {
            git: self.git@,
            title: self.title@,
            parent: text::optional(self.parent),
            versions: text::texts(self.versions@),
            published: text::optional(self.published),
            installed: match self.installed {
                Some(version) => Some((version.digest@, version.enabled)),
                None => None,
            },
        }
    }
}

/// What the rows hold.
pub open spec fn component_texts(rows: Seq<ComponentRow>) -> Seq<ComponentText> {
    rows.map_values(|row: ComponentRow| row@)
}

/// The addresses of the components, in order.
pub open spec fn component_gits(rows: Seq<ComponentText>) -> Seq<Seq<char>> {
    rows.map_values(|row: ComponentText| row.git)
}

/// Where a component stands; behind all rows where it is none.
pub open spec fn component_at(rows: Seq<ComponentText>, git: Seq<char>) -> int {
    text::first_index(component_gits(rows), git)
}

/// Whether a plugin is installed and enabled, as a component or otherwise.
pub open spec fn running(rows: Seq<ComponentText>, plugins: Seq<Seq<char>>,
    git: Seq<char>) -> bool {
    plugins.contains(git) || exists|i: int|
        0 <= i < rows.len() && (#[trigger] rows[i]).git == git && rows[i].installed is Some
            && (rows[i].installed->0).1
}

/// Whether a component is an installed child of a plugin.
pub open spec fn child_of(row: ComponentText, git: Seq<char>) -> bool {
    row.installed is Some && row.parent == Some(git)
}

/// The titles of the installed children of a plugin, in order.
pub open spec fn children(rows: Seq<ComponentText>, git: Seq<char>) -> Seq<Seq<char>>
    decreases rows.len(),
{
    if rows.len() == 0 {
        Seq::empty()
    } else {
        let earlier = children(rows.drop_last(), git);
        if child_of(rows.last(), git) {
            earlier.push(rows.last().title)
        } else {
            earlier
        }
    }
}

/// The version of a component that is asked for, where the component is published: that version, or
/// the one with the digest.
pub open spec fn wanted_version(row: ComponentText,
    digest: Option<Seq<char>>) -> Option<Seq<char>> {
    match row.published {
        None => None,
        Some(published) => {
            let wanted = match digest {
                Some(digest) => digest,
                None => published,
            };
            if row.versions.contains(wanted) {
                Some(wanted)
            } else {
                None
            }
        },
    }
}

/// The version that came before the installed one.
pub open spec fn earlier_version(row: ComponentText) -> Option<Seq<char>> {
    match row.installed {
        None => None,
        Some((digest, _)) => {
            let at = text::first_index(row.versions, digest);
            if 0 < at < row.versions.len() {
                Some(row.versions[at - 1])
            } else {
                None
            }
        },
    }
}

/// The rows after a component was installed, or what is told where it cannot be: it must be
/// published, and its parent, where it has one, must be installed and enabled.
pub open spec fn installation(
    rows: Seq<ComponentText>,
    plugins: Seq<Seq<char>>,
    git: Seq<char>,
    digest: Option<Seq<char>>,
) -> Result<Seq<ComponentText>, Seq<char>> {
    let at = component_at(rows, git);
    if at >= rows.len() || wanted_version(rows[at], digest) is None {
        Err("插件尚未发布"@)
    } else if rows[at].parent is Some && !running(rows, plugins, rows[at].parent->0) {
        Err("请先安装并启用父插件: "@ + rows[at].parent->0)
    } else {
        Ok(
            rows.update(
                at,
                ComponentText {
                    installed: Some((wanted_version(rows[at], digest)->0, true)),
                    ..rows[at]
                },
            ),
        )
    }
}

/// The rows after a component was disabled or uninstalled, or what is told where it cannot be: no
/// child of it may be installed.
pub open spec fn removal(rows: Seq<ComponentText>, git: Seq<char>, uninstall: bool) -> Result<
    Seq<ComponentText>,
    Seq<char>,
> {
    let at = component_at(rows, git);
    if children(rows, git).len() > 0 {
        Err("请先卸载子插件: "@ + text::joined(children(rows, git), "、"@))
    } else if at >= rows.len() || rows[at].installed is None {
        Err("当前租户未安装插件"@)
    } else {
        Ok(
            rows.update(
                at,
                ComponentText {
                    installed: if uninstall {
                        None
                    } else {
                        Some(((rows[at].installed->0).0, false))
                    },
                    ..rows[at]
                },
            ),
        )
    }
}

/// The rows after an action on an installed component, or what is told where it cannot be done.
pub open spec fn changed(
    rows: Seq<ComponentText>,
    plugins: Seq<Seq<char>>,
    git: Seq<char>,
    action: Seq<char>,
) -> Result<Seq<ComponentText>, Seq<char>> {
    let at = component_at(rows, git);
    if action == "enable"@ {
        if at >= rows.len() || rows[at].installed is None {
            Err("no rows returned by a query that expected to return at least one row"@)
        } else {
            installation(rows, plugins, git, None)
        }
    } else if action == "rollback"@ {
        if at >= rows.len() || earlier_version(rows[at]) is None {
            Err("没有可回滚的发布版本"@)
        } else {
            installation(rows, plugins, git, earlier_version(rows[at]))
        }
    } else if action == "disable"@ {
        removal(rows, git, false)
    } else if action == "uninstall"@ {
        removal(rows, git, true)
    } else {
        Err("未知管理操作"@)
    }
}

/// Whether a function changed a family as is due, or left it alone and told why.
pub open spec fn changes(
    outcome: Result<(), String>,
    before: Family,
    after: Family,
    due: Result<Seq<ComponentText>, Seq<char>>,
) -> bool {
    &&& after.plugins == before.plugins
    &&& match outcome {
        Ok(()) => due matches Ok(rows) && rows == component_texts(after.rows@),
        Err(told) => due matches Err(expected) && expected == told@ && after.rows@ == before.rows@,
    }
}

impl Family {
    /// Where a component stands.
    fn position(&self, git: &str) -> (at: usize)
        ensures
            at == component_at(component_texts(self.rows@), git@),
            at <= self.rows@.len(),
    {
        let ghost gits = component_gits(component_texts(self.rows@));
        let mut i: usize = 0;
        while i < self.rows.len()
            invariant
                i <= self.rows@.len(),
                gits == component_gits(component_texts(self.rows@)),
                forall|k: int| 0 <= k < i ==> gits[k] != git@,
            decreases self.rows@.len() - i,
        {
            if text::same(self.rows[i].git.as_str(), git) {
                proof {
                    text::lemma_first_index_is(gits, git@, i as int);
                }
                return i;
            }
            i += 1;
        }
        proof {
            text::lemma_first_index_is(gits, git@, i as int);
        }
        i
    }

    /// Whether a plugin is installed and enabled, as a component or otherwise.
    fn is_running(&self, git: &str) -> (yes: bool)
        ensures
            yes == running(component_texts(self.rows@), text::texts(self.plugins@), git@),
    {
        if text::holds(&self.plugins, git) {
            return true;
        }
        let ghost rows = component_texts(self.rows@);
        let mut i: usize = 0;
        while i < self.rows.len()
            invariant
                i <= self.rows@.len(),
                rows == component_texts(self.rows@),
                forall|k: int|
                    0 <= k < i ==> !((#[trigger] rows[k]).git == git@ && rows[k].installed is Some
                        && (rows[k].installed->0).1),
            decreases self.rows@.len() - i,
        {
            let row = &self.rows[i];
            assert(rows[i as int] == row@);
            let enabled = match &row.installed {
                Some(version) => version.enabled,
                None => false,
            };
            if enabled && text::same(row.git.as_str(), git) {
                return true;
            }
            i += 1;
        }
        false
    }

    /// The titles of the installed children of a plugin.
    fn titles(&self, git: &str) -> (titles: Vec<String>)
        ensures
            text::texts(titles@) == children(component_texts(self.rows@), git@),
    {
        let ghost rows = component_texts(self.rows@);
        let mut titles: Vec<String> = Vec::new();
        let mut i: usize = 0;
        assert(text::texts(titles@) =~= Seq::<Seq<char>>::empty());
        while i < self.rows.len()
            invariant
                i <= self.rows@.len(),
                rows == component_texts(self.rows@),
                text::texts(titles@) == children(rows.take(i as int), git@),
            decreases self.rows@.len() - i,
        {
            let row = &self.rows[i];
            let ghost earlier = text::texts(titles@);
            assert(rows.take(i as int + 1).drop_last() =~= rows.take(i as int));
            assert(rows.take(i as int + 1).last() == row@);
            let of_parent = match &row.parent {
                Some(parent) => text::same(parent.as_str(), git),
                None => false,
            };
            if of_parent && row.installed.is_some() {
                titles.push(row.title.clone());
                assert(text::texts(titles@) =~= earlier.push(row.title@));
            }
            i += 1;
        }
        assert(rows.take(i as int) =~= rows);
        titles
    }

    /// Checks that no child of a plugin is installed.
    pub fn check_childless(&self, git: &str) -> (outcome: Result<(), String>)
        ensures
            ({
                let titles = children(component_texts(self.rows@), git@);
                match outcome {
                    Ok(()) => titles.len() == 0,
                    Err(told) => titles.len() > 0 && told@ == "请先卸载子插件: "@ + text::joined(
                        titles,
                        "、"@,
                    ),
                }
            }),
    {
        let titles = self.titles(git);
        assert(text::texts(titles@).len() == titles@.len());
        require_no_children(&titles)
    }

    /// Installs a component: the published version, or the one with the digest.
    pub fn install(&mut self, git: &str, digest: Option<&str>) -> (outcome: Result<(), String>)
        ensures
            changes(
                outcome,
                *old(self),
                *final(self),
                installation(
                    component_texts(old(self).rows@),
                    text::texts(old(self).plugins@),
                    git@,
                    text::optional_str(digest),
                ),
            ),
    {
        let at = self.position(git);
        if at == self.rows.len() {
            return Err("插件尚未发布".to_owned());
        }
        let ghost rows = component_texts(self.rows@);
        assert(rows[at as int] == self.rows@[at as int]@);
        let published = match &self.rows[at].published {
            Some(published) => published.as_str(),
            None => return Err("插件尚未发布".to_owned()),
        };
        let wanted = match digest {
            Some(digest) => digest,
            None => published,
        };
        if !text::holds(&self.rows[at].versions, wanted) {
            return Err("插件尚未发布".to_owned());
        }
        let wanted = wanted.to_owned();
        let installed = match &self.rows[at].parent {
            Some(parent) => self.is_running(parent.as_str()),
            None => true,
        };
        match require_parent(&self.rows[at].parent, installed) {
            Ok(()) => {},
            Err(told) => return Err(told),
        }
        self.record(at, Some(InstalledVersion { digest: wanted, enabled: true }));
        Ok(())
    }

    /// Writes down what is installed of a component.
    fn record(&mut self, at: usize, installed: Option<InstalledVersion>)
        requires
            at < old(self).rows@.len(),
        ensures
            final(self).plugins == old(self).plugins,
            component_texts(final(self).rows@) == component_texts(old(self).rows@).update(
                at as int,
                ComponentText {
                    installed: match installed {
                        Some(version) => Some((version.digest@, version.enabled)),
                        None => None,
                    },
                    ..old(self).rows@[at as int]@
                },
            ),
    {
        let ghost rows = component_texts(self.rows@);
        let row = self.rows.remove(at);
        let ghost before = row@;
        let row = ComponentRow { installed, ..row };
        let ghost after = row@;
        self.rows.insert(at, row);
        assert(component_texts(self.rows@) =~= rows.update(at as int, after));
    }

    /// Disables or uninstalls a component.
    fn remove(&mut self, git: &str, uninstall: bool) -> (outcome: Result<(), String>)
        ensures
            changes(
                outcome,
                *old(self),
                *final(self),
                removal(component_texts(old(self).rows@), git@, uninstall),
            ),
    {
        match self.check_childless(git) {
            Ok(()) => {},
            Err(told) => return Err(told),
        }
        let at = self.position(git);
        if at == self.rows.len() {
            return Err("当前租户未安装插件".to_owned());
        }
        assert(component_texts(self.rows@)[at as int] == self.rows@[at as int]@);
        let digest = match &self.rows[at].installed {
            Some(version) => version.digest.clone(),
            None => return Err("当前租户未安装插件".to_owned()),
        };
        let rest = if uninstall {
            None
        } else {
            Some(InstalledVersion { digest, enabled: false })
        };
        self.record(at, rest);
        Ok(())
    }

    /// The version that came before the installed one of a component.
    #[verifier::loop_isolation(false)]
    pub fn earlier(&self, git: &str) -> (digest: Option<String>)
        ensures
            ({
                let rows = component_texts(self.rows@);
                let at = component_at(rows, git@);
                text::optional(digest) == if at < rows.len() {
                    earlier_version(rows[at])
                } else {
                    None
                }
            }),
    {
        let at = self.position(git);
        if at == self.rows.len() {
            return None;
        }
        let row = &self.rows[at];
        assert(component_texts(self.rows@)[at as int] == row@);
        let current = match &row.installed {
            Some(version) => version.digest.as_str(),
            None => return None,
        };
        let ghost versions = text::texts(row.versions@);
        let mut i: usize = 0;
        while i < row.versions.len()
            invariant
                i <= row.versions@.len(),
                versions == text::texts(row.versions@),
                forall|k: int| 0 <= k < i ==> versions[k] != current@,
            decreases row.versions@.len() - i,
        {
            if text::same(row.versions[i].as_str(), current) {
                proof {
                    text::lemma_first_index_is(versions, current@, i as int);
                }
                if i == 0 {
                    return None;
                }
                assert(versions[i - 1] == row.versions@[i - 1]@);
                return Some(row.versions[i - 1].clone());
            }
            i += 1;
        }
        proof {
            text::lemma_first_index_is(versions, current@, i as int);
        }
        None
    }

    /// Carries out an action on an installed component.
    pub fn change(&mut self, git: &str, action: &str) -> (outcome: Result<(), String>)
        ensures
            changes(
                outcome,
                *old(self),
                *final(self),
                changed(
                    component_texts(old(self).rows@),
                    text::texts(old(self).plugins@),
                    git@,
                    action@,
                ),
            ),
    {
        if text::same(action, "enable") {
            let at = self.position(git);
            if at == self.rows.len() || self.rows[at].installed.is_none() {
                assert(at < self.rows@.len() ==> component_texts(self.rows@)[at as int]
                    == self.rows@[at as int]@);
                return Err(
                    "no rows returned by a query that expected to return at least one row".to_owned(),
                );
            }
            assert(component_texts(self.rows@)[at as int] == self.rows@[at as int]@);
            return self.install(git, None);
        }
        if text::same(action, "rollback") {
            return match self.earlier(git) {
                Some(digest) => self.install(git, Some(digest.as_str())),
                None => Err("没有可回滚的发布版本".to_owned()),
            };
        }
        if text::same(action, "disable") {
            return self.remove(git, false);
        }
        if text::same(action, "uninstall") {
            return self.remove(git, true);
        }
        Err("未知管理操作".to_owned())
    }
}

// Laws of families

/// Whether every installed component has its parent, installed and enabled.
pub open spec fn whole(rows: Seq<ComponentText>, plugins: Seq<Seq<char>>) -> bool {
    forall|i: int|
        0 <= i < rows.len() && (#[trigger] rows[i]).installed is Some && rows[i].parent is Some
            ==> running(rows, plugins, rows[i].parent->0)
}

/// Whether no two rows are of one component.
pub open spec fn distinct_components(rows: Seq<ComponentText>) -> bool {
    component_gits(rows).no_duplicates()
}

proof fn lemma_children(rows: Seq<ComponentText>, git: Seq<char>)
    ensures
        children(rows, git).len() > 0 <==> exists|i: int|
            0 <= i < rows.len() && child_of(#[trigger] rows[i], git),
    decreases rows.len(),
{
    if rows.len() > 0 {
        let front = rows.drop_last();
        lemma_children(front, git);
        if exists|i: int| 0 <= i < front.len() && child_of(#[trigger] front[i], git) {
            let i = choose|i: int| 0 <= i < front.len() && child_of(#[trigger] front[i], git);
            assert(child_of(rows[i], git));
        }
        if exists|i: int| 0 <= i < rows.len() && child_of(#[trigger] rows[i], git) {
            let i = choose|i: int| 0 <= i < rows.len() && child_of(#[trigger] rows[i], git);
            if i < front.len() {
                assert(child_of(front[i], git));
            } else {
                assert(child_of(rows.last(), git));
            }
        }
        if child_of(rows.last(), git) {
            assert(child_of(rows[rows.len() - 1], git));
        }
    }
}

proof fn lemma_component_at(rows: Seq<ComponentText>, at: int)
    requires
        distinct_components(rows),
        0 <= at < rows.len(),
    ensures
        component_at(rows, rows[at].git) == at,
{
    assert forall|k: int| 0 <= k < at implies component_gits(rows)[k] != rows[at].git by {
        assert(component_gits(rows)[at] == rows[at].git);
    }
    text::lemma_first_index_is(component_gits(rows), rows[at].git, at);
}

proof fn lemma_install_keeps_whole(
    rows: Seq<ComponentText>,
    plugins: Seq<Seq<char>>,
    git: Seq<char>,
    digest: Option<Seq<char>>,
)
    requires
        whole(rows, plugins),
    ensures
        installation(rows, plugins, git, digest) matches Ok(after) ==> whole(after, plugins),
{
    if let Ok(after) = installation(rows, plugins, git, digest) {
        let at = component_at(rows, git);
        text::lemma_first_index(component_gits(rows), git);
        assert forall|other: Seq<char>| running(rows, plugins, other) implies #[trigger] running(
            after,
            plugins,
            other,
        ) by {
            if !plugins.contains(other) {
                let k = choose|k: int|
                    0 <= k < rows.len() && (#[trigger] rows[k]).git == other
                        && rows[k].installed is Some && (rows[k].installed->0).1;
                assert(after[k].git == other && after[k].installed is Some
                    && (after[k].installed->0).1);
            }
        }
        assert forall|i: int|
            0 <= i < after.len() && (#[trigger] after[i]).installed is Some
                && after[i].parent is Some implies running(after, plugins, after[i].parent->0) by {
            if i != at {
                assert(rows[i].installed is Some);
            }
            assert(running(rows, plugins, rows[i].parent->0));
        }
    }
}

proof fn lemma_removal_keeps_whole(
    rows: Seq<ComponentText>,
    plugins: Seq<Seq<char>>,
    git: Seq<char>,
    uninstall: bool,
)
    requires
        whole(rows, plugins),
    ensures
        removal(rows, git, uninstall) matches Ok(after) ==> whole(after, plugins),
{
    if let Ok(after) = removal(rows, git, uninstall) {
        let at = component_at(rows, git);
        text::lemma_first_index(component_gits(rows), git);
        lemma_children(rows, git);
        assert(component_gits(rows)[at] == git);
        assert forall|i: int|
            0 <= i < after.len() && (#[trigger] after[i]).installed is Some
                && after[i].parent is Some implies running(after, plugins, after[i].parent->0) by {
            let wanted = after[i].parent->0;
            assert(rows[i].installed is Some);
            assert(running(rows, plugins, wanted));
            assert(!child_of(rows[i], git));
            if !plugins.contains(wanted) {
                let k = choose|k: int|
                    0 <= k < rows.len() && (#[trigger] rows[k]).git == wanted
                        && rows[k].installed is Some && (rows[k].installed->0).1;
                assert(k != at);
                assert(after[k] == rows[k]);
            }
        }
    }
}

/// Whatever is installed, updated, brought back to an earlier version, enabled, disabled or
/// uninstalled, every installed component keeps its parent.
pub proof fn lemma_families_stay_whole(
    rows: Seq<ComponentText>,
    plugins: Seq<Seq<char>>,
    git: Seq<char>,
    digest: Option<Seq<char>>,
    action: Seq<char>,
)
    requires
        whole(rows, plugins),
    ensures
        installation(rows, plugins, git, digest) matches Ok(after) ==> whole(after, plugins),
        changed(rows, plugins, git, action) matches Ok(after) ==> whole(after, plugins),
{
    lemma_install_keeps_whole(rows, plugins, git, digest);
    lemma_install_keeps_whole(rows, plugins, git, None);
    let at = component_at(rows, git);
    if at < rows.len() {
        lemma_install_keeps_whole(rows, plugins, git, earlier_version(rows[at]));
    }
    lemma_removal_keeps_whole(rows, plugins, git, true);
    lemma_removal_keeps_whole(rows, plugins, git, false);
}

/// While a child is installed, its parent can be neither disabled nor uninstalled; and an action
/// that is none is refused.
pub proof fn lemma_parent_stays_while_child_is_there(
    rows: Seq<ComponentText>,
    plugins: Seq<Seq<char>>,
    child: int,
    action: Seq<char>,
)
    requires
        0 <= child < rows.len(),
        rows[child].installed is Some,
        rows[child].parent is Some,
    ensures
        changed(rows, plugins, rows[child].parent->0, "disable"@) is Err,
        changed(rows, plugins, rows[child].parent->0, "uninstall"@) is Err,
        action != "enable"@ && action != "rollback"@ && action != "disable"@ && action
            != "uninstall"@ ==> changed(rows, plugins, rows[child].parent->0, action) is Err,
{
    let parent = rows[child].parent->0;
    assert(child_of(rows[child], parent));
    lemma_children(rows, parent);
    lemma_actions_differ();
}

proof fn lemma_actions_differ()
    ensures
        "enable"@ != "rollback"@,
        "enable"@ != "disable"@,
        "enable"@ != "uninstall"@,
        "rollback"@ != "disable"@,
        "rollback"@ != "uninstall"@,
        "disable"@ != "uninstall"@,
{
    reveal_strlit("enable");
    reveal_strlit("rollback");
    reveal_strlit("disable");
    reveal_strlit("uninstall");
    assert("enable"@[0] == 'e');
    assert("rollback"@[0] == 'r');
    assert("disable"@[0] == 'd');
    assert("uninstall"@[0] == 'u');
}

/// The life of a parent and its child. The child cannot be installed first. The parent is
/// installed, then the child, and then the parent at a version that was published since. The parent
/// can be brought back to its first version; once the child is uninstalled, it can be uninstalled,
/// too.
pub proof fn lemma_life_of_parent_and_child(
    rows: Seq<ComponentText>,
    plugins: Seq<Seq<char>>,
    parent: int,
    child: int,
    second: Seq<char>,
)
    requires
        distinct_components(rows),
        0 <= parent < rows.len(),
        0 <= child < rows.len(),
        parent != child,
        rows[parent].parent is None,
        rows[child].parent == Some(rows[parent].git),
        rows[parent].installed is None,
        rows[child].installed is None,
        rows[parent].versions.len() > 0,
        rows[parent].published == Some(rows[parent].versions.last()),
        wanted_version(rows[child], None) is Some,
        rows[parent].versions.push(second).no_duplicates(),
        !plugins.contains(rows[parent].git),
        forall|i: int|
            0 <= i < rows.len() && i != child ==> (#[trigger] rows[i]).parent != Some(
                rows[parent].git,
            ),
        forall|i: int| 0 <= i < rows.len() ==> (#[trigger] rows[i]).parent != Some(rows[child].git),
    ensures
        ({
            let upper = rows[parent].git;
            let lower = rows[child].git;
            let first = rows[parent].versions.last();
            let one = installation(rows, plugins, upper, None)->Ok_0;
            let two = installation(one, plugins, lower, None)->Ok_0;
            let published = two.update(
                parent,
                ComponentText {
                    versions: two[parent].versions.push(second),
                    published: Some(second),
                    ..two[parent]
                },
            );
            let three = installation(published, plugins, upper, None)->Ok_0;
            let back = changed(three, plugins, upper, "rollback"@)->Ok_0;
            let alone = changed(back, plugins, lower, "uninstall"@)->Ok_0;
            let none = changed(alone, plugins, upper, "uninstall"@)->Ok_0;
            &&& installation(rows, plugins, lower, None) is Err
            &&& installation(rows, plugins, upper, None) is Ok
            &&& one[parent].installed == Some((first, true))
            &&& installation(one, plugins, lower, None) is Ok
            &&& installation(published, plugins, upper, None) is Ok
            &&& three[parent].installed == Some((second, true))
            &&& changed(three, plugins, upper, "disable"@) is Err
            &&& changed(three, plugins, upper, "uninstall"@) is Err
            &&& changed(three, plugins, upper, "rollback"@) is Ok
            &&& back[parent].installed == Some((first, true))
            &&& changed(back, plugins, upper, "uninstall"@) is Err
            &&& changed(back, plugins, lower, "uninstall"@) is Ok
            &&& alone[child].installed is None
            &&& changed(alone, plugins, upper, "uninstall"@) is Ok
            &&& none[parent].installed is None
        }),
{
    let upper = rows[parent].git;
    let lower = rows[child].git;
    let first = rows[parent].versions.last();
    lemma_actions_differ();
    lemma_component_at(rows, parent);
    lemma_component_at(rows, child);
    assert(!running(rows, plugins, upper)) by {
        assert forall|i: int| 0 <= i < rows.len() && (#[trigger] rows[i]).git == upper implies
            rows[i].installed is None by {
            assert(component_gits(rows)[i] == component_gits(rows)[parent]);
        }
    }
    assert(rows[parent].versions.contains(first));
    let one = installation(rows, plugins, upper, None)->Ok_0;
    assert(component_gits(one) =~= component_gits(rows));
    assert(one[parent].git == upper && one[parent].installed is Some
        && (one[parent].installed->0).1);
    assert(running(one, plugins, upper));
    let two = installation(one, plugins, lower, None)->Ok_0;
    assert(component_gits(two) =~= component_gits(rows));
    let published = two.update(
        parent,
        ComponentText {
            versions: two[parent].versions.push(second),
            published: Some(second),
            ..two[parent]
        },
    );
    assert(component_gits(published) =~= component_gits(rows));
    assert(published[parent].versions.last() == second);
    assert(published[parent].versions.contains(second));
    let three = installation(published, plugins, upper, None)->Ok_0;
    assert(component_gits(three) =~= component_gits(rows));
    lemma_parent_stays_while_child_is_there(three, plugins, child, ""@);
    let versions = rows[parent].versions.push(second);
    let last = rows[parent].versions.len() as int;
    assert(three[parent].versions == versions);
    text::lemma_first_index_is(versions, second, last);
    assert(versions[last - 1] == first);
    assert(versions.contains(first));
    assert(earlier_version(three[parent]) == Some(first));
    let back = changed(three, plugins, upper, "rollback"@)->Ok_0;
    assert(component_gits(back) =~= component_gits(rows));
    lemma_parent_stays_while_child_is_there(back, plugins, child, ""@);
    lemma_children(back, lower);
    assert forall|i: int| 0 <= i < back.len() implies !child_of(#[trigger] back[i], lower) by {
        assert(rows[i].parent != Some(lower));
    }
    let alone = changed(back, plugins, lower, "uninstall"@)->Ok_0;
    assert(component_gits(alone) =~= component_gits(rows));
    lemma_children(alone, upper);
    assert forall|i: int| 0 <= i < alone.len() implies !child_of(#[trigger] alone[i], upper) by {
        if i != child {
            assert(rows[i].parent != Some(upper));
        }
    }
}

proof fn lemma_rows_are_seen(rows: Seq<ComponentRow>, git: Seq<char>, at: int)
    requires
        0 <= at < rows.len(),
        rows[at].git@ == git,
        forall|i: int, j: int|
            0 <= i < rows.len() && 0 <= j < rows.len() && i != j ==> (#[trigger] rows[i]).git@ != (
            #[trigger] rows[j]).git@,
    ensures
        component_at(component_texts(rows), git) == at,
        distinct_components(component_texts(rows)),
        forall|i: int| 0 <= i < rows.len() ==> component_texts(rows)[i] == (#[trigger] rows[i])@,
{
    let seen = component_texts(rows);
    assert forall|i: int, j: int|
        0 <= i < seen.len() && 0 <= j < seen.len() && i != j implies component_gits(seen)[i]
        != component_gits(seen)[j] by {
        assert(rows[i].git@ != rows[j].git@);
    }
    assert(seen[at] == rows[at]@);
    lemma_component_at(seen, at);
}

/// Whether a plugin runs for a tenant: some row of it is installed and enabled, or it is installed
/// otherwise.
spec fn runs_for(family: Family, git: Seq<char>) -> bool {
    ||| exists|k: int| 0 <= k < family.plugins@.len() && (#[trigger] family.plugins@[k])@ == git
    ||| exists|k: int|
        0 <= k < family.rows@.len() && (#[trigger] family.rows@[k]).git@ == git
            && family.rows@[k].installed is Some && family.rows@[k].installed->0.enabled
}

proof fn lemma_runs_for(family: Family, git: Seq<char>)
    ensures
        runs_for(family, git) == running(
            component_texts(family.rows@),
            text::texts(family.plugins@),
            git,
        ),
{
    let rows = component_texts(family.rows@);
    let plugins = text::texts(family.plugins@);
    assert forall|k: int| 0 <= k < rows.len() implies #[trigger] rows[k] == family.rows@[k]@ by {}
    if plugins.contains(git) {
        let k = choose|k: int| 0 <= k < plugins.len() && plugins[k] == git;
        assert(family.plugins@[k]@ == git);
    }
    if exists|k: int| 0 <= k < family.plugins@.len() && (#[trigger] family.plugins@[k])@ == git {
        let k = choose|k: int|
            0 <= k < family.plugins@.len() && (#[trigger] family.plugins@[k])@ == git;
        assert(plugins[k] == git);
    }
    if exists|k: int|
        0 <= k < rows.len() && (#[trigger] rows[k]).git == git && rows[k].installed is Some && (
        rows[k].installed->0).1 {
        let k = choose|k: int|
            0 <= k < rows.len() && (#[trigger] rows[k]).git == git && rows[k].installed is Some && (
            rows[k].installed->0).1;
        assert(family.rows@[k].git@ == git && family.rows@[k].installed->0.enabled);
    }
    if exists|k: int|
        0 <= k < family.rows@.len() && (#[trigger] family.rows@[k]).git@ == git
            && family.rows@[k].installed is Some && family.rows@[k].installed->0.enabled {
        let k = choose|k: int|
            0 <= k < family.rows@.len() && (#[trigger] family.rows@[k]).git@ == git
                && family.rows@[k].installed is Some && family.rows@[k].installed->0.enabled;
        assert(rows[k].git == git && (rows[k].installed->0).1);
    }
}

/// An installation that succeeds puts in place exactly the version that was asked for, or the
/// published one where none was named, whatever was installed before, and enables it. It succeeds
/// if and only if the component is published, it has that version, and its parent, where it has
/// one, runs for the tenant. Nothing else changes, and a refused installation changes nothing.
pub proof fn lemma_install_puts_the_asked_version_in_place(
    before: Family,
    after: Family,
    git: Seq<char>,
    digest: Option<Seq<char>>,
    outcome: Result<(), String>,
    at: int,
)
    requires
        changes(
            outcome,
            before,
            after,
            installation(component_texts(before.rows@), text::texts(before.plugins@), git, digest),
        ),
        0 <= at < before.rows@.len(),
        before.rows@[at].git@ == git,
        forall|i: int, j: int|
            0 <= i < before.rows@.len() && 0 <= j < before.rows@.len() && i != j ==> (
            #[trigger] before.rows@[i]).git@ != (#[trigger] before.rows@[j]).git@,
    ensures
        after.plugins == before.plugins,
        after.rows@.len() == before.rows@.len(),
        outcome is Err ==> after.rows@ == before.rows@,
        forall|k: int|
            0 <= k < before.rows@.len() ==> (#[trigger] after.rows@[k]).git@ == before.rows@[k].git@
                && after.rows@[k].title@ == before.rows@[k].title@ && text::optional(
                after.rows@[k].parent,
            ) == text::optional(before.rows@[k].parent) && text::texts(after.rows@[k].versions@)
                == text::texts(before.rows@[k].versions@) && text::optional(
                after.rows@[k].published,
            ) == text::optional(before.rows@[k].published),
        forall|k: int|
            0 <= k < before.rows@.len() && k != at ==> (#[trigger] after.rows@[k]).installed is Some
                == before.rows@[k].installed is Some && (before.rows@[k].installed is Some
                ==> after.rows@[k].installed->0.digest@ == before.rows@[k].installed->0.digest@
                && after.rows@[k].installed->0.enabled == before.rows@[k].installed->0.enabled),
        outcome is Ok ==> after.rows@[at].installed is Some
            && after.rows@[at].installed->0.enabled && (digest is Some
            ==> after.rows@[at].installed->0.digest@ == digest->0) && (digest is None
            ==> before.rows@[at].published is Some && after.rows@[at].installed->0.digest@
            == before.rows@[at].published->0@),
        ({
            let wanted = if digest is Some {
                digest->0
            } else {
                before.rows@[at].published->0@
            };
            let offered = before.rows@[at].published is Some && exists|v: int|
                0 <= v < before.rows@[at].versions@.len() && (
                #[trigger] before.rows@[at].versions@[v])@ == wanted;
            let parent = before.rows@[at].parent;
            &&& outcome is Ok <==> offered && (parent is Some ==> ((exists|k: int|
                0 <= k < before.plugins@.len() && (#[trigger] before.plugins@[k])@ == parent->0@)
                || (exists|k: int|
                0 <= k < before.rows@.len() && (#[trigger] before.rows@[k]).git@ == parent->0@
                    && before.rows@[k].installed is Some
                    && before.rows@[k].installed->0.enabled)))
            &&& !offered ==> outcome->Err_0@ == "插件尚未发布"@
            &&& offered && outcome is Err ==> outcome->Err_0@ == "请先安装并启用父插件: "@
                + parent->0@
        }),
{
    let rows = component_texts(before.rows@);
    let plugins = text::texts(before.plugins@);
    lemma_rows_are_seen(before.rows@, git, at);
    let row = before.rows@[at];
    assert(rows[at] == row@);
    if row.parent is Some {
        lemma_runs_for(before, row.parent->0@);
    }
    let wanted = if digest is Some {
        digest->0
    } else {
        row.published->0@
    };
    let versions = text::texts(row.versions@);
    if versions.contains(wanted) {
        let v = choose|v: int| 0 <= v < versions.len() && versions[v] == wanted;
        assert(row.versions@[v]@ == wanted);
    }
    if exists|v: int| 0 <= v < row.versions@.len() && (#[trigger] row.versions@[v])@ == wanted {
        let v = choose|v: int| 0 <= v < row.versions@.len()
            && (#[trigger] row.versions@[v])@ == wanted;
        assert(versions[v] == wanted);
    }
    let seen = component_texts(after.rows@);
    assert(seen.len() == after.rows@.len());
    assert forall|k: int| 0 <= k < after.rows@.len() implies seen[k] == (
    #[trigger] after.rows@[k])@ by {}
    if outcome is Ok {
        assert(seen == installation(rows, plugins, git, digest)->Ok_0);
        assert forall|k: int| 0 <= k < rows.len()
            && k != at implies #[trigger] seen[k] == rows[k] by {}
    }
}

/// A change of an installed component does what its name says. Disabling keeps the version and
/// turns it off, uninstalling removes it, both only where no installed component has this one for
/// its parent. Rolling back installs the version that came just before the installed one. Enabling
/// installs the published version. Any other action is refused; whatever is refused changes
/// nothing.
pub proof fn lemma_change_does_what_its_name_says(
    before: Family,
    after: Family,
    git: Seq<char>,
    action: Seq<char>,
    outcome: Result<(), String>,
    at: int,
    v: int,
)
    requires
        changes(
            outcome,
            before,
            after,
            changed(component_texts(before.rows@), text::texts(before.plugins@), git, action),
        ),
        0 <= at < before.rows@.len(),
        before.rows@[at].git@ == git,
        forall|i: int, j: int|
            0 <= i < before.rows@.len() && 0 <= j < before.rows@.len() && i != j ==> (
            #[trigger] before.rows@[i]).git@ != (#[trigger] before.rows@[j]).git@,
        before.rows@[at].installed is Some,
        0 <= v < before.rows@[at].versions@.len(),
        before.rows@[at].versions@[v]@ == before.rows@[at].installed->0.digest@,
        forall|i: int, j: int|
            0 <= i < before.rows@[at].versions@.len() && 0 <= j < before.rows@[at].versions@.len()
                && i != j ==> (#[trigger] before.rows@[at].versions@[i])@ != (
            #[trigger] before.rows@[at].versions@[j])@,
    ensures
        after.plugins == before.plugins,
        after.rows@.len() == before.rows@.len(),
        outcome is Err ==> after.rows@ == before.rows@,
        forall|k: int|
            0 <= k < before.rows@.len() && k != at ==> (#[trigger] after.rows@[k])@
                == before.rows@[k]@,
        ({
            let row = before.rows@[at];
            let installed = row.installed->0;
            let childless = forall|k: int|
                0 <= k < before.rows@.len() && (#[trigger] before.rows@[k]).installed is Some ==> !(
                before.rows@[k].parent is Some && before.rows@[k].parent->0@ == git);
            let parented = row.parent is None || ((exists|k: int|
                0 <= k < before.plugins@.len()
                    && (#[trigger] before.plugins@[k])@ == row.parent->0@)
                || (exists|k: int|
                0 <= k < before.rows@.len() && (#[trigger] before.rows@[k]).git@ == row.parent->0@
                    && before.rows@[k].installed is Some
                    && before.rows@[k].installed->0.enabled));
            let now = after.rows@[at].installed;
            &&& action == "disable"@ ==> (outcome is Ok <==> childless) && (outcome is Ok
                ==> now is Some && now->0.digest@ == installed.digest@ && !now->0.enabled)
            &&& action == "uninstall"@ ==> (outcome is Ok <==> childless) && (outcome is Ok
                ==> now is None)
            &&& action == "rollback"@ ==> (outcome is Ok <==> v > 0 && row.published is Some
                && parented) && (outcome is Ok ==> now is Some && now->0.enabled
                && now->0.digest@ == row.versions@[v - 1]@) && (v == 0 ==> outcome->Err_0@
                == "没有可回滚的发布版本"@)
            &&& action == "enable"@ && outcome is Ok ==> row.published is Some && parented
                && now is Some && now->0.enabled && now->0.digest@ == row.published->0@
            &&& action == "enable"@ && row.published is Some && parented && (exists|k: int|
                0 <= k < row.versions@.len() && (#[trigger] row.versions@[k])@
                    == row.published->0@) ==> outcome is Ok
            &&& action != "enable"@ && action != "rollback"@ && action != "disable"@ && action
                != "uninstall"@ ==> outcome is Err && outcome->Err_0@ == "未知管理操作"@
        }),
{
    let rows = component_texts(before.rows@);
    lemma_rows_are_seen(before.rows@, git, at);
    lemma_actions_differ();
    let row = before.rows@[at];
    assert(rows[at] == row@);
    if row.parent is Some {
        lemma_runs_for(before, row.parent->0@);
    }
    let versions = text::texts(row.versions@);
    assert forall|k: int| 0 <= k < versions.len() implies versions[k] == (
    #[trigger] row.versions@[k])@ by {}
    assert forall|k: int| 0 <= k < v implies versions[k] != row.installed->0.digest@ by {
        assert(row.versions@[k]@ != row.versions@[v]@);
    }
    assert(versions[v] == row.versions@[v]@);
    text::lemma_first_index_is(versions, row.installed->0.digest@, v);
    if v > 0 {
        assert(versions[v - 1] == row.versions@[v - 1]@);
        assert(versions.contains(versions[v - 1]));
    }
    if row.published is Some && exists|k: int|
        0 <= k < row.versions@.len() && (#[trigger] row.versions@[k])@ == row.published->0@ {
        let k = choose|k: int|
            0 <= k < row.versions@.len() && (#[trigger] row.versions@[k])@ == row.published->0@;
        assert(versions[k] == row.published->0@);
        assert(versions.contains(row.published->0@));
    }
    lemma_children(rows, git);
    if exists|k: int| 0 <= k < rows.len() && child_of(#[trigger] rows[k], git) {
        let k = choose|k: int| 0 <= k < rows.len() && child_of(#[trigger] rows[k], git);
        assert(rows[k] == before.rows@[k]@);
        assert(before.rows@[k].installed is Some);
    }
    if exists|k: int|
        0 <= k < before.rows@.len() && (#[trigger] before.rows@[k]).installed is Some
            && before.rows@[k].parent is Some && before.rows@[k].parent->0@ == git {
        let k = choose|k: int|
            0 <= k < before.rows@.len() && (#[trigger] before.rows@[k]).installed is Some
                && before.rows@[k].parent is Some && before.rows@[k].parent->0@ == git;
        assert(child_of(rows[k], git));
    }
    let seen = component_texts(after.rows@);
    assert(seen.len() == after.rows@.len());
    assert forall|k: int| 0 <= k < after.rows@.len() implies seen[k] == (
    #[trigger] after.rows@[k])@ by {}
    if outcome is Ok {
        assert forall|k: int| 0 <= k < rows.len()
            && k != at implies #[trigger] seen[k] == rows[k] by {}
    }
}

/// What is refused is told with its reason: a component that is not listed cannot be installed,
/// changed or removed, one that is not installed can neither be enabled nor removed, and the
/// installed children of a component are named, each by its title and in order.
pub proof fn lemma_refusals_of_changes(
    rows: Seq<ComponentText>,
    plugins: Seq<Seq<char>>,
    git: Seq<char>,
    digest: Option<Seq<char>>,
)
    requires
        forall|i: int|
            0 <= i < rows.len() && (#[trigger] rows[i]).git == git ==> rows[i].installed is None,
    ensures
        (forall|i: int| 0 <= i < rows.len() ==> (#[trigger] rows[i]).git != git) ==> installation(
            rows,
            plugins,
            git,
            digest,
        ) == Err::<Seq<ComponentText>, Seq<char>>("插件尚未发布"@),
        changed(rows, plugins, git, "enable"@) is Err,
        changed(rows, plugins, git, "rollback"@) == Err::<Seq<ComponentText>, Seq<char>>(
            "没有可回滚的发布版本"@,
        ),
        changed(rows, plugins, git, "disable"@) is Err,
        changed(rows, plugins, git, "uninstall"@) is Err,
        (forall|i: int|
            0 <= i < rows.len() && (#[trigger] rows[i]).installed is Some
                ==> rows[i].parent != Some(
                git,
            )) ==> changed(rows, plugins, git, "uninstall"@) == Err::<
            Seq<ComponentText>,
            Seq<char>,
        >("当前租户未安装插件"@),
{
    lemma_actions_differ();
    text::lemma_first_index(component_gits(rows), git);
    let at = component_at(rows, git);
    if at < rows.len() {
        assert(component_gits(rows)[at] == rows[at].git);
    }
    lemma_children(rows, git);
}

/// The installed children of a component are named in the order of the rows, each by its title.
pub proof fn lemma_children_are_named(rows: Seq<ComponentText>, row: ComponentText, git: Seq<char>)
    ensures
        children(Seq::empty(), git) == Seq::<Seq<char>>::empty(),
        row.installed is Some && row.parent == Some(git) ==> children(rows.push(row), git)
            == children(rows, git).push(row.title),
        row.installed is None || row.parent != Some(git) ==> children(rows.push(row), git)
            == children(rows, git),
        children(rows, git).len() > 0 ==> changed(rows, Seq::empty(), git, "uninstall"@) == Err::<
            Seq<ComponentText>,
            Seq<char>,
        >("请先卸载子插件: "@ + text::joined(children(rows, git), "、"@)),
{
    assert(rows.push(row).drop_last() =~= rows);
    lemma_actions_differ();
}

/// Each of these is told in its own words.
pub proof fn lemma_told_publish_fault(fault: PublishFault)
    ensures
        fault is ReadmeTooLong ==> fault.text() == "README 超过限制"@,
        fault is MarketplaceMissing ==> fault.text() == "发布包必须声明 plugin.marketplace"@,
        fault is OwnParent ==> fault.text() == "插件不能以自身为父插件"@,
        fault is ParentChanged ==> fault.text() == "已发布来源不能改变父插件归属"@,
        fault is RuntimeChanged ==> fault.text() == "已发布来源不能改变运行时类型"@,
        fault is ParentCycle ==> fault.text() == "父子插件关系形成循环"@,
{
}

/// A bundle is published where it is documented briefly, belongs to a market, keeps its parent and
/// its runtime, and is not among its own ancestors. What is told is the first thing that is wrong.
pub proof fn lemma_which_bundles_are_published(candidate: Candidate)
    ensures
        ({
            let fault = publish_fault(candidate);
            let brief = candidate.readme_bytes <= MAX_README_BYTES;
            let offered = brief && candidate.marketplace is Some;
            let parent = text::optional(candidate.marketplace->0);
            let foreign = offered && (parent is None || parent->0 != candidate.git@);
            let same_parent = candidate.known_parent is None
                || text::optional(candidate.known_parent->0) == parent;
            let same_runtime = candidate.published_process is None
                || candidate.published_process->0 == candidate.process;
            &&& !brief ==> fault == Some(PublishFault::ReadmeTooLong)
            &&& brief && candidate.marketplace is None
                ==> fault == Some(PublishFault::MarketplaceMissing)
            &&& offered && !foreign ==> fault == Some(PublishFault::OwnParent)
            &&& foreign && !same_parent ==> fault == Some(PublishFault::ParentChanged)
            &&& foreign && same_parent && !same_runtime
                ==> fault == Some(PublishFault::RuntimeChanged)
            &&& foreign && same_parent && same_runtime && parent is Some && candidate.cycle
                ==> fault == Some(PublishFault::ParentCycle)
            &&& foreign && same_parent && same_runtime && (parent is None || !candidate.cycle)
                ==> fault is None
        }),
{
}

/// Two rows that hold the same agree in every column.
pub proof fn lemma_what_a_row_holds(row: ComponentRow, other: ComponentRow)
    requires
        row@ == other@,
    ensures
        row.git@ == other.git@,
        row.title@ == other.title@,
        text::optional(row.parent) == text::optional(other.parent),
        text::texts(row.versions@) == text::texts(other.versions@),
        text::optional(row.published) == text::optional(other.published),
        row.installed is Some <==> other.installed is Some,
        row.installed is Some ==> row.installed->0.digest@ == other.installed->0.digest@
            && row.installed->0.enabled == other.installed->0.enabled,
{
}

/// A component without a parent can always be installed; one with a parent only where that runs,
/// and otherwise the parent is named.
pub proof fn lemma_parents_come_first(parent: &Option<String>, installed: bool,
    outcome: Result<(), String>)
    requires
        stands(parent, installed, outcome),
    ensures
        *parent is None ==> outcome is Ok,
        *parent is Some && installed ==> outcome is Ok,
        *parent is Some && !installed ==> outcome is Err
            && outcome->Err_0@ == "请先安装并启用父插件: "@ + parent->0@,
{
}

} // verus!
