//! The runtime manifest of a plugin repository and what makes it valid.
use vstd::prelude::*;

use crate::runtime::model::PluginRuntime;
use crate::text;

verus! {

/// A repository's manifest.
#[derive(Debug)]
pub struct RepositoryManifest {
    pub plugin: PluginManifest,
}

/// The plugin that a repository holds.
#[derive(Debug)]
pub struct PluginManifest {
    pub runtime: RuntimeManifest,
    pub capabilities: CapabilityManifest,
    pub subplugins: Vec<SubpluginManifest>,
}

/// How the plugin runs and which file it runs.
#[derive(Debug)]
pub struct RuntimeManifest {
    pub kind: PluginRuntime,
    pub artifact: String,
}

/// What the plugin asks the host for.
#[derive(Clone, Debug, PartialEq, Eq, Default)]
pub struct CapabilityManifest {
    pub network: Vec<String>,
    pub filesystem: Vec<String>,
    pub database: bool,
}

/// A part of a plugin, with the parts it builds on.
#[derive(Debug)]
pub struct SubpluginManifest {
    pub id: String,
    pub dependencies: Vec<String>,
    pub pages: Vec<String>,
    pub routes: Vec<String>,
    pub account_actions: Vec<String>,
}

/// Why a manifest is refused.
#[derive(Debug)]
pub enum ManifestError {
    EmptyArtifact,
    UngrantedCapability,
    DuplicateSubplugin,
    EmptySubpluginId,
    DuplicatePage { page: String },
    MissingDependency { plugin: String, dependency: String },
    DependencyCycle { plugin: String },
}

/// The first thing wrong with the declarations of a list of subplugins.
pub enum Fault {
    EmptyId,
    Repeated(Seq<char>),
    Unknown(Seq<char>, Seq<char>),
}

// Subplugins as a graph

/// The ids of the subplugins, in order.
pub open spec fn ids(subplugins: Seq<SubpluginManifest>) -> Seq<Seq<char>> {
    subplugins.map_values(|p: SubpluginManifest| p.id@)
}

/// Every page that the subplugins declare, in order.
pub open spec fn declared_pages(subplugins: Seq<SubpluginManifest>) -> Seq<Seq<char>>
    decreases subplugins.len(),
{
    if subplugins.len() == 0 {
        Seq::empty()
    } else {
        declared_pages(subplugins.drop_last()) + text::texts(subplugins.last().pages@)
    }
}

/// Whether subplugin `a` names subplugin `b` as a dependency.
pub open spec fn depends(subplugins: Seq<SubpluginManifest>, a: int, b: int) -> bool {
    &&& 0 <= a < subplugins.len()
    &&& 0 <= b < subplugins.len()
    &&& text::texts(subplugins[a].dependencies@).contains(subplugins[b].id@)
}

/// The dependency relation as a relation on indices.
pub open spec fn dependency(subplugins: Seq<SubpluginManifest>) -> spec_fn(int, int) -> bool {
    |a: int, b: int| depends(subplugins, a, b)
}

/// A non-empty path each of whose steps is in the relation.
pub open spec fn walk(step: spec_fn(int, int) -> bool, path: Seq<int>) -> bool {
    &&& path.len() > 0
    &&& forall|i: int| 0 < i < path.len() ==> step(path[i - 1], #[trigger] path[i])
}

/// A path from one index to another.
pub open spec fn leads(
    step: spec_fn(int, int) -> bool,
    path: Seq<int>,
    from: int,
    to: int,
) -> bool {
    walk(step, path) && path[0] == from && path.last() == to
}

/// Whether a path of steps, possibly of none, leads from `from` to `to`.
pub open spec fn reaches(step: spec_fn(int, int) -> bool, from: int, to: int) -> bool {
    exists|path: Seq<int>| leads(step, path, from, to)
}

/// Whether a path of at least one step leads from `at` back to it.
pub open spec fn on_cycle(step: spec_fn(int, int) -> bool, at: int) -> bool {
    exists|path: Seq<int>| #[trigger] leads(step, path, at, at) && path.len() > 1
}

/// Whether no index lies on a cycle.
pub open spec fn acyclic(step: spec_fn(int, int) -> bool) -> bool {
    forall|at: int| !on_cycle(step, at)
}

// Validity

/// The artifact is named, and a WebAssembly component asks for nothing that the host
/// does not grant.
pub open spec fn runnable(manifest: RepositoryManifest) -> bool {
    !text::blank(manifest.plugin.runtime.artifact@) && granted(manifest)
}

/// A WebAssembly component asks for no network, no files and no database.
pub open spec fn granted(manifest: RepositoryManifest) -> bool {
    manifest.plugin.runtime.kind is WasmComponent ==> {
        &&& manifest.plugin.capabilities.network@.len() == 0
        &&& manifest.plugin.capabilities.filesystem@.len() == 0
        &&& !manifest.plugin.capabilities.database
    }
}

/// The first of `wanted` that is in `seen` or stands earlier in `wanted`.
pub open spec fn first_repeat(seen: Seq<Seq<char>>, wanted: Seq<Seq<char>>) -> Option<Seq<char>>
    decreases wanted.len(),
{
    if wanted.len() == 0 {
        None
    } else if seen.contains(wanted[0]) {
        Some(wanted[0])
    } else {
        first_repeat(seen.push(wanted[0]), wanted.drop_first())
    }
}

/// The first of `wanted` that is not in `known`.
pub open spec fn first_unknown(known: Seq<Seq<char>>, wanted: Seq<Seq<char>>) -> Option<Seq<char>>
    decreases wanted.len(),
{
    if wanted.len() == 0 {
        None
    } else if !known.contains(wanted[0]) {
        Some(wanted[0])
    } else {
        first_unknown(known, wanted.drop_first())
    }
}

/// What is wrong with one subplugin's declarations: first its id, then its pages, then
/// its dependencies.
pub open spec fn fault_of(
    seen: Seq<Seq<char>>,
    known: Seq<Seq<char>>,
    subplugin: SubpluginManifest,
) -> Option<Fault> {
    let repeat = first_repeat(seen, text::texts(subplugin.pages@));
    let unknown = first_unknown(known, text::texts(subplugin.dependencies@));
    if text::blank(subplugin.id@) {
        Some(Fault::EmptyId)
    } else if repeat is Some {
        Some(Fault::Repeated(repeat->0))
    } else if unknown is Some {
        Some(Fault::Unknown(subplugin.id@, unknown->0))
    } else {
        None
    }
}

/// The fault of the first subplugin that has one.
pub open spec fn first_fault(subplugins: Seq<SubpluginManifest>, at: int) -> Option<Fault>
    decreases subplugins.len() - at,
{
    if at < 0 || at >= subplugins.len() {
        None
    } else {
        let fault = fault_of(declared_pages(subplugins.take(at)), ids(subplugins), subplugins[at]);
        if fault is Some {
            fault
        } else {
            first_fault(subplugins, at + 1)
        }
    }
}

/// Every subplugin has an id, no page is declared twice and every dependency is there.
pub open spec fn declarations_hold(subplugins: Seq<SubpluginManifest>) -> bool {
    &&& forall|i: int| 0 <= i < subplugins.len() ==> !text::blank((#[trigger] subplugins[i]).id@)
    &&& declared_pages(subplugins).no_duplicates()
    &&& forall|i: int, k: int|
        0 <= i < subplugins.len() && 0 <= k < subplugins[i].dependencies@.len() ==> ids(
            subplugins,
        ).contains((#[trigger] subplugins[i].dependencies@[k])@)
}

/// A manifest that the server accepts.
pub open spec fn well_formed(manifest: RepositoryManifest) -> bool {
    &&& runnable(manifest)
    &&& ids(manifest.plugin.subplugins@).no_duplicates()
    &&& declarations_hold(manifest.plugin.subplugins@)
    &&& acyclic(dependency(manifest.plugin.subplugins@))
}

// Order

/// Whether two lists of positions are permutations of the first `count` numbers that undo each
/// other.
pub open spec fn permutes(order: Seq<int>, back: Seq<int>, count: nat) -> bool {
    &&& order.len() == count
    &&& back.len() == count
    &&& forall|i: int|
        0 <= i < count ==> 0 <= #[trigger] order[i] < count && back[order[i]] == i
    &&& forall|i: int|
        0 <= i < count ==> 0 <= #[trigger] back[i] < count && order[back[i]] == i
}

/// Whether two subplugins have the same id, the same pages in some order and the same dependencies
/// in some order.
pub open spec fn same_declarations(left: SubpluginManifest, right: SubpluginManifest) -> bool {
    &&& left.id@ == right.id@
    &&& text::texts(left.pages@).to_multiset() == text::texts(right.pages@).to_multiset()
    &&& forall|dependency: Seq<char>|
        text::texts(left.dependencies@).contains(dependency) == text::texts(
            right.dependencies@,
        ).contains(dependency)
}

/// Whether one list of subplugins holds what another one holds, in another order.
pub open spec fn rearranged(
    left: Seq<SubpluginManifest>,
    right: Seq<SubpluginManifest>,
    order: Seq<int>,
    back: Seq<int>,
) -> bool {
    &&& left.len() == right.len()
    &&& permutes(order, back, right.len())
    &&& forall|i: int|
        0 <= i < right.len() ==> same_declarations(left[#[trigger] order[i]], right[i])
}

/// The pages of the subplugin at a position.
spec fn pages_at(subplugins: Seq<SubpluginManifest>, at: int) -> Seq<Seq<char>> {
    text::texts(subplugins[at].pages@)
}

/// No subplugin declares a page twice, and no two declare the same one.
spec fn pages_apart(subplugins: Seq<SubpluginManifest>) -> bool {
    &&& forall|i: int| 0 <= i < subplugins.len()
        ==> #[trigger] pages_at(subplugins, i).no_duplicates()
    &&& forall|i: int, j: int, page: Seq<char>|
        0 <= i < subplugins.len() && 0 <= j < subplugins.len() && i != j && #[trigger] pages_at(
            subplugins,
            i,
        ).contains(page) ==> !#[trigger] pages_at(subplugins, j).contains(page)
}

proof fn lemma_declared(subplugins: Seq<SubpluginManifest>, page: Seq<char>)
    ensures
        declared_pages(subplugins).contains(page) <==> exists|i: int|
            0 <= i < subplugins.len() && #[trigger] pages_at(subplugins, i).contains(page),
    decreases subplugins.len(),
{
    if subplugins.len() > 0 {
        let front = subplugins.drop_last();
        let last = text::texts(subplugins.last().pages@);
        let all = declared_pages(subplugins);
        lemma_declared(front, page);
        assert(all == declared_pages(front) + last);
        if all.contains(page) {
            let k = choose|k: int| 0 <= k < all.len() && all[k] == page;
            if k < declared_pages(front).len() {
                assert(declared_pages(front)[k] == page);
                let i = choose|i: int|
                    0 <= i < front.len() && #[trigger] pages_at(front, i).contains(page);
                assert(pages_at(subplugins, i) == pages_at(front, i));
                assert(pages_at(subplugins, i).contains(page));
            } else {
                assert(last[k - declared_pages(front).len()] == page);
                assert(pages_at(subplugins, subplugins.len() - 1) == last);
                assert(pages_at(subplugins, subplugins.len() - 1).contains(page));
            }
        }
        if exists|i: int|
            0 <= i < subplugins.len() && #[trigger] pages_at(subplugins, i).contains(page) {
            let i = choose|i: int|
                0 <= i < subplugins.len() && #[trigger] pages_at(subplugins, i).contains(page);
            if i < front.len() {
                assert(pages_at(front, i) == pages_at(subplugins, i));
                assert(pages_at(front, i).contains(page));
                assert(declared_pages(front).contains(page));
                let k = choose|k: int|
                    0 <= k < declared_pages(front).len() && declared_pages(front)[k] == page;
                assert(all[k] == page);
            } else {
                assert(pages_at(subplugins, i) == last);
                let k = choose|k: int| 0 <= k < last.len() && last[k] == page;
                assert(all[declared_pages(front).len() + k] == page);
            }
        }
    }
}

proof fn lemma_pages_apart(subplugins: Seq<SubpluginManifest>)
    ensures
        declared_pages(subplugins).no_duplicates() <==> pages_apart(subplugins),
    decreases subplugins.len(),
{
    if subplugins.len() > 0 {
        let front = subplugins.drop_last();
        let n = subplugins.len() - 1;
        let last = text::texts(subplugins.last().pages@);
        let before = declared_pages(front);
        let all = declared_pages(subplugins);
        lemma_pages_apart(front);
        assert(all == before + last);
        assert(pages_at(subplugins, n) == last);
        assert forall|i: int| 0 <= i < n implies #[trigger] pages_at(subplugins, i) == pages_at(
            front,
            i,
        ) by {}
        if all.no_duplicates() {
            assert forall|a: int, b: int|
                0 <= a < before.len() && 0 <= b < before.len() && a != b implies before[a]
                != before[b] by {
                assert(all[a] == before[a] && all[b] == before[b]);
            }
            assert forall|a: int, b: int|
                0 <= a < last.len() && 0 <= b < last.len() && a != b implies last[a] != last[b] by {
                assert(all[before.len() + a] == last[a] && all[before.len() + b] == last[b]);
            }
            assert forall|i: int, page: Seq<char>|
                0 <= i < n && #[trigger] pages_at(subplugins, i).contains(
                    page,
                ) implies !last.contains(page) by {
                assert(pages_at(front, i).contains(page));
                lemma_declared(front, page);
                let k = choose|k: int| 0 <= k < before.len() && before[k] == page;
                if last.contains(page) {
                    let m = choose|m: int| 0 <= m < last.len() && last[m] == page;
                    assert(all[k] == all[before.len() + m]);
                }
            }
            assert(pages_apart(front));
            assert forall|i: int, j: int, page: Seq<char>|
                0 <= i < subplugins.len() && 0 <= j < subplugins.len() && i != j
                    && #[trigger] pages_at(subplugins, i).contains(
                    page,
                ) implies !#[trigger] pages_at(subplugins, j).contains(page) by {
                if i < n && j < n {
                    assert(pages_at(front, i).contains(page));
                    assert(!pages_at(front, j).contains(page));
                }
            }
        }
        if pages_apart(subplugins) {
            assert forall|i: int| 0 <= i < front.len() implies #[trigger] pages_at(
                front,
                i,
            ).no_duplicates() by {
                assert(pages_at(subplugins, i).no_duplicates());
            }
            assert forall|i: int, j: int, page: Seq<char>|
                0 <= i < front.len() && 0 <= j < front.len() && i != j && #[trigger] pages_at(
                    front,
                    i,
                ).contains(page) implies !#[trigger] pages_at(front, j).contains(page) by {
                assert(pages_at(subplugins, i).contains(page));
                assert(!pages_at(subplugins, j).contains(page));
            }
            assert(before.no_duplicates());
            assert(last.no_duplicates());
            assert forall|a: int, b: int| 0 <= a < all.len() && 0 <= b < all.len() && a != b implies
                all[a] != all[b] by {
                let (x, y) = if a < b {
                    (a, b)
                } else {
                    (b, a)
                };
                if y < before.len() {
                    assert(before[x] != before[y]);
                } else if x >= before.len() {
                    assert(last[x - before.len()] != last[y - before.len()]);
                } else {
                    let page = before[x];
                    lemma_declared(front, page);
                    let i = choose|i: int|
                        0 <= i < front.len() && #[trigger] pages_at(front, i).contains(page);
                    assert(pages_at(subplugins, i).contains(page));
                    assert(!pages_at(subplugins, n).contains(page));
                    if all[y] == page {
                        assert(last[y - before.len()] == page);
                    }
                }
            }
        }
    }
}

/// A list whose elements are those of another, each as often, has no duplicates where the other
/// has none, and holds the same.
proof fn lemma_same_pages(left: Seq<Seq<char>>, right: Seq<Seq<char>>)
    requires
        left.to_multiset() == right.to_multiset(),
        left.no_duplicates(),
    ensures
        right.no_duplicates(),
        forall|page: Seq<char>| left.contains(page) == right.contains(page),
{
    left.lemma_multiset_has_no_duplicates();
    right.lemma_multiset_has_no_duplicates_conv();
    lemma_same_contents(left, right);
}

proof fn lemma_same_contents(left: Seq<Seq<char>>, right: Seq<Seq<char>>)
    requires
        left.to_multiset() == right.to_multiset(),
    ensures
        forall|page: Seq<char>| left.contains(page) == right.contains(page),
{
    left.to_multiset_ensures();
    right.to_multiset_ensures();
    assert forall|page: Seq<char>| left.contains(page) == right.contains(page) by {
        assert(left.contains(page) <==> left.to_multiset().count(page) > 0);
        assert(right.contains(page) <==> right.to_multiset().count(page) > 0);
    }
}

/// What is well formed stays so in another order.
proof fn lemma_rearranged_holds(
    left: RepositoryManifest,
    right: RepositoryManifest,
    order: Seq<int>,
    back: Seq<int>,
)
    requires
        left.plugin.runtime == right.plugin.runtime,
        left.plugin.capabilities == right.plugin.capabilities,
        rearranged(left.plugin.subplugins@, right.plugin.subplugins@, order, back),
        well_formed(left),
    ensures
        well_formed(right),
{
    let a = left.plugin.subplugins@;
    let b = right.plugin.subplugins@;
    assert forall|i: int| 0 <= i < b.len() implies #[trigger] ids(b)[i] == ids(a)[order[i]] by {
        assert(same_declarations(a[order[i]], b[i]));
    }
    assert forall|i: int, j: int| 0 <= i < b.len() && 0 <= j < b.len() && i != j implies ids(b)[i]
        != ids(b)[j] by {
        assert(back[order[i]] == i && back[order[j]] == j);
        assert(ids(a)[order[i]] != ids(a)[order[j]]);
    }
    assert forall|i: int| 0 <= i < b.len() implies !text::blank((#[trigger] b[i]).id@) by {
        assert(same_declarations(a[order[i]], b[i]));
        assert(!text::blank(a[order[i]].id@));
    }
    lemma_pages_apart(a);
    lemma_pages_apart(b);
    assert forall|i: int| 0 <= i < b.len() implies #[trigger] pages_at(b, i).no_duplicates() by {
        assert(same_declarations(a[order[i]], b[i]));
        assert(pages_at(a, order[i]).no_duplicates());
        lemma_same_pages(pages_at(a, order[i]), pages_at(b, i));
    }
    assert forall|i: int, j: int, page: Seq<char>|
        0 <= i < b.len() && 0 <= j < b.len() && i != j && #[trigger] pages_at(b, i).contains(
            page,
        ) implies !#[trigger] pages_at(b, j).contains(page) by {
        assert(same_declarations(a[order[i]], b[i]));
        assert(same_declarations(a[order[j]], b[j]));
        assert(back[order[i]] == i && back[order[j]] == j);
        lemma_same_contents(pages_at(a, order[i]), pages_at(b, i));
        lemma_same_contents(pages_at(a, order[j]), pages_at(b, j));
        assert(pages_at(a, order[i]).contains(page));
        assert(!pages_at(a, order[j]).contains(page));
    }
    assert forall|i: int, k: int|
        0 <= i < b.len() && 0 <= k < b[i].dependencies@.len() implies ids(b).contains(
        (#[trigger] b[i].dependencies@[k])@,
    ) by {
        let wanted = b[i].dependencies@[k]@;
        assert(same_declarations(a[order[i]], b[i]));
        assert(text::texts(b[i].dependencies@)[k] == wanted);
        assert(text::texts(b[i].dependencies@).contains(wanted));
        let own = a[order[i]].dependencies@;
        let m = choose|m: int| 0 <= m < text::texts(own).len() && text::texts(own)[m] == wanted;
        assert(own[m]@ == wanted);
        assert(ids(a).contains(wanted));
        let at = choose|at: int| 0 <= at < ids(a).len() && ids(a)[at] == wanted;
        assert(0 <= back[at] < b.len());
        assert(order[back[at]] == at);
        assert(ids(b)[back[at]] == wanted);
    }
    assert forall|i: int, j: int| depends(b, i, j) implies depends(a, order[i], order[j]) by {
        assert(same_declarations(a[order[i]], b[i]));
        assert(same_declarations(a[order[j]], b[j]));
    }
    assert forall|at: int| !on_cycle(dependency(b), at) by {
        if on_cycle(dependency(b), at) {
            let path = choose|path: Seq<int>| #[trigger]
                leads(dependency(b), path, at, at) && path.len() > 1;
            let image = path.map_values(|i: int| order[i]);
            assert forall|i: int| 0 < i < image.len() implies dependency(a)(
                image[i - 1],
                #[trigger] image[i],
            ) by {
                assert(dependency(b)(path[i - 1], path[i]));
            }
            assert(leads(dependency(a), image, order[at], order[at]));
            assert(on_cycle(dependency(a), order[at]));
        }
    }
}

/// Whether a manifest is accepted does not depend on the order in which it lists its subplugins,
/// their pages and their dependencies, nor on their routes and account actions.
pub proof fn lemma_order_does_not_matter(
    left: RepositoryManifest,
    right: RepositoryManifest,
    order: Seq<int>,
    back: Seq<int>,
)
    requires
        left.plugin.runtime == right.plugin.runtime,
        left.plugin.capabilities == right.plugin.capabilities,
        rearranged(left.plugin.subplugins@, right.plugin.subplugins@, order, back),
    ensures
        well_formed(left) == well_formed(right),
{
    let a = left.plugin.subplugins@;
    let b = right.plugin.subplugins@;
    if well_formed(left) {
        lemma_rearranged_holds(left, right, order, back);
    }
    if well_formed(right) {
        assert forall|i: int| 0 <= i < a.len() implies same_declarations(
            b[#[trigger] back[i]],
            a[i],
        ) by {
            assert(order[back[i]] == i);
            assert(same_declarations(a[order[back[i]]], b[back[i]]));
        }
        lemma_rearranged_holds(right, left, back, order);
    }
}

proof fn lemma_no_repeat(seen: Seq<Seq<char>>, wanted: Seq<Seq<char>>)
    requires
        seen.no_duplicates(),
    ensures
        first_repeat(seen, wanted) is None <==> (seen + wanted).no_duplicates(),
    decreases wanted.len(),
{
    if wanted.len() == 0 {
        assert(seen + wanted =~= seen);
    } else if seen.contains(wanted[0]) {
        let at = choose|at: int| 0 <= at < seen.len() && seen[at] == wanted[0];
        let all = seen + wanted;
        assert(all[at] == all[seen.len() as int]);
    } else {
        let grown = seen.push(wanted[0]);
        assert forall|i: int, j: int|
            0 <= i < grown.len() && 0 <= j < grown.len() && i != j implies grown[i] != grown[j] by {
            if i < seen.len() {
                assert(seen.contains(seen[i]));
            }
            if j < seen.len() {
                assert(seen.contains(seen[j]));
            }
        }
        lemma_no_repeat(grown, wanted.drop_first());
        assert(grown + wanted.drop_first() =~= seen + wanted);
    }
}

proof fn lemma_no_unknown(known: Seq<Seq<char>>, wanted: Seq<Seq<char>>)
    ensures
        first_unknown(known, wanted) is None <==> (forall|k: int|
            0 <= k < wanted.len() ==> known.contains(#[trigger] wanted[k])),
    decreases wanted.len(),
{
    if wanted.len() > 0 {
        let rest = wanted.drop_first();
        lemma_no_unknown(known, rest);
        if first_unknown(known, wanted) is None {
            assert forall|k: int| 0 <= k < wanted.len() implies known.contains(
                #[trigger] wanted[k],
            ) by {
                if k > 0 {
                    assert(wanted[k] == rest[k - 1]);
                }
            }
        } else if known.contains(wanted[0]) {
            let k = choose|k: int| 0 <= k < rest.len() && !known.contains(#[trigger] rest[k]);
            assert(wanted[k + 1] == rest[k]);
        }
    }
}

proof fn lemma_pages_grow(subplugins: Seq<SubpluginManifest>, at: int)
    requires
        0 <= at < subplugins.len(),
    ensures
        declared_pages(subplugins.take(at + 1)) == declared_pages(subplugins.take(at))
            + text::texts(subplugins[at].pages@),
{
    assert(subplugins.take(at + 1).drop_last() =~= subplugins.take(at));
}

proof fn lemma_pages_prefix(subplugins: Seq<SubpluginManifest>, at: int)
    requires
        0 <= at <= subplugins.len(),
        declared_pages(subplugins).no_duplicates(),
    ensures
        declared_pages(subplugins.take(at)).no_duplicates(),
    decreases subplugins.len() - at,
{
    if at < subplugins.len() {
        lemma_pages_prefix(subplugins, at + 1);
        lemma_pages_grow(subplugins, at);
        let part = declared_pages(subplugins.take(at));
        let whole = declared_pages(subplugins.take(at + 1));
        assert forall|i: int, j: int|
            0 <= i < part.len() && 0 <= j < part.len() && i != j implies part[i] != part[j] by {
            assert(whole[i] == part[i] && whole[j] == part[j]);
        }
    } else {
        assert(subplugins.take(at) =~= subplugins);
    }
}

/// No fault is found exactly where the declarations of all the subplugins hold.
pub proof fn lemma_no_fault(subplugins: Seq<SubpluginManifest>)
    ensures
        first_fault(subplugins, 0) is None <==> declarations_hold(subplugins),
{
    assert(declared_pages(subplugins.take(0)) =~= Seq::<Seq<char>>::empty());
    lemma_no_fault_from(subplugins, 0);
    assert(subplugins.take(subplugins.len() as int) =~= subplugins);
    if first_fault(subplugins, 0) is None {
        assert forall|i: int, k: int|
            0 <= i < subplugins.len() && 0 <= k
                < subplugins[i].dependencies@.len() implies ids(subplugins).contains(
            (#[trigger] subplugins[i].dependencies@[k])@,
        ) by {
            assert(sound(subplugins, i));
        }
        assert forall|i: int| 0 <= i < subplugins.len() implies !text::blank(
            (#[trigger] subplugins[i]).id@,
        ) by {
            assert(sound(subplugins, i));
        }
    } else if declarations_hold(subplugins) {
        assert forall|i: int| 0 <= i < subplugins.len() implies sound(subplugins, i) by {}
    }
}

/// One subplugin has an id, and the dependencies it names are there.
spec fn sound(subplugins: Seq<SubpluginManifest>, i: int) -> bool {
    &&& !text::blank(subplugins[i].id@)
    &&& forall|k: int|
        0 <= k < subplugins[i].dependencies@.len() ==> ids(subplugins).contains(
            (#[trigger] subplugins[i].dependencies@[k])@,
        )
}

proof fn lemma_no_fault_from(subplugins: Seq<SubpluginManifest>, at: int)
    requires
        0 <= at <= subplugins.len(),
        declared_pages(subplugins.take(at)).no_duplicates(),
    ensures
        first_fault(subplugins, at) is None <==> {
            &&& forall|i: int| at <= i < subplugins.len() ==> #[trigger] sound(subplugins, i)
            &&& declared_pages(subplugins.take(subplugins.len() as int)).no_duplicates()
        },
    decreases subplugins.len() - at,
{
    if at < subplugins.len() {
        let subplugin = subplugins[at];
        let seen = declared_pages(subplugins.take(at));
        let known = ids(subplugins);
        let wanted = text::texts(subplugin.dependencies@);
        lemma_no_repeat(seen, text::texts(subplugin.pages@));
        lemma_no_unknown(known, wanted);
        lemma_pages_grow(subplugins, at);
        assert(subplugins.take(subplugins.len() as int) =~= subplugins);
        if declared_pages(subplugins).no_duplicates() {
            lemma_pages_prefix(subplugins, at + 1);
        }
        if declared_pages(subplugins.take(at + 1)).no_duplicates() {
            lemma_no_fault_from(subplugins, at + 1);
        }
        if first_unknown(known, wanted) is None {
            assert forall|k: int| 0 <= k < subplugin.dependencies@.len() implies known.contains(
                (#[trigger] subplugin.dependencies@[k])@,
            ) by {
                assert(wanted[k] == subplugin.dependencies@[k]@);
            }
        } else {
            let k = choose|k: int| 0 <= k < wanted.len() && !known.contains(#[trigger] wanted[k]);
            assert(wanted[k] == subplugins[at].dependencies@[k]@);
            assert(!sound(subplugins, at));
        }
        let whole = declared_pages(subplugins.take(subplugins.len() as int));
        if first_fault(subplugins, at) is None {
            assert(sound(subplugins, at));
            assert(first_fault(subplugins, at + 1) is None);
            assert forall|i: int| at <= i < subplugins.len() implies #[trigger] sound(
                subplugins,
                i,
            ) by {}
        }
        if (forall|i: int| at <= i < subplugins.len() ==> #[trigger] sound(subplugins, i))
            && whole.no_duplicates() {
            assert(sound(subplugins, at));
            assert(first_unknown(known, wanted) is None);
            assert(first_fault(subplugins, at + 1) is None);
        }
    }
}

impl ManifestError {
    /// The text shown for the refusal.
    pub open spec fn text(&self) -> Seq<char> {
        match self {
            ManifestError::EmptyArtifact => "插件 artifact 不能为空"@,
            ManifestError::UngrantedCapability =>
                "当前 Wasm Component 宿主未授予网络、文件系统或数据库能力"@,
            ManifestError::DuplicateSubplugin => "子插件 id 重复"@,
            ManifestError::EmptySubpluginId => "子插件 id 不能为空"@,
            ManifestError::DuplicatePage { page } => "子插件页面声明重复: "@ + page@,
            ManifestError::MissingDependency { plugin, dependency } => "子插件 "@ + plugin@
                + " 依赖不存在: "@ + dependency@,
            ManifestError::DependencyCycle { plugin } => "子插件依赖存在循环: "@ + plugin@,
        }
    }

    /// The text shown for the refusal.
    pub fn message(&self) -> (message: String)
        ensures
            message@ == self.text(),
    {
        match self {
            ManifestError::EmptyArtifact => "插件 artifact 不能为空".to_owned(),
            ManifestError::UngrantedCapability =>
                "当前 Wasm Component 宿主未授予网络、文件系统或数据库能力".to_owned(),
            ManifestError::DuplicateSubplugin => "子插件 id 重复".to_owned(),
            ManifestError::EmptySubpluginId => "子插件 id 不能为空".to_owned(),
            ManifestError::DuplicatePage { page } =>
                "子插件页面声明重复: ".to_owned().concat(page.as_str()),
            ManifestError::MissingDependency { plugin, dependency } => "子插件 ".to_owned().concat(
                plugin.as_str(),
            ).concat(" 依赖不存在: ").concat(dependency.as_str()),
            ManifestError::DependencyCycle { plugin } =>
                "子插件依赖存在循环: ".to_owned().concat(plugin.as_str()),
        }
    }
}

// Depth-first search

/// How far the search has come with one subplugin.
#[derive(Clone, Copy, Debug, PartialEq, Eq, Structural)]
pub enum VisitState {
    Visiting,
    Visited,
}

/// Whether `b` is among the targets of `a`.
pub open spec fn arrow(targets: Seq<Vec<usize>>, a: int, b: int) -> bool {
    &&& 0 <= a < targets.len()
    &&& 0 <= b < targets.len()
    &&& exists|k: int| 0 <= k < targets[a]@.len() && #[trigger] targets[a]@[k] == b
}

/// A graph given by each index's targets, as a relation.
pub open spec fn arrows(targets: Seq<Vec<usize>>) -> spec_fn(int, int) -> bool {
    |a: int, b: int| arrow(targets, a, b)
}

/// Every target is an index of the graph.
pub open spec fn closed_graph(targets: Seq<Vec<usize>>) -> bool {
    forall|a: int, k: int|
        0 <= a < targets.len() && 0 <= k < targets[a]@.len() ==> #[trigger] targets[a]@[k]
            < targets.len()
}

/// How many indices the search has not entered yet.
pub open spec fn untouched(states: Seq<Option<VisitState>>) -> nat
    decreases states.len(),
{
    if states.len() == 0 {
        0
    } else {
        untouched(states.drop_last()) + if states.last() is None { 1nat } else { 0nat }
    }
}

/// The steps that a search takes: from an index that it has not entered to one of its targets.
pub open spec fn open_arrows(
    targets: Seq<Vec<usize>>,
    states: Seq<Option<VisitState>>,
) -> spec_fn(int, int) -> bool {
    |a: int, b: int| arrow(targets, a, b) && states[a] is None
}

/// Why a search fails at an index: it is being visited already, or a search that enters only what
/// was not entered comes back to it.
pub open spec fn obstacle(
    targets: Seq<Vec<usize>>,
    states: Seq<Option<VisitState>>,
    at: int,
) -> bool {
    ||| states[at] == Some(VisitState::Visiting)
    ||| on_cycle(open_arrows(targets, states), at)
}

/// Whether a search from an index meets an obstacle.
pub open spec fn obstructed(
    targets: Seq<Vec<usize>>,
    states: Seq<Option<VisitState>>,
    from: int,
) -> bool {
    exists|at: int|
        0 <= at < targets.len() && #[trigger] reaches(open_arrows(targets, states), from, at)
            && obstacle(targets, states, at)
}

/// Ranks such that each index that became finished stands above those of its targets that did,
/// and has none that is not finished.
spec fn ranked(
    targets: Seq<Vec<usize>>,
    before: Seq<Option<VisitState>>,
    after: Seq<Option<VisitState>>,
    ranks: Seq<nat>,
) -> bool {
    &&& ranks.len() == targets.len()
    &&& forall|a: int, k: int|
        0 <= a < targets.len() && before[a] is None && after[a] == Some(VisitState::Visited) && 0
            <= k < targets[a]@.len() ==> {
            let b = #[trigger] targets[a]@[k] as int;
            after[b] == Some(VisitState::Visited) && (before[b] is None ==> ranks[b] < ranks[a])
        }
}

/// What became finished is closed and lies on no cycle.
pub closed spec fn settled(
    targets: Seq<Vec<usize>>,
    before: Seq<Option<VisitState>>,
    after: Seq<Option<VisitState>>,
) -> bool {
    exists|ranks: Seq<nat>| ranked(targets, before, after, ranks)
}

/// Whether the entries that were there are there still.
pub open spec fn keeps(
    before: Seq<Option<VisitState>>,
    after: Seq<Option<VisitState>>,
) -> bool {
    &&& before.len() == after.len()
    &&& forall|w: int| 0 <= w < before.len() && #[trigger] before[w] is Some
        ==> after[w] == before[w]
}

proof fn lemma_untouched_update(states: Seq<Option<VisitState>>, at: int, state: VisitState)
    requires
        0 <= at < states.len(),
    ensures
        untouched(states.update(at, Some(state))) == untouched(states) - if states[at] is None {
            1int
        } else {
            0int
        },
    decreases states.len(),
{
    let updated = states.update(at, Some(state));
    if at == states.len() - 1 {
        assert(updated.drop_last() =~= states.drop_last());
    } else {
        lemma_untouched_update(states.drop_last(), at, state);
        assert(updated.drop_last() =~= states.drop_last().update(at, Some(state)));
    }
}

proof fn lemma_untouched_falls(before: Seq<Option<VisitState>>, after: Seq<Option<VisitState>>)
    requires
        keeps(before, after),
    ensures
        untouched(after) <= untouched(before),
    decreases before.len(),
{
    if before.len() > 0 {
        let b = before.drop_last();
        let a = after.drop_last();
        assert forall|w: int| 0 <= w < b.len() && #[trigger] b[w] is Some implies a[w] == b[w] by {
            assert(before[w] is Some);
        }
        lemma_untouched_falls(b, a);
        assert(before[before.len() - 1] is Some ==> after.last() == before.last());
    }
}

spec fn ceiling(ranks: Seq<nat>) -> nat
    decreases ranks.len(),
{
    if ranks.len() == 0 {
        0
    } else {
        ceiling(ranks.drop_last()) + ranks.last()
    }
}

proof fn lemma_ceiling(ranks: Seq<nat>)
    ensures
        forall|i: int| 0 <= i < ranks.len() ==> ranks[i] <= ceiling(ranks),
    decreases ranks.len(),
{
    if ranks.len() > 0 {
        lemma_ceiling(ranks.drop_last());
        assert forall|i: int| 0 <= i < ranks.len() implies ranks[i] <= ceiling(ranks) by {
            if i < ranks.len() - 1 {
                assert(ranks[i] == ranks.drop_last()[i]);
            }
        }
    }
}

/// One search after another.
proof fn lemma_settle_on(
    targets: Seq<Vec<usize>>,
    first: Seq<Option<VisitState>>,
    second: Seq<Option<VisitState>>,
    third: Seq<Option<VisitState>>,
)
    requires
        closed_graph(targets),
        targets.len() == first.len(),
        keeps(first, second),
        keeps(second, third),
        settled(targets, first, second),
        settled(targets, second, third),
    ensures
        keeps(first, third),
        settled(targets, first, third),
{
    let low = choose|ranks: Seq<nat>| ranked(targets, first, second, ranks);
    let high = choose|ranks: Seq<nat>| ranked(targets, second, third, ranks);
    lemma_ceiling(low);
    let ranks = Seq::new(
        targets.len(),
        |a: int| if second[a] is None { high[a] + ceiling(low) + 1 } else { low[a] },
    );
    assert forall|w: int| 0 <= w < first.len() && #[trigger] first[w] is Some implies third[w]
        == first[w] by {
        assert(second[w] == first[w]);
    }
    assert forall|a: int, k: int|
        0 <= a < targets.len() && first[a] is None && third[a] == Some(VisitState::Visited) && 0
            <= k < targets[a]@.len() implies {
        let b = #[trigger] targets[a]@[k] as int;
        third[b] == Some(VisitState::Visited) && (first[b] is None ==> ranks[b] < ranks[a])
    } by {
        let b = targets[a]@[k] as int;
        assert(0 <= b < targets.len());
        if second[a] is Some {
            assert(second[a] == third[a]);
            assert(second[b] == Some(VisitState::Visited));
            assert(third[b] == second[b]);
        } else {
            assert(third[b] == Some(VisitState::Visited));
            assert(second[b] is Some ==> second[b] == third[b]);
        }
    }
    assert(ranked(targets, first, third, ranks));
}

/// An index whose targets are all finished can be finished.
proof fn lemma_finish(
    targets: Seq<Vec<usize>>,
    before: Seq<Option<VisitState>>,
    after: Seq<Option<VisitState>>,
    at: int,
)
    requires
        closed_graph(targets),
        before.len() == targets.len(),
        after.len() == targets.len(),
        0 <= at < targets.len(),
        after[at] != Some(VisitState::Visited),
        settled(targets, before, after),
        forall|k: int|
            0 <= k < targets[at]@.len() ==> after[(#[trigger] targets[at]@[k]) as int] == Some(
                VisitState::Visited,
            ),
    ensures
        settled(targets, before, after.update(at, Some(VisitState::Visited))),
{
    let ranks = choose|ranks: Seq<nat>| ranked(targets, before, after, ranks);
    lemma_ceiling(ranks);
    let raised = ranks.update(at, ceiling(ranks) + 1);
    assert(ranked(targets, before, after.update(at, Some(VisitState::Visited)), raised));
}

/// A step in front of a path makes a path.
proof fn lemma_precede(step: spec_fn(int, int) -> bool, first: int, from: int, to: int)
    requires
        step(first, from),
        reaches(step, from, to),
    ensures
        reaches(step, first, to),
        first == to ==> on_cycle(step, first),
{
    let path = choose|path: Seq<int>| leads(step, path, from, to);
    let longer = seq![first] + path;
    assert forall|i: int| 0 < i < longer.len() implies step(longer[i - 1],
        #[trigger] longer[i]) by {
        assert(longer[i] == path[i - 1]);
        if i > 1 {
            assert(longer[i - 1] == path[i - 2]);
        }
    }
    assert(longer.last() == path.last());
    assert(leads(step, longer, first, to));
}

/// A path of steps of one relation is one of another that holds where the first does.
proof fn lemma_more_steps(
    fewer: spec_fn(int, int) -> bool,
    more: spec_fn(int, int) -> bool,
    from: int,
    to: int,
)
    requires
        forall|a: int, b: int| #[trigger] fewer(a, b) ==> more(a, b),
    ensures
        reaches(fewer, from, to) ==> reaches(more, from, to),
        on_cycle(fewer, from) ==> on_cycle(more, from),
{
    if reaches(fewer, from, to) {
        let path = choose|path: Seq<int>| leads(fewer, path, from, to);
        assert forall|i: int| 0 < i < path.len() implies more(path[i - 1], #[trigger] path[i]) by {
            assert(fewer(path[i - 1], path[i]));
        }
        assert(leads(more, path, from, to));
    }
    if on_cycle(fewer, from) {
        let path = choose|path: Seq<int>| #[trigger]
            leads(fewer, path, from, from) && path.len() > 1;
        assert forall|i: int| 0 < i < path.len() implies more(path[i - 1], #[trigger] path[i]) by {
            assert(fewer(path[i - 1], path[i]));
        }
        assert(leads(more, path, from, from));
    }
}

/// What a path of a search leads to is finished, where its start is; ranks fall along it.
proof fn lemma_descent(
    targets: Seq<Vec<usize>>,
    before: Seq<Option<VisitState>>,
    after: Seq<Option<VisitState>>,
    ranks: Seq<nat>,
    path: Seq<int>,
)
    requires
        keeps(before, after),
        before.len() == targets.len(),
        ranked(targets, before, after, ranks),
        walk(open_arrows(targets, before), path),
        0 <= path[0] < targets.len(),
        after[path[0]] == Some(VisitState::Visited),
    ensures
        0 <= path.last() < targets.len(),
        after[path.last()] == Some(VisitState::Visited),
        path.len() > 1 && before[path.last()] is None ==> ranks[path.last()] < ranks[path[0]],
    decreases path.len(),
{
    let step = open_arrows(targets, before);
    if path.len() > 1 {
        let shorter = path.drop_last();
        let a = path[path.len() - 2];
        let b = path[path.len() - 1];
        assert forall|i: int| 0 < i < shorter.len() implies step(
            shorter[i - 1],
            #[trigger] shorter[i],
        ) by {
            assert(shorter[i] == path[i]);
        }
        assert(step(a, b));
        assert(arrow(targets, a, b));
        lemma_descent(targets, before, after, ranks, shorter);
        assert(shorter.last() == a);
        let k = choose|k: int| 0 <= k < targets[a]@.len() && #[trigger] targets[a]@[k] == b;
        assert(after[b] == Some(VisitState::Visited));
    }
}

/// A search that finished what it started from met no obstacle, and finished all that it led to.
proof fn lemma_finished(
    targets: Seq<Vec<usize>>,
    before: Seq<Option<VisitState>>,
    after: Seq<Option<VisitState>>,
    from: int,
)
    requires
        keeps(before, after),
        before.len() == targets.len(),
        settled(targets, before, after),
        0 <= from < targets.len(),
        after[from] == Some(VisitState::Visited),
    ensures
        !obstructed(targets, before, from),
        forall|at: int| #[trigger]
            reaches(open_arrows(targets, before), from, at) ==> 0 <= at < targets.len()
                && after[at] == Some(VisitState::Visited),
{
    let step = open_arrows(targets, before);
    let ranks = choose|ranks: Seq<nat>| ranked(targets, before, after, ranks);
    assert forall|at: int| #[trigger] reaches(step, from, at) implies 0 <= at < targets.len()
        && after[at] == Some(VisitState::Visited) && !obstacle(targets, before, at) by {
        let path = choose|path: Seq<int>| leads(step, path, from, at);
        lemma_descent(targets, before, after, ranks, path);
        assert(before[at] is Some ==> after[at] == before[at]);
        if on_cycle(step, at) {
            let round = choose|round: Seq<int>| #[trigger]
                leads(step, round, at, at) && round.len() > 1;
            assert(step(round[0], round[1]));
            lemma_descent(targets, before, after, ranks, round);
        }
    }
}

/// A search that enters nothing leads nowhere.
proof fn lemma_entered(targets: Seq<Vec<usize>>, states: Seq<Option<VisitState>>, from: int)
    requires
        states[from] is Some,
    ensures
        forall|at: int| #[trigger] reaches(open_arrows(targets, states), from, at) ==> at == from,
        !on_cycle(open_arrows(targets, states), from),
{
    let step = open_arrows(targets, states);
    assert forall|at: int| #[trigger] reaches(step, from, at) implies at == from by {
        let path = choose|path: Seq<int>| leads(step, path, from, at);
        if path.len() > 1 {
            assert(step(path[0], path[1]));
        }
    }
    if on_cycle(step, from) {
        let path = choose|path: Seq<int>| #[trigger] leads(step, path, from, from)
            && path.len() > 1;
        assert(step(path[0], path[1]));
    }
}

/// Searches everything that can be reached from `index` over indices that were not entered, and
/// finishes it. It fails where it comes upon an index that is being visited: one that was before,
/// or one that it comes back to.
pub fn visit(
    index: usize,
    targets: &Vec<Vec<usize>>,
    states: &mut Vec<Option<VisitState>>,
) -> (outcome: Result<(), usize>)
    requires
        closed_graph(targets@),
        old(states)@.len() == targets@.len(),
        index < targets@.len(),
    ensures
        outcome is Err <==> obstructed(targets@, old(states)@, index as int),
        outcome matches Err(at) ==> {
            &&& at < targets@.len()
            &&& reaches(open_arrows(targets@, old(states)@), index as int, at as int)
            &&& reaches(arrows(targets@), index as int, at as int)
            &&& obstacle(targets@, old(states)@, at as int)
        },
        outcome is Ok ==> settled(targets@, old(states)@, final(states)@) && forall|w: int|
            0 <= w < targets@.len() ==> #[trigger] final(states)@[w] == if old(states)@[w] is None
                && reaches(open_arrows(targets@, old(states)@), index as int, w) {
                Some(VisitState::Visited)
            } else {
                old(states)@[w]
            },
        keeps(old(states)@, final(states)@),
        forall|w: int|
            0 <= w < targets@.len() && old(states)@[w] is None
                && #[trigger] final(states)@[w] is Some
                ==> reaches(open_arrows(targets@, old(states)@), index as int, w),
        old(states)@[index as int] == Some(VisitState::Visited) ==> outcome is Ok
            && final(states)@ == old(states)@,
        old(states)@[index as int] == Some(VisitState::Visiting) ==> outcome == Err::<(), usize>(
            index,
        ) && final(states)@ == old(states)@,
    decreases untouched(old(states)@),
{
    let ghost entered = states@;
    let ghost step = open_arrows(targets@, entered);
    proof {
        assert(leads(step, seq![index as int], index as int, index as int));
        assert(leads(arrows(targets@), seq![index as int], index as int, index as int));
    }
    match states[index] {
        Some(VisitState::Visiting) => {
            assert(reaches(step, index as int, index as int));
            return Err(index);
        },
        Some(VisitState::Visited) => {
            proof {
                lemma_entered(targets@, entered, index as int);
                assert(ranked(targets@, entered, entered, Seq::new(targets@.len(), |a: int| 0nat)));
            }
            return Ok(());
        },
        None => {},
    }
    proof {
        lemma_untouched_update(entered, index as int, VisitState::Visiting);
        assert(ranked(
            targets@,
            entered,
            entered.update(index as int, Some(VisitState::Visiting)),
            Seq::new(targets@.len(), |a: int| 0nat),
        ));
    }
    states.set(index, Some(VisitState::Visiting));
    let mut k: usize = 0;
    while k < targets[index].len()
        invariant
            closed_graph(targets@),
            states@.len() == targets@.len(),
            entered.len() == targets@.len(),
            index < targets@.len(),
            step == open_arrows(targets@, entered),
            k <= targets@[index as int]@.len(),
            settled(targets@, entered, states@),
            entered[index as int] is None,
            entered == old(states)@,
            states@[index as int] == Some(VisitState::Visiting),
            untouched(states@) < untouched(entered),
            reaches(step, index as int, index as int),
            keeps(entered, states@),
            forall|w: int|
                0 <= w < targets@.len() && entered[w] is None && #[trigger] states@[w] is Some
                    ==> reaches(step, index as int, w) && (w == index || states@[w] == Some(
                    VisitState::Visited,
                )),
            forall|j: int|
                0 <= j < k ==> states@[(#[trigger] targets@[index as int]@[j]) as int] == Some(
                    VisitState::Visited,
                ),
        decreases targets@[index as int]@.len() - k,
    {
        let next = targets[index][k];
        let ghost before = states@;
        let ghost fewer = open_arrows(targets@, before);
        proof {
            assert(targets@[index as int]@[k as int] == next);
            assert(arrow(targets@, index as int, next as int));
            assert(step(index as int, next as int));
            assert forall|a: int, b: int| #[trigger] fewer(a, b) implies step(a, b) by {
                assert(entered[a] is Some ==> before[a] == entered[a]);
            }
        }
        match visit(next, targets, states) {
            Ok(()) => {},
            Err(at) => {
                proof {
                    lemma_more_steps(fewer, step, next as int, at as int);
                    lemma_more_steps(fewer, step, at as int, at as int);
                    lemma_precede(step, index as int, next as int, at as int);
                    assert(entered[at as int] is Some ==> before[at as int] == entered[at as int]);
                    assert(obstacle(targets@, entered, at as int));
                    assert forall|a: int, b: int| #[trigger] step(a, b) implies arrows(targets@)(
                        a,
                        b,
                    ) by {}
                    lemma_more_steps(step, arrows(targets@), index as int, at as int);
                    assert forall|w: int|
                        0 <= w < targets@.len() && entered[w] is None
                            && #[trigger] states@[w] is Some implies reaches(
                        step,
                        index as int,
                        w,
                    ) by {
                        if before[w] is None {
                            lemma_more_steps(fewer, step, next as int, w);
                            lemma_precede(step, index as int, next as int, w);
                        }
                    }
                    assert forall|w: int|
                        0 <= w < entered.len() && #[trigger] entered[w] is Some implies states@[w]
                        == entered[w] by {
                        assert(before[w] == entered[w]);
                    }
                }
                return Err(at);
            },
        }
        proof {
            assert(leads(fewer, seq![next as int], next as int, next as int));
            assert(reaches(fewer, next as int, next as int));
            assert(before[next as int] == Some(VisitState::Visiting) ==> false);
            lemma_untouched_falls(before, states@);
            lemma_settle_on(targets@, entered, before, states@);
            assert forall|w: int|
                0 <= w < targets@.len() && entered[w] is None
                    && #[trigger] states@[w] is Some implies reaches(step, index as int, w) && (w
                == index || states@[w] == Some(VisitState::Visited)) by {
                if before[w] is None {
                    lemma_more_steps(fewer, step, next as int, w);
                    lemma_precede(step, index as int, next as int, w);
                }
            }
            assert forall|j: int| 0 <= j < k + 1 implies states@[(
            #[trigger] targets@[index as int]@[j]) as int] == Some(VisitState::Visited) by {
                if j < k {
                    assert(before[targets@[index as int]@[j] as int] == Some(VisitState::Visited));
                }
            }
        }
        k += 1;
    }
    let ghost searched = states@;
    proof {
        lemma_finish(targets@, entered, states@, index as int);
    }
    states.set(index, Some(VisitState::Visited));
    proof {
        assert forall|w: int| 0 <= w < entered.len()
            && #[trigger] entered[w] is Some implies states@[w]
            == entered[w] by {
            assert(searched[w] == entered[w]);
        }
        lemma_finished(targets@, entered, states@, index as int);
        assert forall|w: int|
            0 <= w < targets@.len() && entered[w] is None
                && #[trigger] states@[w] is Some implies reaches(step, index as int, w)
            && states@[w] == Some(VisitState::Visited) by {
            if w != index {
                assert(searched[w] is Some);
            }
        }
    }
    Ok(())
}

// Validation

/// Whether each list of targets holds the indices of the named dependencies.
spec fn resolved(subplugins: Seq<SubpluginManifest>, targets: Seq<Vec<usize>>) -> bool {
    forall|a: int|
        0 <= a < targets.len()
            ==> resolves(subplugins, (#[trigger] subplugins[a]).dependencies@, targets[a]@)
}

spec fn resolves(
    subplugins: Seq<SubpluginManifest>,
    names: Seq<String>,
    found: Seq<usize>,
) -> bool {
    &&& found.len() == names.len()
    &&& forall|k: int|
        0 <= k < found.len() ==> {
            &&& (#[trigger] found[k]) < subplugins.len()
            &&& subplugins[found[k] as int].id@ == names[k]@
        }
}

/// The graph of indices is the dependency relation.
proof fn lemma_same_graph(subplugins: Seq<SubpluginManifest>, targets: Seq<Vec<usize>>)
    requires
        targets.len() == subplugins.len(),
        resolved(subplugins, targets),
        ids(subplugins).no_duplicates(),
    ensures
        arrows(targets) == dependency(subplugins),
{
    assert forall|a: int, b: int| arrow(targets, a, b) == depends(subplugins, a, b) by {
        if 0 <= a < subplugins.len() && 0 <= b < subplugins.len() {
            let names = text::texts(subplugins[a].dependencies@);
            assert(resolves(subplugins, subplugins[a].dependencies@, targets[a]@));
            if arrow(targets, a, b) {
                let k = choose|k: int| 0 <= k < targets[a]@.len() && #[trigger] targets[a]@[k] == b;
                assert(names[k] == subplugins[b].id@);
            }
            if depends(subplugins, a, b) {
                let k = choose|k: int| 0 <= k < names.len() && names[k] == subplugins[b].id@;
                let found = targets[a]@[k] as int;
                assert(ids(subplugins)[found] == ids(subplugins)[b]);
                assert(targets[a]@[k] == b);
            }
        }
    }
    assert(arrows(targets) =~= dependency(subplugins));
}

/// Where the subplugin named `id` stands.
fn position(subplugins: &Vec<SubpluginManifest>, id: &str) -> (at: Option<usize>)
    ensures
        match at {
            Some(at) => at < subplugins@.len() && subplugins@[at as int].id@ == id@,
            None => !ids(subplugins@).contains(id@),
        },
{
    let mut i: usize = 0;
    while i < subplugins.len()
        invariant
            i <= subplugins@.len(),
            forall|k: int| 0 <= k < i ==> ids(subplugins@)[k] != id@,
        decreases subplugins@.len() - i,
    {
        if text::same(subplugins[i].id.as_str(), id) {
            return Some(i);
        }
        i += 1;
    }
    None
}

/// Whether two subplugins share an id.
fn ids_repeat(subplugins: &Vec<SubpluginManifest>) -> (repeat: bool)
    ensures
        repeat == !ids(subplugins@).no_duplicates(),
{
    let mut i: usize = 0;
    while i < subplugins.len()
        invariant
            i <= subplugins@.len(),
            forall|a: int, b: int|
                0 <= a < b < i ==> ids(subplugins@)[a] != ids(subplugins@)[b],
        decreases subplugins@.len() - i,
    {
        let mut k: usize = 0;
        while k < i
            invariant
                k <= i < subplugins@.len(),
                forall|a: int| 0 <= a < k ==> ids(subplugins@)[a] != ids(subplugins@)[i as int],
            decreases i - k,
        {
            if text::same(subplugins[k].id.as_str(), subplugins[i].id.as_str()) {
                assert(ids(subplugins@)[k as int] == ids(subplugins@)[i as int]);
                return true;
            }
            k += 1;
        }
        i += 1;
    }
    false
}

/// Checks the pages and dependencies of one subplugin and notes its pages in `seen`.
#[verifier::loop_isolation(false)]
fn check_declarations(
    subplugins: &Vec<SubpluginManifest>,
    at: usize,
    seen: &mut Vec<String>,
) -> (outcome: Result<Vec<usize>, ManifestError>)
    requires
        at < subplugins@.len(),
        text::texts(old(seen)@) == declared_pages(subplugins@.take(at as int)),
    ensures
        match outcome {
            Ok(found) => {
                &&& fault_of(
                    declared_pages(subplugins@.take(at as int)),
                    ids(subplugins@),
                    subplugins@[at as int],
                ) is None
                &&& resolves(subplugins@, subplugins@[at as int].dependencies@, found@)
                &&& text::texts(final(seen)@) == declared_pages(subplugins@.take(at as int + 1))
            },
            Err(error) => names_fault(
                error,
                fault_of(
                    declared_pages(subplugins@.take(at as int)),
                    ids(subplugins@),
                    subplugins@[at as int],
                ),
            ),
        },
{
    let subplugin = &subplugins[at];
    let ghost before = declared_pages(subplugins@.take(at as int));
    let ghost pages = text::texts(subplugin.pages@);
    let ghost names = text::texts(subplugin.dependencies@);
    if text::is_blank(subplugin.id.as_str()) {
        return Err(ManifestError::EmptySubpluginId);
    }
    let mut k: usize = 0;
    assert(pages.skip(0) =~= pages);
    assert(before + pages.take(0) =~= before);
    while k < subplugin.pages.len()
        invariant
            k <= subplugin.pages@.len(),
            pages == text::texts(subplugin.pages@),
            text::texts(seen@) == before + pages.take(k as int),
            first_repeat(before, pages) == first_repeat(
                before + pages.take(k as int),
                pages.skip(k as int),
            ),
        decreases subplugin.pages@.len() - k,
    {
        let page = &subplugin.pages[k];
        assert(pages.skip(k as int)[0] == page@);
        if text::holds(seen, page.as_str()) {
            return Err(ManifestError::DuplicatePage { page: page.clone() });
        }
        let ghost earlier = text::texts(seen@);
        seen.push(page.clone());
        assert(text::texts(seen@) =~= earlier.push(page@));
        assert(before + pages.take(k as int + 1) =~= earlier.push(page@));
        assert(pages.skip(k as int).drop_first() =~= pages.skip(k as int + 1));
        k += 1;
    }
    assert(pages.take(k as int) =~= pages);
    let mut found: Vec<usize> = Vec::new();
    let mut d: usize = 0;
    assert(names.skip(0) =~= names);
    while d < subplugin.dependencies.len()
        invariant
            d <= subplugin.dependencies@.len(),
            names == text::texts(subplugin.dependencies@),
            resolves(subplugins@, subplugin.dependencies@.take(d as int), found@),
            first_unknown(ids(subplugins@), names) == first_unknown(
                ids(subplugins@),
                names.skip(d as int),
            ),
        decreases subplugin.dependencies@.len() - d,
    {
        let name = &subplugin.dependencies[d];
        assert(names.skip(d as int)[0] == name@);
        match position(subplugins, name.as_str()) {
            Some(target) => {
                assert(ids(subplugins@)[target as int] == name@);
                assert(ids(subplugins@).contains(name@));
                found.push(target);
            },
            None => {
                return Err(
                    ManifestError::MissingDependency {
                        plugin: subplugin.id.clone(),
                        dependency: name.clone(),
                    },
                );
            },
        }
        assert(names.skip(d as int).drop_first() =~= names.skip(d as int + 1));
        d += 1;
    }
    assert(subplugin.dependencies@.take(d as int) =~= subplugin.dependencies@);
    proof {
        lemma_pages_grow(subplugins@, at as int);
    }
    Ok(found)
}

/// Whether an error names the given fault of the declarations.
pub open spec fn names_fault(error: ManifestError, fault: Option<Fault>) -> bool {
    match fault {
        Some(Fault::EmptyId) => error is EmptySubpluginId,
        Some(Fault::Repeated(page)) => error matches ManifestError::DuplicatePage { page: named }
            && named@ == page,
        Some(Fault::Unknown(plugin, dependency)) => error matches ManifestError::MissingDependency {
            plugin: named,
            dependency: missing,
        } && named@ == plugin && missing@ == dependency,
        None => false,
    }
}

/// Checks a manifest. The faults are looked for in this order: the artifact, the
/// capabilities, the ids, each subplugin's declarations, cycles among the dependencies.
pub fn validate(manifest: &RepositoryManifest) -> (outcome: Result<(), ManifestError>)
    ensures
        outcome is Ok <==> well_formed(*manifest),
        outcome matches Err(error) ==> {
            let subplugins = manifest.plugin.subplugins@;
            let fault = first_fault(subplugins, 0);
            if text::blank(manifest.plugin.runtime.artifact@) {
                error is EmptyArtifact
            } else if !granted(*manifest) {
                error is UngrantedCapability
            } else if !ids(subplugins).no_duplicates() {
                error is DuplicateSubplugin
            } else if fault is Some {
                names_fault(error, fault)
            } else {
                error matches ManifestError::DependencyCycle { plugin } && exists|at: int|
                    on_cycle(dependency(subplugins), at) && #[trigger] ids(subplugins)[at]
                        == plugin@
            }
        },
{
    if text::is_blank(manifest.plugin.runtime.artifact.as_str()) {
        return Err(ManifestError::EmptyArtifact);
    }
    if manifest.plugin.runtime.kind == PluginRuntime::WasmComponent {
        if !(manifest.plugin.capabilities.network.is_empty()
            && manifest.plugin.capabilities.filesystem.is_empty()
            && !manifest.plugin.capabilities.database) {
            return Err(ManifestError::UngrantedCapability);
        }
    }
    let subplugins = &manifest.plugin.subplugins;
    proof {
        lemma_no_fault(subplugins@);
    }
    if ids_repeat(subplugins) {
        return Err(ManifestError::DuplicateSubplugin);
    }
    let mut seen: Vec<String> = Vec::new();
    let mut targets: Vec<Vec<usize>> = Vec::new();
    let mut states: Vec<Option<VisitState>> = Vec::new();
    let mut i: usize = 0;
    assert(text::texts(seen@) =~= declared_pages(subplugins@.take(0)));
    while i < subplugins.len()
        invariant
            i <= subplugins@.len(),
            subplugins == manifest.plugin.subplugins,
            targets@.len() == i,
            states@.len() == i,
            runnable(*manifest),
            ids(subplugins@).no_duplicates(),
            text::texts(seen@) == declared_pages(subplugins@.take(i as int)),
            first_fault(subplugins@, 0) == first_fault(subplugins@, i as int),
            first_fault(subplugins@, 0) is None <==> declarations_hold(subplugins@),
            resolved(subplugins@, targets@),
            forall|k: int| 0 <= k < i ==> #[trigger] states@[k] is None,
        decreases subplugins@.len() - i,
    {
        match check_declarations(subplugins, i, &mut seen) {
            Ok(found) => {
                let ghost earlier = targets@;
                targets.push(found);
                assert forall|a: int| 0 <= a < targets@.len() implies resolves(
                    subplugins@,
                    (#[trigger] subplugins@[a]).dependencies@,
                    targets@[a]@,
                ) by {
                    if a < i {
                        assert(targets@[a] == earlier[a]);
                    }
                }
            },
            Err(error) => return Err(error),
        }
        states.push(None);
        i += 1;
    }
    let ghost step = arrows(targets@);
    proof {
        lemma_same_graph(subplugins@, targets@);
        assert forall|a: int, k: int|
            0 <= a < targets@.len() && 0 <= k < targets@[a]@.len() implies #[trigger]
            targets@[a]@[k] < targets@.len() by {
            assert(resolves(subplugins@, subplugins@[a].dependencies@, targets@[a]@));
        }
        assert(ranked(targets@, states@, states@, Seq::new(targets@.len(), |a: int| 0nat)));
    }
    let ghost fresh = states@;
    let mut n: usize = 0;
    while n < targets.len()
        invariant
            n <= targets@.len(),
            subplugins == manifest.plugin.subplugins,
            targets@.len() == subplugins@.len(),
            states@.len() == targets@.len(),
            closed_graph(targets@),
            fresh.len() == targets@.len(),
            forall|w: int| 0 <= w < fresh.len() ==> #[trigger] fresh[w] is None,
            keeps(fresh, states@),
            settled(targets@, fresh, states@),
            arrows(targets@) == dependency(subplugins@),
            runnable(*manifest),
            ids(subplugins@).no_duplicates(),
            declarations_hold(subplugins@),
            first_fault(subplugins@, 0) is None,
            forall|w: int|
                0 <= w < targets@.len() ==> #[trigger] states@[w] != Some(VisitState::Visiting),
            forall|w: int| 0 <= w < n ==> #[trigger] states@[w] == Some(VisitState::Visited),
        decreases targets@.len() - n,
    {
        let ghost before = states@;
        match visit(n, &targets, &mut states) {
            Ok(()) => {},
            Err(at) => {
                proof {
                    lemma_more_steps(
                        open_arrows(targets@, before),
                        arrows(targets@),
                        at as int,
                        at as int,
                    );
                }
                assert(before[at as int] != Some(VisitState::Visiting));
                assert(ids(subplugins@)[at as int] == subplugins@[at as int].id@);
                assert(!acyclic(dependency(subplugins@)));
                return Err(ManifestError::DependencyCycle { plugin: subplugins[at].id.clone() });
            },
        }
        proof {
            lemma_settle_on(targets@, fresh, before, states@);
            assert(leads(
                open_arrows(targets@, before),
                seq![n as int],
                n as int,
                n as int,
            ));
            assert(reaches(open_arrows(targets@, before), n as int, n as int));
            assert forall|w: int| 0 <= w < targets@.len() implies #[trigger] states@[w] != Some(
                VisitState::Visiting,
            ) by {
                assert(before[w] != Some(VisitState::Visiting));
            }
            assert forall|w: int| 0 <= w < n + 1 implies #[trigger] states@[w] == Some(
                VisitState::Visited,
            ) by {
                if w < n {
                    assert(before[w] == Some(VisitState::Visited));
                }
            }
        }
        n += 1;
    }
    proof {
        assert forall|at: int| !on_cycle(arrows(targets@), at) by {
            if on_cycle(arrows(targets@), at) {
                let path = choose|path: Seq<int>| #[trigger]
                    leads(arrows(targets@), path, at, at) && path.len() > 1;
                assert(arrows(targets@)(path[0], path[1]));
                assert(leads(open_arrows(targets@, fresh), seq![at], at, at));
                lemma_more_steps(arrows(targets@), open_arrows(targets@, fresh), at, at);
                lemma_finished(targets@, fresh, states@, at);
                assert(reaches(open_arrows(targets@, fresh), at, at));
                assert(obstacle(targets@, fresh, at));
            }
        }
    }
    Ok(())
}

// Laws

proof fn lemma_depends(subplugins: Seq<SubpluginManifest>, a: int, b: int)
    requires
        0 <= a < subplugins.len(),
        0 <= b < subplugins.len(),
    ensures
        depends(subplugins, a, b) <==> exists|k: int|
            0 <= k < subplugins[a].dependencies@.len()
                && (#[trigger] subplugins[a].dependencies@[k])@
                == subplugins[b].id@,
{
    let names = text::texts(subplugins[a].dependencies@);
    if depends(subplugins, a, b) {
        let k = choose|k: int| 0 <= k < names.len() && names[k] == subplugins[b].id@;
        assert(subplugins[a].dependencies@[k]@ == subplugins[b].id@);
    }
    if exists|k: int|
        0 <= k < subplugins[a].dependencies@.len() && (#[trigger] subplugins[a].dependencies@[k])@
            == subplugins[b].id@ {
        let k = choose|k: int|
            0 <= k < subplugins[a].dependencies@.len() && (
            #[trigger] subplugins[a].dependencies@[k])@ == subplugins[b].id@;
        assert(names[k] == subplugins[b].id@);
    }
}

/// An accepted manifest names an artifact, asks for nothing that a component may not have, gives
/// each subplugin an id of its own, declares no page twice and names only dependencies that are
/// there.
pub proof fn lemma_accepted_manifests(manifest: RepositoryManifest)
    requires
        well_formed(manifest),
    ensures
        !text::blank(manifest.plugin.runtime.artifact@),
        manifest.plugin.runtime.kind is WasmComponent
            ==> manifest.plugin.capabilities.network@.len() == 0
            && manifest.plugin.capabilities.filesystem@.len() == 0
            && !manifest.plugin.capabilities.database,
        forall|i: int| 0 <= i < manifest.plugin.subplugins@.len()
            ==> !text::blank((#[trigger] manifest.plugin.subplugins@[i]).id@),
        forall|i: int, j: int| 0 <= i < j < manifest.plugin.subplugins@.len()
            ==> (#[trigger] manifest.plugin.subplugins@[i]).id@
            != (#[trigger] manifest.plugin.subplugins@[j]).id@,
        forall|i: int, k: int, j: int,
            l: int| #![trigger manifest.plugin.subplugins@[i].pages@[k],
            manifest.plugin.subplugins@[j].pages@[l]] 0 <= i < manifest.plugin.subplugins@.len()
            && 0 <= k < manifest.plugin.subplugins@[i].pages@.len()
            && 0 <= j < manifest.plugin.subplugins@.len()
            && 0 <= l < manifest.plugin.subplugins@[j].pages@.len() && (i != j || k != l)
            ==> manifest.plugin.subplugins@[i].pages@[k]@
            != manifest.plugin.subplugins@[j].pages@[l]@,
        forall|i: int, k: int| 0 <= i < manifest.plugin.subplugins@.len()
            && 0 <= k < manifest.plugin.subplugins@[i].dependencies@.len()
            ==> exists|j: int| 0 <= j < manifest.plugin.subplugins@.len()
            && (#[trigger] manifest.plugin.subplugins@[j]).id@
            == (#[trigger] manifest.plugin.subplugins@[i].dependencies@[k])@,
{
    let subplugins = manifest.plugin.subplugins@;
    let all = ids(subplugins);
    assert forall|i: int, j: int| 0
        <= i < j < subplugins.len() implies (#[trigger] subplugins[i]).id@
        != (#[trigger] subplugins[j]).id@ by {
        assert(all[i] == subplugins[i].id@ && all[j] == subplugins[j].id@);
    }
    lemma_pages_apart(subplugins);
    assert forall|i: int, k: int, j: int, l: int|
        #![trigger subplugins[i].pages@[k], subplugins[j].pages@[l]]
        0 <= i < subplugins.len() && 0 <= k < subplugins[i].pages@.len() && 0 <= j
            < subplugins.len() && 0 <= l < subplugins[j].pages@.len() && (i != j || k
            != l) implies subplugins[i].pages@[k]@ != subplugins[j].pages@[l]@ by {
        let (left, right) = (pages_at(subplugins, i), pages_at(subplugins, j));
        assert(left[k] == subplugins[i].pages@[k]@ && right[l] == subplugins[j].pages@[l]@);
        assert(left.contains(left[k]) && right.contains(right[l]));
        if i == j {
            assert(left.no_duplicates());
        }
    }
    assert forall|i: int, k: int|
        0 <= i < subplugins.len() && 0 <= k < subplugins[i].dependencies@.len() implies exists|
        j: int,
    |
        0 <= j < subplugins.len() && (#[trigger] subplugins[j]).id@ == (
        #[trigger] subplugins[i].dependencies@[k])@ by {
        let wanted = subplugins[i].dependencies@[k]@;
        assert(all.contains(wanted));
        let j = choose|j: int| 0 <= j < all.len() && all[j] == wanted;
        assert(subplugins[j].id@ == wanted);
    }
}

/// In an accepted manifest no chain of dependencies leads from a subplugin back to it.
pub proof fn lemma_accepted_dependencies_end(manifest: RepositoryManifest, path: Seq<int>)
    requires
        well_formed(manifest),
        path.len() > 1,
        path[0] == path.last(),
    ensures
        exists|n: int|
            0 < n < path.len() && !depends(
                manifest.plugin.subplugins@,
                path[n - 1],
                #[trigger] path[n],
            ),
{
    let subplugins = manifest.plugin.subplugins@;
    let step = dependency(subplugins);
    if !walk(step, path) {
        let n = choose|n: int| 0 < n < path.len() && !step(path[n - 1], #[trigger] path[n]);
        assert(!depends(subplugins, path[n - 1], path[n]));
    } else {
        assert(leads(step, path, path[0], path[0]));
        assert(on_cycle(step, path[0]));
    }
}

/// Every such manifest is accepted, where no chain of dependencies comes back to where it began.
pub proof fn lemma_sound_manifests_are_accepted(manifest: RepositoryManifest)
    requires
        !text::blank(manifest.plugin.runtime.artifact@),
        manifest.plugin.runtime.kind is WasmComponent
            ==> manifest.plugin.capabilities.network@.len() == 0
            && manifest.plugin.capabilities.filesystem@.len() == 0
            && !manifest.plugin.capabilities.database,
        forall|i: int| 0 <= i < manifest.plugin.subplugins@.len()
            ==> !text::blank((#[trigger] manifest.plugin.subplugins@[i]).id@),
        forall|i: int, j: int| 0 <= i < j < manifest.plugin.subplugins@.len()
            ==> (#[trigger] manifest.plugin.subplugins@[i]).id@
            != (#[trigger] manifest.plugin.subplugins@[j]).id@,
        forall|i: int, k: int, j: int,
            l: int| #![trigger manifest.plugin.subplugins@[i].pages@[k],
            manifest.plugin.subplugins@[j].pages@[l]] 0 <= i < manifest.plugin.subplugins@.len()
            && 0 <= k < manifest.plugin.subplugins@[i].pages@.len()
            && 0 <= j < manifest.plugin.subplugins@.len()
            && 0 <= l < manifest.plugin.subplugins@[j].pages@.len() && (i != j || k != l)
            ==> manifest.plugin.subplugins@[i].pages@[k]@
            != manifest.plugin.subplugins@[j].pages@[l]@,
        forall|i: int, k: int| 0 <= i < manifest.plugin.subplugins@.len()
            && 0 <= k < manifest.plugin.subplugins@[i].dependencies@.len()
            ==> exists|j: int| 0 <= j < manifest.plugin.subplugins@.len()
            && (#[trigger] manifest.plugin.subplugins@[j]).id@
            == (#[trigger] manifest.plugin.subplugins@[i].dependencies@[k])@,
        forall|path: Seq<int>| #![trigger walk(dependency(manifest.plugin.subplugins@),
            path)] path.len() > 1 && path[0] == path.last()
            ==> exists|n: int| 0 < n < path.len()
            && !depends(manifest.plugin.subplugins@, path[n - 1], #[trigger] path[n]),
    ensures
        well_formed(manifest),
{
    let subplugins = manifest.plugin.subplugins@;
    let all = ids(subplugins);
    assert forall|a: int, b: int| 0 <= a < all.len() && 0 <= b < all.len() && a != b implies all[a]
        != all[b] by {
        assert(all[a] == subplugins[a].id@ && all[b] == subplugins[b].id@);
    }
    assert(pages_apart(subplugins)) by {
        assert forall|i: int| 0 <= i < subplugins.len() implies #[trigger] pages_at(
            subplugins,
            i,
        ).no_duplicates() by {
            let own = pages_at(subplugins, i);
            assert forall|a: int, b: int|
                0 <= a < own.len() && 0 <= b < own.len() && a != b implies own[a] != own[b] by {
                assert(own[a] == subplugins[i].pages@[a]@ && own[b] == subplugins[i].pages@[b]@);
            }
        }
        assert forall|i: int, j: int, page: Seq<char>|
            0 <= i < subplugins.len() && 0 <= j < subplugins.len() && i != j && #[trigger] pages_at(
                subplugins,
                i,
            ).contains(page) implies !#[trigger] pages_at(subplugins, j).contains(page) by {
            let (left, right) = (pages_at(subplugins, i), pages_at(subplugins, j));
            let k = choose|k: int| 0 <= k < left.len() && left[k] == page;
            if right.contains(page) {
                let l = choose|l: int| 0 <= l < right.len() && right[l] == page;
                assert(subplugins[i].pages@[k]@ == page && subplugins[j].pages@[l]@ == page);
            }
        }
    }
    lemma_pages_apart(subplugins);
    assert forall|i: int, k: int|
        0 <= i < subplugins.len() && 0
            <= k < subplugins[i].dependencies@.len() implies all.contains(
        (#[trigger] subplugins[i].dependencies@[k])@,
    ) by {
        let wanted = subplugins[i].dependencies@[k]@;
        let j = choose|j: int|
            0 <= j < subplugins.len() && (#[trigger] subplugins[j]).id@ == wanted;
        assert(all[j] == wanted);
    }
    let step = dependency(subplugins);
    assert forall|at: int| !on_cycle(step, at) by {
        if on_cycle(step, at) {
            let path = choose|path: Seq<int>| #[trigger]
                leads(step, path, at, at) && path.len() > 1;
            assert(walk(step, path));
            let n = choose|n: int|
                0 < n < path.len() && !depends(subplugins, path[n - 1], #[trigger] path[n]);
            assert(step(path[n - 1], path[n]));
        }
    }
}

/// One subplugin builds on another where it names the other's id among its dependencies.
pub proof fn lemma_which_subplugins_build_on_others(subplugins: Seq<SubpluginManifest>, a: int,
    b: int)
    requires
        0 <= a < subplugins.len(),
        0 <= b < subplugins.len(),
    ensures
        depends(subplugins, a, b) <==> exists|k: int| 0 <= k < subplugins[a].dependencies@.len()
            && (#[trigger] subplugins[a].dependencies@[k])@ == subplugins[b].id@,
{
    lemma_depends(subplugins, a, b);
}

/// Of a subplugin its id is checked first, its pages next and its dependencies last; what is told
/// names the first page that was declared before, or the first dependency that is not there.
pub proof fn lemma_first_fault_of_a_subplugin(seen: Seq<Seq<char>>, known: Seq<Seq<char>>,
    subplugin: SubpluginManifest)
    ensures
        ({
            let fault = fault_of(seen, known, subplugin);
            let repeat = first_repeat(seen, text::texts(subplugin.pages@));
            let unknown = first_unknown(known, text::texts(subplugin.dependencies@));
            &&& text::blank(subplugin.id@) ==> fault == Some(Fault::EmptyId)
            &&& !text::blank(subplugin.id@) && repeat is Some
                ==> fault == Some(Fault::Repeated(repeat->0))
            &&& !text::blank(subplugin.id@) && repeat is None && unknown is Some
                ==> fault == Some(Fault::Unknown(subplugin.id@, unknown->0))
            &&& !text::blank(subplugin.id@) && repeat is None && unknown is None ==> fault is None
        }),
{
}

/// A page is repeated where it was seen before; a dependency is unknown where no subplugin has its
/// id.
pub proof fn lemma_what_is_repeated_or_unknown(seen: Seq<Seq<char>>, wanted: Seq<Seq<char>>,
    first: Seq<char>)
    ensures
        first_repeat(seen, Seq::<Seq<char>>::empty()) is None,
        first_unknown(seen, Seq::<Seq<char>>::empty()) is None,
        seen.contains(first) ==> first_repeat(seen, seq![first] + wanted) == Some(first),
        !seen.contains(first) ==> first_repeat(seen, seq![first] + wanted)
            == first_repeat(seen.push(first), wanted),
        !seen.contains(first) ==> first_unknown(seen, seq![first] + wanted) == Some(first),
        seen.contains(first) ==> first_unknown(seen, seq![first] + wanted)
            == first_unknown(seen, wanted),
{
    let all = seq![first] + wanted;
    assert(all[0] == first);
    assert(all.drop_first() =~= wanted);
}

/// An error names the fault that was found.
pub proof fn lemma_named_faults(error: ManifestError, page: Seq<char>, plugin: Seq<char>,
    dependency: Seq<char>)
    ensures
        names_fault(error, Some(Fault::EmptyId)) <==> error is EmptySubpluginId,
        names_fault(error, Some(Fault::Repeated(page)))
            <==> error is DuplicatePage && error->page@ == page,
        names_fault(error, Some(Fault::Unknown(plugin, dependency)))
            <==> error is MissingDependency && error->MissingDependency_plugin@ == plugin
            && error->dependency@ == dependency,
        !names_fault(error, None),
{
}

/// Each of these is told in its own words.
pub proof fn lemma_told_manifest_error(fault: ManifestError)
    ensures
        fault is EmptyArtifact ==> fault.text() == "插件 artifact 不能为空"@,
        fault is UngrantedCapability ==> fault.text() == "当前 Wasm Component 宿主未授予网络、文件系统或数据库能力"@,
        fault is DuplicateSubplugin ==> fault.text() == "子插件 id 重复"@,
        fault is EmptySubpluginId ==> fault.text() == "子插件 id 不能为空"@,
{
}

} // verus!
