//! Proofs that bytes belong to a Git commit: the commit, the trees on the way and the blob are
//! each named by the digest of what they hold.
use vstd::prelude::*;
use vstd::slice::slice_subrange;

use crate::outside;
use crate::runtime::model::{GitTreeProof, PublishPluginRequest};
use crate::steps;
use crate::text;

verus! {

pub const MAX_COMMIT_BYTES: usize = 131072;

pub const MAX_TREE_BYTES: usize = 4194304;

pub const MAX_TREES: usize = 64;

/// The number of bytes of an object id inside a tree.
pub const RAW_OID_BYTES: usize = 20;

/// A tree object whose content has the digest that names it.
#[derive(Debug)]
pub struct GitTree {
    pub oid: String,
    pub content: Vec<u8>,
}

/// What is wrong with the bytes of a tree object.
#[derive(Clone, Copy, Debug, PartialEq, Eq, Structural)]
pub enum EntryFault {
    ModeMissing,
    NameMissing,
    OidShort,
}

/// Why a path of a commit does not lead to the expected bytes.
#[derive(Clone, Copy, Debug, PartialEq, Eq, Structural)]
pub enum PathFault {
    Invalid,
    Unproved,
    Entry(EntryFault),
    Absent,
    NotAFile,
    ContentMismatch,
    NotADirectory,
}

/// A path that does not lead to the expected bytes, and the tree at which it was left.
#[derive(Debug)]
pub struct GitPathError {
    pub fault: PathFault,
    pub path: String,
    pub tree: String,
}

/// What is wrong with a commit object, or with the trees sent along with it.
#[derive(Clone, Debug, PartialEq, Eq)]
pub enum ObjectFault<T> {
    CommitEncoding(T),
    CommitTooLarge,
    RevisionMismatch,
    CommitTreeNotText(T),
    CommitTreeInvalid,
    CommitTreeMissing,
    TreesMissing,
    TooManyTrees,
    TreeOidInvalid,
    TreeEncoding(T),
    TreesTooLarge,
    TreeMismatch,
    TreeDuplicate,
    RuntimeMissing,
}

impl View for ObjectFault<String> {
    type V = ObjectFault<Seq<char>>;

    open spec fn view(&self) -> ObjectFault<Seq<char>> {
        match self {
            ObjectFault::CommitEncoding(told) => ObjectFault::CommitEncoding(told@),
            ObjectFault::CommitTooLarge => ObjectFault::CommitTooLarge,
            ObjectFault::RevisionMismatch => ObjectFault::RevisionMismatch,
            ObjectFault::CommitTreeNotText(told) => ObjectFault::CommitTreeNotText(told@),
            ObjectFault::CommitTreeInvalid => ObjectFault::CommitTreeInvalid,
            ObjectFault::CommitTreeMissing => ObjectFault::CommitTreeMissing,
            ObjectFault::TreesMissing => ObjectFault::TreesMissing,
            ObjectFault::TooManyTrees => ObjectFault::TooManyTrees,
            ObjectFault::TreeOidInvalid => ObjectFault::TreeOidInvalid,
            ObjectFault::TreeEncoding(told) => ObjectFault::TreeEncoding(told@),
            ObjectFault::TreesTooLarge => ObjectFault::TreesTooLarge,
            ObjectFault::TreeMismatch => ObjectFault::TreeMismatch,
            ObjectFault::TreeDuplicate => ObjectFault::TreeDuplicate,
            ObjectFault::RuntimeMissing => ObjectFault::RuntimeMissing,
        }
    }
}

/// Why a proof is refused.
#[derive(Debug)]
pub enum GitProofError {
    Object(ObjectFault<String>),
    Path(GitPathError),
}

// Names of objects

/// The name of an object: the digest of its kind, its length and its content.
pub open spec fn object_name(kind: Seq<char>, content: Seq<u8>) -> Seq<char> {
    text::hex(
        outside::sha1(
            vstd::utf8::encode_utf8(
                kind + seq![' '] + text::decimal(content.len()) + seq!['\0'],
            ) + content,
        ),
    )
}

/// The name of the object of this kind with this content.
pub fn object_id(kind: &str, content: &[u8]) -> (oid: String)
    ensures
        oid@ == object_name(kind@, content@),
        oid_text(oid@),
{
    let mut header = kind.to_owned();
    header.push(' ');
    let length = text::decimal_text(content.len() as u64);
    header.append(length.as_str());
    header.push('\0');
    assert(header@ =~= kind@ + seq![' '] + text::decimal(content@.len()) + seq!['\0']);
    let oid = outside::sha1_hex(header.as_str().as_bytes(), content);
    proof {
        text::lemma_hex(
            outside::sha1(
                vstd::utf8::encode_utf8(
                    kind@ + seq![' '] + text::decimal(content@.len()) + seq!['\0'],
                ) + content@,
            ),
        );
    }
    oid
}

/// Whether a text is an object id: 40 hexadecimal digits.
pub open spec fn oid_text(value: Seq<char>) -> bool {
    value.len() == 40 && text::all_hex(value)
}

/// Whether `value` is an object id.
pub fn is_oid(value: &str) -> (yes: bool)
    ensures
        yes == oid_text(value@),
{
    text::is_hex_text(value, 40)
}

/// The text of an object id that a tree holds as bytes.
pub fn hex_oid(bytes: &[u8]) -> (oid: String)
    ensures
        oid@ == text::hex(bytes@),
        bytes@.len() == RAW_OID_BYTES ==> oid_text(oid@),
{
    proof {
        text::lemma_hex(bytes@);
    }
    text::hex_text(bytes)
}

// Commits

/// The lines of a commit before its first empty line.
pub open spec fn header_lines(commit: Seq<u8>) -> Seq<Seq<u8>> {
    let lines = text::split_on(commit, 10u8);
    lines.take(text::first_index(lines, Seq::<u8>::empty()))
}

/// What stands before the id in a tree header.
pub open spec fn tree_label() -> Seq<u8> {
    vstd::utf8::encode_utf8("tree "@)
}

/// What follows the label in each of the lines that begin with it.
pub open spec fn tree_values(lines: Seq<Seq<u8>>) -> Seq<Seq<u8>>
    decreases lines.len(),
{
    if lines.len() == 0 {
        Seq::empty()
    } else {
        let values = tree_values(lines.drop_last());
        if tree_label().is_prefix_of(lines.last()) {
            values.push(lines.last().skip(tree_label().len() as int))
        } else {
            values
        }
    }
}

/// The tree that the values of a commit's tree headers name: there must be exactly one, and it
/// must be an object id.
pub open spec fn tree_header(values: Seq<Seq<u8>>) -> Result<Seq<char>, ObjectFault<Seq<char>>> {
    if values.len() == 0 {
        Err(ObjectFault::CommitTreeMissing)
    } else if !vstd::utf8::valid_utf8(values[0]) {
        Err(ObjectFault::CommitTreeNotText(outside::utf8_error(values[0])))
    } else if !oid_text(vstd::utf8::decode_utf8(values[0])) {
        Err(ObjectFault::CommitTreeInvalid)
    } else if values.len() > 1 {
        if !vstd::utf8::valid_utf8(values[1]) {
            Err(ObjectFault::CommitTreeNotText(outside::utf8_error(values[1])))
        } else {
            Err(ObjectFault::CommitTreeInvalid)
        }
    } else {
        Ok(text::lowered(vstd::utf8::decode_utf8(values[0])))
    }
}

/// The root tree that a commit names.
pub open spec fn root_of(commit: Seq<u8>) -> Result<Seq<char>, ObjectFault<Seq<char>>> {
    tree_header(tree_values(header_lines(commit)))
}

proof fn lemma_tree_values_grow(lines: Seq<Seq<u8>>, count: int, more: int)
    requires
        0 <= count <= more <= lines.len(),
    ensures
        tree_values(lines.take(count)).len() <= tree_values(lines.take(more)).len(),
        forall|i: int|
            0 <= i < tree_values(lines.take(count)).len() ==> tree_values(lines.take(more))[i]
                == tree_values(lines.take(count))[i],
    decreases more - count,
{
    if count < more {
        lemma_tree_values_grow(lines, count, more - 1);
        assert(lines.take(more).drop_last() =~= lines.take(more - 1));
    }
}

/// What follows `prefix` in `bytes`, where they begin with it.
fn strip_bytes<'a>(bytes: &'a [u8], prefix: &[u8]) -> (rest: Option<&'a [u8]>)
    ensures
        match rest {
            Some(rest) => prefix@.is_prefix_of(bytes@)
                && rest@ == bytes@.skip(prefix@.len() as int),
            None => !prefix@.is_prefix_of(bytes@),
        },
{
    if prefix.len() > bytes.len() {
        return None;
    }
    let start = slice_subrange(bytes, 0, prefix.len());
    if !text::same_bytes(start, prefix) {
        return None;
    }
    let rest = slice_subrange(bytes, prefix.len(), bytes.len());
    assert(rest@ =~= bytes@.skip(prefix@.len() as int));
    Some(rest)
}

/// Reads the root tree out of the headers of a commit.
pub fn commit_tree(commit: &[u8]) -> (outcome: Result<String, ObjectFault<String>>)
    ensures
        match outcome {
            Ok(tree) => root_of(commit@) matches Ok(root) && root == tree@,
            Err(fault) => root_of(commit@) matches Err(due) && due == fault@,
        },
{
    let lines = text::split_bytes(commit, 10);
    let label = "tree ".as_bytes();
    let ghost rows = text::split_on(commit@, 10u8);
    let ghost end = text::first_index(rows, Seq::<u8>::empty());
    let ghost header = header_lines(commit@);
    proof {
        text::lemma_first_index(rows, Seq::<u8>::empty());
    }
    let mut tree: Option<String> = None;
    let mut i: usize = 0;
    assert(tree_values(header.take(0)) =~= Seq::<Seq<u8>>::empty());
    while i < lines.len()
        invariant
            i <= end <= lines@.len(),
            text::byte_rows(lines@) == rows,
            header == rows.take(end),
            header == header_lines(commit@),
            end == text::first_index(rows, Seq::<u8>::empty()),
            end < rows.len() ==> rows[end] == Seq::<u8>::empty(),
            forall|k: int| 0 <= k < end ==> rows[k] != Seq::<u8>::empty(),
            label@ == tree_label(),
            match tree {
                None => tree_values(header.take(i as int)).len() == 0,
                Some(tree) => tree_values(header.take(i as int)).len() == 1 && tree_header(
                    tree_values(header.take(i as int)),
                ) == Ok::<Seq<char>, ObjectFault<Seq<char>>>(tree@),
            },
        ensures
            i == end,
        decreases lines@.len() - i,
    {
        let line = lines[i].as_slice();
        assert(rows[i as int] == line@);
        if line.is_empty() {
            assert(line@ =~= Seq::<u8>::empty());
            break;
        }
        assert(i < end);
        let ghost before = tree_values(header.take(i as int));
        let ghost after = tree_values(header.take(i as int + 1));
        proof {
            assert(header.take(i as int + 1).drop_last() =~= header.take(i as int));
            lemma_tree_values_grow(header, i as int + 1, end);
            assert(header.take(end) =~= header);
        }
        match strip_bytes(line, label) {
            None => {},
            Some(value) => {
                assert(after == before.push(value@));
                match outside::utf8_text(value) {
                    Err(told) => return Err(ObjectFault::CommitTreeNotText(told)),
                    Ok(value) => {
                        if tree.is_some() || !is_oid(value) {
                            return Err(ObjectFault::CommitTreeInvalid);
                        }
                        tree = Some(text::to_ascii_lowercase(value));
                    },
                }
            },
        }
        i += 1;
    }
    assert(header.take(end) =~= header);
    match tree {
        Some(tree) => Ok(tree),
        None => Err(ObjectFault::CommitTreeMissing),
    }
}

// Trees

/// The bytes of a proof's tree, or why they are not Base64.
pub open spec fn tree_content(proof_: GitTreeProof) -> Result<Seq<u8>, Seq<char>> {
    outside::base64_decoded(proof_.content_base64@)
}

/// How many bytes the trees of the proofs hold together.
pub open spec fn total_bytes(proofs: Seq<GitTreeProof>) -> int
    decreases proofs.len(),
{
    if proofs.len() == 0 {
        0
    } else {
        total_bytes(proofs.drop_last()) + match tree_content(proofs.last()) {
            Ok(content) => content.len() as int,
            Err(_) => 0,
        }
    }
}

/// The ids of the proofs, in lower case.
pub open spec fn proved_oids(proofs: Seq<GitTreeProof>) -> Seq<Seq<char>> {
    proofs.map_values(|p: GitTreeProof| text::lowered(p.oid@))
}

/// What is wrong with the proof at `at`, seen after those before it.
pub open spec fn tree_fault(proofs: Seq<GitTreeProof>, at: int) -> Option<ObjectFault<Seq<char>>> {
    let content = tree_content(proofs[at]);
    if !oid_text(proofs[at].oid@) {
        Some(ObjectFault::TreeOidInvalid)
    } else if content is Err {
        Some(ObjectFault::TreeEncoding(content->Err_0))
    } else if total_bytes(proofs.take(at + 1)) > MAX_TREE_BYTES {
        Some(ObjectFault::TreesTooLarge)
    } else if !text::same_letters(object_name("tree"@, content->Ok_0), proofs[at].oid@) {
        Some(ObjectFault::TreeMismatch)
    } else if proved_oids(proofs.take(at)).contains(text::lowered(proofs[at].oid@)) {
        Some(ObjectFault::TreeDuplicate)
    } else {
        None
    }
}

/// The fault of the first proof that has one.
pub open spec fn first_tree_fault(proofs: Seq<GitTreeProof>,
    at: int) -> Option<ObjectFault<Seq<char>>>
    decreases proofs.len() - at,
{
    if at < 0 || at >= proofs.len() {
        None
    } else if tree_fault(proofs, at) is Some {
        tree_fault(proofs, at)
    } else {
        first_tree_fault(proofs, at + 1)
    }
}

/// What is wrong with a list of proofs.
pub open spec fn trees_fault(proofs: Seq<GitTreeProof>) -> Option<ObjectFault<Seq<char>>> {
    if proofs.len() == 0 {
        Some(ObjectFault::TreesMissing)
    } else if proofs.len() > MAX_TREES {
        Some(ObjectFault::TooManyTrees)
    } else {
        first_tree_fault(proofs, 0)
    }
}

/// The names of the trees.
pub open spec fn oids(trees: Seq<GitTree>) -> Seq<Seq<char>> {
    trees.map_values(|t: GitTree| t.oid@)
}

/// Each tree is named by the digest of its content, and no two share a name.
pub open spec fn authentic(trees: Seq<GitTree>) -> bool {
    &&& forall|i: int|
        0 <= i < trees.len() ==> (#[trigger] trees[i]).oid@
            == object_name("tree"@, trees[i].content@)
    &&& oids(trees).no_duplicates()
}

/// The trees are those of the proofs.
pub open spec fn decoded(proofs: Seq<GitTreeProof>, trees: Seq<GitTree>) -> bool {
    &&& trees.len() == proofs.len()
    &&& forall|i: int|
        0 <= i < trees.len() ==> {
            &&& (#[trigger] trees[i]).oid@ == text::lowered(proofs[i].oid@)
            &&& tree_content(proofs[i]) == Ok::<Seq<u8>, Seq<char>>(trees[i].content@)
        }
}

/// The content of the tree with the given name.
pub open spec fn tree_named(trees: Seq<GitTree>, oid: Seq<char>) -> Option<Seq<u8>> {
    let at = text::first_index(oids(trees), oid);
    if at < trees.len() {
        Some(trees[at].content@)
    } else {
        None
    }
}

/// The tree with the given name.
fn find_tree<'a>(trees: &'a Vec<GitTree>, oid: &str) -> (found: Option<&'a Vec<u8>>)
    ensures
        match found {
            Some(content) => tree_named(trees@, oid@) == Some(content@),
            None => tree_named(trees@, oid@) is None,
        },
{
    let mut i: usize = 0;
    while i < trees.len()
        invariant
            i <= trees@.len(),
            forall|k: int| 0 <= k < i ==> oids(trees@)[k] != oid@,
        decreases trees@.len() - i,
    {
        if text::same(trees[i].oid.as_str(), oid) {
            proof {
                assert(oids(trees@)[i as int] == oid@);
                text::lemma_first_index_is(oids(trees@), oid@, i as int);
            }
            return Some(&trees[i].content);
        }
        i += 1;
    }
    proof {
        text::lemma_first_index_is(oids(trees@), oid@, i as int);
    }
    None
}

/// How many bytes the tree of a proof holds.
spec fn content_bytes(proof_: GitTreeProof) -> int {
    match tree_content(proof_) {
        Ok(content) => content.len() as int,
        Err(_) => 0,
    }
}

proof fn lemma_total_grows(proofs: Seq<GitTreeProof>, count: int)
    requires
        0 <= count <= proofs.len(),
    ensures
        0 <= total_bytes(proofs.take(count)) <= total_bytes(proofs),
    decreases proofs.len(),
{
    if count == proofs.len() {
        assert(proofs.take(count) =~= proofs);
        if count > 0 {
            lemma_total_grows(proofs.drop_last(), count - 1);
            assert(proofs.drop_last().take(count - 1) =~= proofs.drop_last());
        }
    } else {
        lemma_total_grows(proofs.drop_last(), count);
        assert(proofs.drop_last().take(count) =~= proofs.take(count));
    }
}

proof fn lemma_total_folds(proofs: Seq<GitTreeProof>, start: int)
    ensures
        proofs.fold_right(|p: GitTreeProof, sum: int| sum + content_bytes(p), start) == start
            + total_bytes(proofs),
    decreases proofs.len(),
{
    if proofs.len() > 0 {
        lemma_total_folds(proofs.drop_last(), start + content_bytes(proofs.last()));
    }
}

/// Whether every proof of a list is sound by itself, together they keep to the limits, and no two
/// are of one tree.
spec fn trees_hold(proofs: Seq<GitTreeProof>) -> bool {
    &&& 0 < proofs.len() <= MAX_TREES
    &&& forall|p: GitTreeProof|
        #![trigger proofs.contains(p)]
        proofs.contains(p) ==> oid_text(p.oid@) && tree_content(p) is Ok && text::same_letters(
            object_name("tree"@, tree_content(p)->Ok_0),
            p.oid@,
        )
    &&& total_bytes(proofs) <= MAX_TREE_BYTES
    &&& proved_oids(proofs).no_duplicates()
}

proof fn lemma_no_tree_fault(proofs: Seq<GitTreeProof>, from: int)
    requires
        0 <= from <= proofs.len(),
    ensures
        first_tree_fault(proofs, from) is None <==> forall|at: int|
            from <= at < proofs.len() ==> #[trigger] tree_fault(proofs, at) is None,
    decreases proofs.len() - from,
{
    if from < proofs.len() {
        lemma_no_tree_fault(proofs, from + 1);
        if tree_fault(proofs, from) is None && first_tree_fault(proofs, from + 1) is None {
            assert forall|at: int| from <= at < proofs.len() implies #[trigger] tree_fault(
                proofs,
                at,
            ) is None by {
                if at > from {
                    assert(from + 1 <= at < proofs.len());
                }
            }
        }
    }
}

proof fn lemma_trees_hold(proofs: Seq<GitTreeProof>)
    ensures
        trees_fault(proofs) is None <==> trees_hold(proofs),
{
    let names = proved_oids(proofs);
    lemma_no_tree_fault(proofs, 0);
    if trees_fault(proofs) is None {
        assert forall|p: GitTreeProof| #[trigger] proofs.contains(p) implies oid_text(p.oid@)
            && tree_content(p) is Ok && text::same_letters(
            object_name("tree"@, tree_content(p)->Ok_0),
            p.oid@,
        ) by {
            let at = choose|at: int| 0 <= at < proofs.len() && proofs[at] == p;
            assert(tree_fault(proofs, at) is None);
        }
        assert(tree_fault(proofs, proofs.len() - 1) is None);
        assert(proofs.take(proofs.len() as int) =~= proofs);
        assert forall|a: int, b: int| 0 <= a < b < names.len() implies names[a] != names[b] by {
            assert(tree_fault(proofs, b) is None);
            let before = proved_oids(proofs.take(b));
            assert(before[a] == names[a]);
            assert(before.contains(before[a]));
        }
    }
    if trees_hold(proofs) {
        assert forall|at: int| 0 <= at < proofs.len() implies #[trigger] tree_fault(proofs, at)
            is None by {
            assert(proofs.contains(proofs[at]));
            lemma_total_grows(proofs, at + 1);
            let before = proved_oids(proofs.take(at));
            if before.contains(names[at]) {
                let a = choose|a: int| 0 <= a < before.len() && before[a] == names[at];
                assert(names[a] == names[at]);
            }
        }
    }
}

proof fn lemma_trees_hold_in_any_order(proofs: Seq<GitTreeProof>, others: Seq<GitTreeProof>)
    requires
        proofs.to_multiset() == others.to_multiset(),
        trees_hold(proofs),
    ensures
        trees_hold(others),
{
    let names = proved_oids(proofs);
    proofs.to_multiset_ensures();
    others.to_multiset_ensures();
    assert forall|p: GitTreeProof| #[trigger] others.contains(p) implies proofs.contains(p) by {
        assert(others.to_multiset().count(p) > 0);
    }
    let f = |p: GitTreeProof, sum: int| sum + content_bytes(p);
    assert(vstd::seq_lib::commutative_foldr(f));
    vstd::seq_lib::lemma_fold_right_permutation(proofs, others, f, 0int);
    lemma_total_folds(proofs, 0);
    lemma_total_folds(others, 0);
    assert forall|a: int, b: int| 0 <= a < proofs.len() && 0 <= b < proofs.len() && a != b implies
        proofs[a] != proofs[b] by {
        assert(names[a] != names[b]);
    }
    proofs.lemma_multiset_has_no_duplicates();
    others.lemma_multiset_has_no_duplicates_conv();
    let shown = proved_oids(others);
    assert forall|a: int, b: int| 0 <= a < shown.len() && 0 <= b < shown.len() && a != b implies
        shown[a] != shown[b] by {
        assert(others.contains(others[a]) && others.contains(others[b]));
        assert(proofs.contains(others[a]) && proofs.contains(others[b]));
        let x = choose|x: int| 0 <= x < proofs.len() && proofs[x] == others[a];
        let y = choose|y: int| 0 <= y < proofs.len() && proofs[y] == others[b];
        assert(names[x] == shown[a] && names[y] == shown[b]);
        assert(others[a] != others[b]);
    }
}

/// The order in which trees are proved does not matter: in any order the proofs are accepted or
/// not, and those that are accepted give every name the same tree.
pub proof fn lemma_tree_order_does_not_matter(
    proofs: Seq<GitTreeProof>,
    others: Seq<GitTreeProof>,
    trees: Seq<GitTree>,
    other_trees: Seq<GitTree>,
    oid: Seq<char>,
)
    requires
        proofs.to_multiset() == others.to_multiset(),
    ensures
        trees_fault(proofs) is None <==> trees_fault(others) is None,
        trees_fault(proofs) is None && decoded(proofs, trees) && decoded(others, other_trees)
            ==> tree_named(trees, oid) == tree_named(other_trees, oid),
{
    lemma_trees_hold(proofs);
    lemma_trees_hold(others);
    if trees_hold(proofs) {
        lemma_trees_hold_in_any_order(proofs, others);
    }
    if trees_hold(others) {
        lemma_trees_hold_in_any_order(others, proofs);
    }
    if trees_hold(proofs) && decoded(proofs, trees) && decoded(others, other_trees) {
        lemma_named_in_any_order(proofs, others, trees, other_trees, oid);
        if tree_named(other_trees, oid) is Some {
            lemma_named_in_any_order(others, proofs, other_trees, trees, oid);
        }
    }
}

proof fn lemma_named_in_any_order(
    proofs: Seq<GitTreeProof>,
    others: Seq<GitTreeProof>,
    trees: Seq<GitTree>,
    other_trees: Seq<GitTree>,
    oid: Seq<char>,
)
    requires
        proofs.to_multiset() == others.to_multiset(),
        trees_hold(others),
        decoded(proofs, trees),
        decoded(others, other_trees),
    ensures
        tree_named(trees, oid) is Some ==> tree_named(other_trees, oid) == tree_named(trees, oid),
{
    text::lemma_first_index(oids(trees), oid);
    text::lemma_first_index(oids(other_trees), oid);
    let at = text::first_index(oids(trees), oid);
    if at < trees.len() {
        proofs.to_multiset_ensures();
        others.to_multiset_ensures();
        assert(proofs.contains(proofs[at]));
        assert(others.to_multiset().count(proofs[at]) > 0);
        let k = choose|k: int| 0 <= k < others.len() && others[k] == proofs[at];
        assert(trees[at].oid@ == other_trees[k].oid@);
        assert(trees[at].content@ == other_trees[k].content@);
        assert(oids(other_trees)[k] == oid);
        assert(oids(other_trees).contains(oid));
        let found = text::first_index(oids(other_trees), oid);
        assert(oids(other_trees)[found] == oid);
        assert(proved_oids(others)[k] == other_trees[k].oid@);
        assert(proved_oids(others)[found] == other_trees[found].oid@);
        assert(found == k);
    }
}

/// Decodes the trees of a proof and checks each against its name.
pub fn verified_trees(proofs: &Vec<GitTreeProof>) -> (outcome: Result<
    Vec<GitTree>,
    ObjectFault<String>,
>)
    ensures
        match outcome {
            Ok(trees) => {
                &&& trees_fault(proofs@) is None
                &&& decoded(proofs@, trees@)
                &&& authentic(trees@)
            },
            Err(fault) => trees_fault(proofs@) == Some(fault@),
        },
{
    if proofs.is_empty() {
        return Err(ObjectFault::TreesMissing);
    }
    if proofs.len() > MAX_TREES {
        return Err(ObjectFault::TooManyTrees);
    }
    let mut total: usize = 0;
    let mut trees: Vec<GitTree> = Vec::new();
    let mut i: usize = 0;
    while i < proofs.len()
        invariant
            i <= proofs@.len(),
            0 < proofs@.len() <= MAX_TREES,
            total == total_bytes(proofs@.take(i as int)),
            total <= MAX_TREE_BYTES,
            decoded(proofs@.take(i as int), trees@),
            authentic(trees@),
            first_tree_fault(proofs@, 0) == first_tree_fault(proofs@, i as int),
        decreases proofs@.len() - i,
    {
        let proof_ = &proofs[i];
        let ghost earlier = trees@;
        if !is_oid(proof_.oid.as_str()) {
            return Err(ObjectFault::TreeOidInvalid);
        }
        let content = match outside::base64_decode(proof_.content_base64.as_str()) {
            Ok(content) => content,
            Err(told) => return Err(ObjectFault::TreeEncoding(told)),
        };
        assert(proofs@.take(i as int + 1).drop_last() =~= proofs@.take(i as int));
        if content.len() > MAX_TREE_BYTES - total {
            return Err(ObjectFault::TreesTooLarge);
        }
        total = total + content.len();
        let oid = object_id("tree", content.as_slice());
        if !text::eq_ignore_ascii_case(oid.as_str(), proof_.oid.as_str()) {
            return Err(ObjectFault::TreeMismatch);
        }
        let name = text::to_ascii_lowercase(proof_.oid.as_str());
        proof {
            assert(oids(trees@) =~= proved_oids(proofs@.take(i as int)));
            text::lemma_first_index(oids(trees@), name@);
        }
        if find_tree(&trees, name.as_str()).is_some() {
            return Err(ObjectFault::TreeDuplicate);
        }
        proof {
            text::lemma_hex_lowered(
                outside::sha1(
                    vstd::utf8::encode_utf8(
                        "tree"@ + seq![' '] + text::decimal(content@.len()) + seq!['\0'],
                    ) + content@,
                ),
            );
        }
        trees.push(GitTree { oid: name, content });
        proof {
            assert forall|a: int, b: int|
                0 <= a < trees@.len() && 0 <= b < trees@.len() && a != b implies oids(trees@)[a]
                != oids(trees@)[b] by {
                if a < i {
                    assert(oids(trees@)[a] == oids(earlier)[a]);
                    assert(oids(earlier).contains(oids(earlier)[a]));
                }
                if b < i {
                    assert(oids(trees@)[b] == oids(earlier)[b]);
                    assert(oids(earlier).contains(oids(earlier)[b]));
                }
            }
        }
        i += 1;
    }
    assert(proofs@.take(i as int) =~= proofs@);
    Ok(trees)
}

// Entries of a tree

/// Mode and raw id of the first entry with the given name. An entry is its mode, a space, its
/// name, a zero byte and a raw id.
pub open spec fn find_entry(content: Seq<u8>, name: Seq<u8>) -> Result<
    Option<(Seq<u8>, Seq<u8>)>,
    EntryFault,
>
    decreases content.len(),
{
    if content.len() == 0 {
        Ok(None)
    } else {
        let mode_end = text::first_index(content, 32u8);
        let named = content.skip(mode_end + 1);
        let name_end = text::first_index(named, 0u8);
        let rest = named.skip(name_end + 1);
        if mode_end >= content.len() {
            Err(EntryFault::ModeMissing)
        } else if name_end >= named.len() {
            Err(EntryFault::NameMissing)
        } else if rest.len() < RAW_OID_BYTES {
            Err(EntryFault::OidShort)
        } else if named.take(name_end) == name {
            Ok(Some((content.take(mode_end), rest.take(RAW_OID_BYTES as int))))
        } else {
            proof {
                text::lemma_first_index(content, 32u8);
                text::lemma_first_index(named, 0u8);
            }
            find_entry(rest.skip(RAW_OID_BYTES as int), name)
        }
    }
}

/// Looks for the entry with the given name.
pub fn tree_entry<'a>(content: &'a [u8], expected_name: &[u8]) -> (outcome: Result<
    Option<(&'a [u8], String)>,
    EntryFault,
>)
    ensures
        match outcome {
            Ok(Some((mode, oid))) => exists|raw: Seq<u8>|
                #![trigger text::hex(raw)]
                find_entry(content@, expected_name@) == Ok::<
                    Option<(Seq<u8>, Seq<u8>)>,
                    EntryFault,
                >(Some((mode@, raw))) && oid@ == text::hex(raw),
            Ok(None) => find_entry(content@, expected_name@) == Ok::<
                Option<(Seq<u8>, Seq<u8>)>,
                EntryFault,
            >(None),
            Err(fault) => find_entry(content@, expected_name@) == Err::<
                Option<(Seq<u8>, Seq<u8>)>,
                EntryFault,
            >(fault),
        },
{
    let mut cursor: usize = 0;
    assert(content@.skip(0) =~= content@);
    while cursor < content.len()
        invariant
            cursor <= content@.len(),
            find_entry(content@, expected_name@) == find_entry(
                content@.skip(cursor as int),
                expected_name@,
            ),
        decreases content@.len() - cursor,
    {
        let ghost here = content@.skip(cursor as int);
        let mode_end = text::find_byte(content, cursor, 32);
        if mode_end == content.len() {
            return Err(EntryFault::ModeMissing);
        }
        let name_start = mode_end + 1;
        let name_end = text::find_byte(content, name_start, 0);
        let ghost named = here.skip(mode_end - cursor + 1);
        assert(named =~= content@.skip(name_start as int));
        if name_end == content.len() {
            return Err(EntryFault::NameMissing);
        }
        let oid_start = name_end + 1;
        let ghost rest = named.skip(name_end - name_start + 1);
        assert(rest =~= content@.skip(oid_start as int));
        if content.len() - oid_start < RAW_OID_BYTES {
            return Err(EntryFault::OidShort);
        }
        let oid_end = oid_start + RAW_OID_BYTES;
        let name = slice_subrange(content, name_start, name_end);
        assert(name@ =~= named.take(name_end - name_start));
        if text::same_bytes(name, expected_name) {
            let mode = slice_subrange(content, cursor, mode_end);
            assert(mode@ =~= here.take(mode_end - cursor));
            let raw = slice_subrange(content, oid_start, oid_end);
            assert(raw@ =~= rest.take(RAW_OID_BYTES as int));
            let oid = hex_oid(raw);
            assert(oid@ == text::hex(raw@));
            return Ok(Some((mode, oid)));
        }
        assert(rest.skip(RAW_OID_BYTES as int) =~= content@.skip(oid_end as int));
        cursor = oid_end;
    }
    assert(content@.skip(cursor as int) =~= Seq::<u8>::empty());
    Ok(None)
}

/// An entry as the bytes that stand for it in a tree.
pub struct TreeEntry {
    pub mode: Seq<u8>,
    pub name: Seq<u8>,
    pub oid: Seq<u8>,
}

/// An entry that can be told apart from its neighbours.
pub open spec fn writable(entry: TreeEntry) -> bool {
    &&& !entry.mode.contains(32u8)
    &&& !entry.name.contains(0u8)
    &&& entry.oid.len() == RAW_OID_BYTES
}

/// The bytes of a tree with the given entries.
pub open spec fn tree_bytes(entries: Seq<TreeEntry>) -> Seq<u8>
    decreases entries.len(),
{
    if entries.len() == 0 {
        Seq::empty()
    } else {
        entries[0].mode + seq![32u8] + entries[0].name + seq![0u8] + entries[0].oid + tree_bytes(
            entries.drop_first(),
        )
    }
}

/// Reading a tree gives back what was written: the mode and id of the first entry with the
/// name, and nothing where no entry has it.
pub proof fn lemma_tree_entry_reads_back(entries: Seq<TreeEntry>, name: Seq<u8>)
    requires
        forall|i: int| 0 <= i < entries.len() ==> writable(#[trigger] entries[i]),
    ensures
        ({
            let names = entries.map_values(|e: TreeEntry| e.name);
            let at = text::first_index(names, name);
            find_entry(tree_bytes(entries), name) == Ok::<
                Option<(Seq<u8>, Seq<u8>)>,
                EntryFault,
            >(
                if at < entries.len() {
                    Some((entries[at].mode, entries[at].oid))
                } else {
                    None
                },
            )
        }),
    decreases entries.len(),
{
    let names = entries.map_values(|e: TreeEntry| e.name);
    if entries.len() > 0 {
        let entry = entries[0];
        assert(writable(entry));
        let later = entries.drop_first();
        let tail = tree_bytes(later);
        let content = tree_bytes(entries);
        let mode_end = entry.mode.len() as int;
        assert(content[mode_end] == 32u8);
        assert forall|k: int| 0 <= k < mode_end implies content[k] != 32u8 by {
            assert(content[k] == entry.mode[k]);
            assert(entry.mode.contains(entry.mode[k]));
        }
        text::lemma_first_index_is(content, 32u8, mode_end);
        let named = content.skip(mode_end + 1);
        let name_end = entry.name.len() as int;
        assert(named =~= entry.name + seq![0u8] + entry.oid + tail);
        assert(named[name_end] == 0u8);
        assert forall|k: int| 0 <= k < name_end implies named[k] != 0u8 by {
            assert(named[k] == entry.name[k]);
            assert(entry.name.contains(entry.name[k]));
        }
        text::lemma_first_index_is(named, 0u8, name_end);
        let rest = named.skip(name_end + 1);
        assert(rest =~= entry.oid + tail);
        assert(named.take(name_end) =~= entry.name);
        assert(content.take(mode_end) =~= entry.mode);
        assert(rest.take(RAW_OID_BYTES as int) =~= entry.oid);
        assert(rest.skip(RAW_OID_BYTES as int) =~= tail);
        assert(names[0] == entry.name);
        assert(names.drop_first() =~= later.map_values(|e: TreeEntry| e.name));
        if entry.name != name {
            assert forall|i: int| 0 <= i < later.len() implies writable(#[trigger] later[i]) by {
                assert(later[i] == entries[i + 1]);
            }
            lemma_tree_entry_reads_back(later, name);
            text::lemma_first_index(names.drop_first(), name);
        }
    }
}

// Paths

/// Whether a mode is that of a regular file.
pub open spec fn file_mode(mode: Seq<u8>) -> bool {
    mode == vstd::utf8::encode_utf8("100644"@) || mode == vstd::utf8::encode_utf8("100755"@)
}

/// Whether a mode is that of a directory.
pub open spec fn directory_mode(mode: Seq<u8>) -> bool {
    mode == vstd::utf8::encode_utf8("40000"@)
}

/// The object that a path leads to from the tree `current`: through directories to a regular
/// file. Otherwise, what stops it, and the tree at which it does.
pub open spec fn follow(
    trees: Seq<GitTree>,
    current: Seq<char>,
    components: Seq<Seq<char>>,
) -> Result<Seq<char>, (PathFault, Seq<char>)>
    decreases components.len(),
{
    match tree_named(trees, current) {
        None => Err((PathFault::Unproved, current)),
        Some(content) => match find_entry(content, vstd::utf8::encode_utf8(components[0])) {
            Err(fault) => Err((PathFault::Entry(fault), current)),
            Ok(None) => Err((PathFault::Absent, current)),
            Ok(Some((mode, raw))) => if components.len() <= 1 {
                if file_mode(mode) {
                    Ok(text::hex(raw))
                } else {
                    Err((PathFault::NotAFile, current))
                }
            } else if directory_mode(mode) {
                follow(trees, text::hex(raw), components.drop_first())
            } else {
                Err((PathFault::NotADirectory, current))
            },
        },
    }
}

/// Whether a path has no empty component.
pub open spec fn proper_path(path: Seq<char>) -> bool {
    forall|i: int|
        0 <= i < text::split_on(path, '/').len() ==> (#[trigger] text::split_on(path, '/')[i]).len()
            > 0
}

/// What keeps a path from leading to the expected bytes, and the tree at which it does.
pub open spec fn path_fault(
    trees: Seq<GitTree>,
    root: Seq<char>,
    path: Seq<char>,
    expected: Seq<u8>,
) -> Option<PathFault> {
    if !proper_path(path) {
        Some(PathFault::Invalid)
    } else {
        match follow(trees, root, text::split_on(path, '/')) {
            Err((fault, _)) => Some(fault),
            Ok(oid) => if object_name("blob"@, expected) == oid {
                None
            } else {
                Some(PathFault::ContentMismatch)
            },
        }
    }
}

/// Checks that a path of the root tree leads to a regular file that holds the expected bytes.
pub fn verify_blob_path(
    trees: &Vec<GitTree>,
    root_tree: &str,
    path: &str,
    expected: &[u8],
) -> (outcome: Result<(), GitPathError>)
    ensures
        match outcome {
            Ok(()) => path_fault(trees@, root_tree@, path@, expected@) is None,
            Err(error) => {
                &&& path_fault(trees@, root_tree@, path@, expected@) == Some(error.fault)
                &&& error.path@ == path@
                &&& error.fault is Unproved ==> follow(
                    trees@,
                    root_tree@,
                    text::split_on(path@, '/'),
                ) == Err::<Seq<char>, (PathFault, Seq<char>)>((PathFault::Unproved, error.tree@))
            },
        },
{
    let components = text::split(path, '/');
    let ghost parts = text::split_on(path@, '/');
    let mut current = root_tree.to_owned();
    let mut c: usize = 0;
    while c < components.len()
        invariant
            c <= components@.len(),
            text::texts(components@) == parts,
            parts == text::split_on(path@, '/'),
            forall|k: int| 0 <= k < c ==> (#[trigger] parts[k]).len() > 0,
        decreases components@.len() - c,
    {
        assert(parts[c as int] == components@[c as int]@);
        if components[c].as_str().is_empty() {
            return Err(
                GitPathError { fault: PathFault::Invalid, path: path.to_owned(), tree: current },
            );
        }
        c += 1;
    }
    assert(proper_path(path@));
    let mut index: usize = 0;
    assert(parts.skip(0) =~= parts);
    while index < components.len()
        invariant_except_break
            index < components@.len(),
        invariant
            components@.len() > 0,
            text::texts(components@) == parts,
            parts == text::split_on(path@, '/'),
            proper_path(path@),
            follow(trees@, root_tree@, parts) == follow(trees@, current@, parts.skip(index as int)),
        ensures
            path_fault(trees@, root_tree@, path@, expected@) is None,
        decreases components@.len() - index,
    {
        let ghost ahead = parts.skip(index as int);
        assert(ahead[0] == components@[index as int]@);
        let tree = match find_tree(trees, current.as_str()) {
            Some(tree) => tree,
            None => return Err(
                GitPathError { fault: PathFault::Unproved, path: path.to_owned(), tree: current },
            ),
        };
        let name = components[index].as_str().as_bytes();
        let (mode, oid) = match tree_entry(tree.as_slice(), name) {
            Ok(Some(entry)) => entry,
            Ok(None) => return Err(
                GitPathError { fault: PathFault::Absent, path: path.to_owned(), tree: current },
            ),
            Err(fault) => return Err(
                GitPathError { fault: PathFault::Entry(fault), path: path.to_owned(),
                    tree: current },
            ),
        };
        if index + 1 == components.len() {
            if !text::same_bytes(mode, "100644".as_bytes()) && !text::same_bytes(
                mode,
                "100755".as_bytes(),
            ) {
                return Err(
                    GitPathError { fault: PathFault::NotAFile, path: path.to_owned(),
                        tree: current },
                );
            }
            if object_id("blob", expected) != oid {
                return Err(
                    GitPathError {
                        fault: PathFault::ContentMismatch,
                        path: path.to_owned(),
                        tree: current,
                    },
                );
            }
            break;
        }
        if !text::same_bytes(mode, "40000".as_bytes()) {
            return Err(
                GitPathError {
                    fault: PathFault::NotADirectory,
                    path: path.to_owned(),
                    tree: current,
                },
            );
        }
        current = oid;
        assert(ahead.drop_first() =~= parts.skip(index as int + 1));
        index += 1;
    }
    Ok(())
}

// Whole proofs

/// What a proof's refusal says of the commit and its trees, apart from the paths: `None` where
/// the commit has the published revision, names one root tree, and every tree is authentic.
pub open spec fn object_fault(request: PublishPluginRequest) -> Option<ObjectFault<Seq<char>>> {
    let commit = outside::base64_decoded(request.git_proof.commit_base64@);
    if commit is Err {
        Some(ObjectFault::CommitEncoding(commit->Err_0))
    } else if commit->Ok_0.len() > MAX_COMMIT_BYTES {
        Some(ObjectFault::CommitTooLarge)
    } else if !text::same_letters(object_name("commit"@, commit->Ok_0), request.rev@) {
        Some(ObjectFault::RevisionMismatch)
    } else if root_of(commit->Ok_0) is Err {
        Some(root_of(commit->Ok_0)->Err_0)
    } else {
        trees_fault(request.git_proof.trees@)
    }
}

/// The root tree of the published commit.
pub open spec fn root_tree(request: PublishPluginRequest) -> Seq<char> {
    root_of(outside::base64_decoded(request.git_proof.commit_base64@)->Ok_0)->Ok_0
}

/// Whether some authentic trees, the decoded ones, lead from the root over `path` to the bytes.
pub open spec fn committed(request: PublishPluginRequest, path: Seq<char>, bytes: Seq<u8>) -> bool {
    exists|trees: Seq<GitTree>| #[trigger]
        decoded(request.git_proof.trees@, trees) && authentic(trees) && path_fault(
            trees,
            root_tree(request),
            path,
            bytes,
        ) is None
}

/// Whether some authentic trees, the decoded ones, give the path error on the way to the bytes.
pub open spec fn astray(
    request: PublishPluginRequest,
    path: Seq<char>,
    bytes: Seq<u8>,
    error: GitPathError,
) -> bool {
    error.path@ == path && exists|trees: Seq<GitTree>| #[trigger]
        decoded(request.git_proof.trees@, trees) && authentic(trees) && path_fault(
            trees,
            root_tree(request),
            path,
            bytes,
        ) == Some(error.fault)
}

/// A decoded tree is found under a name exactly with the content that the proofs give it, so
/// what a path leads to depends on the proofs alone.
pub proof fn lemma_decoded_unique(
    proofs: Seq<GitTreeProof>,
    left: Seq<GitTree>,
    right: Seq<GitTree>,
    current: Seq<char>,
    components: Seq<Seq<char>>,
)
    requires
        decoded(proofs, left),
        decoded(proofs, right),
    ensures
        follow(left, current, components) == follow(right, current, components),
    decreases components.len(),
{
    assert forall|oid: Seq<char>| tree_named(left, oid) == tree_named(right, oid) by {
        assert forall|i: int| 0 <= i < left.len() implies oids(left)[i] == oids(right)[i] by {
            assert(left[i].oid@ == right[i].oid@);
        }
        assert(oids(left) =~= oids(right));
        text::lemma_first_index(oids(left), oid);
        let at = text::first_index(oids(left), oid);
        if at < left.len() {
            assert(tree_content(proofs[at])->Ok_0 == left[at].content@);
            assert(tree_content(proofs[at])->Ok_0 == right[at].content@);
        }
    }
    if components.len() > 1 {
        assert(tree_named(left, current) == tree_named(right, current));
        if let Some(content) = tree_named(left, current) {
            if let Ok(Some((mode, raw))) = find_entry(
                content,
                vstd::utf8::encode_utf8(components[0]),
            ) {
                lemma_decoded_unique(proofs, left, right, text::hex(raw), components.drop_first());
            }
        }
    } else {
        assert(tree_named(left, current) == tree_named(right, current));
    }
}

impl ObjectFault<Seq<char>> {
    /// The text shown for the fault.
    pub open spec fn text(&self) -> Seq<char> {
        match self {
            ObjectFault::CommitEncoding(told) => steps::explained("Git commit 证明不是有效 Base64"@,
                *told),
            ObjectFault::CommitTooLarge => "Git commit 证明超过配额"@,
            ObjectFault::RevisionMismatch => "Git commit 证明与发布 revision 不一致"@,
            ObjectFault::CommitTreeNotText(told) => steps::explained("Git commit tree 不是 ASCII"@,
                *told),
            ObjectFault::CommitTreeInvalid => "Git commit tree 头无效"@,
            ObjectFault::CommitTreeMissing => "Git commit 缺少 tree 头"@,
            ObjectFault::TreesMissing => "Git 提交证明缺少 tree 对象"@,
            ObjectFault::TooManyTrees => "Git tree 证明数量超过配额"@,
            ObjectFault::TreeOidInvalid => "Git tree oid 无效"@,
            ObjectFault::TreeEncoding(told) => steps::explained("Git tree 证明不是有效 Base64"@, *told),
            ObjectFault::TreesTooLarge => "Git tree 证明超过配额"@,
            ObjectFault::TreeMismatch => "Git tree 内容与 oid 不一致"@,
            ObjectFault::TreeDuplicate => "Git tree 证明包含重复 oid"@,
            ObjectFault::RuntimeMissing => "发布插件缺少 plugin.runtime"@,
        }
    }
}

impl ObjectFault<String> {
    /// The text shown for the fault.
    pub fn message(&self) -> (message: String)
        ensures
            message@ == self@.text(),
    {
        let message = match self {
            ObjectFault::CommitEncoding(told) => {
                return steps::explain("Git commit 证明不是有效 Base64", told.as_str());
            },
            ObjectFault::CommitTooLarge => "Git commit 证明超过配额",
            ObjectFault::RevisionMismatch => "Git commit 证明与发布 revision 不一致",
            ObjectFault::CommitTreeNotText(told) => {
                return steps::explain("Git commit tree 不是 ASCII", told.as_str());
            },
            ObjectFault::CommitTreeInvalid => "Git commit tree 头无效",
            ObjectFault::CommitTreeMissing => "Git commit 缺少 tree 头",
            ObjectFault::TreesMissing => "Git 提交证明缺少 tree 对象",
            ObjectFault::TooManyTrees => "Git tree 证明数量超过配额",
            ObjectFault::TreeOidInvalid => "Git tree oid 无效",
            ObjectFault::TreeEncoding(told) => {
                return steps::explain("Git tree 证明不是有效 Base64", told.as_str());
            },
            ObjectFault::TreesTooLarge => "Git tree 证明超过配额",
            ObjectFault::TreeMismatch => "Git tree 内容与 oid 不一致",
            ObjectFault::TreeDuplicate => "Git tree 证明包含重复 oid",
            ObjectFault::RuntimeMissing => "发布插件缺少 plugin.runtime",
        };
        message.to_owned()
    }
}

impl GitPathError {
    /// The text shown for the error.
    pub open spec fn text(&self) -> Seq<char> {
        match self.fault {
            PathFault::Invalid => "Git 证明路径无效"@,
            PathFault::Unproved => "Git 证明缺少 tree: "@ + self.tree@,
            PathFault::Entry(EntryFault::ModeMissing) => "Git tree 条目缺少 mode 分隔符"@,
            PathFault::Entry(EntryFault::NameMissing) => "Git tree 条目缺少名称终止符"@,
            PathFault::Entry(EntryFault::OidShort) => "Git tree 条目的 oid 不完整"@,
            PathFault::Absent => "Git commit 不包含路径: "@ + self.path@,
            PathFault::NotAFile => "Git commit 路径不是普通文件: "@ + self.path@,
            PathFault::ContentMismatch => "上传字节与 Git commit 路径不一致: "@ + self.path@,
            PathFault::NotADirectory => "Git commit 路径中间节点不是目录: "@ + self.path@,
        }
    }

    /// The text shown for the error.
    pub fn message(&self) -> (message: String)
        ensures
            message@ == self.text(),
    {
        let path = self.path.as_str();
        match self.fault {
            PathFault::Invalid => "Git 证明路径无效".to_owned(),
            PathFault::Unproved => "Git 证明缺少 tree: ".to_owned().concat(self.tree.as_str()),
            PathFault::Entry(EntryFault::ModeMissing) => "Git tree 条目缺少 mode 分隔符".to_owned(),
            PathFault::Entry(EntryFault::NameMissing) => "Git tree 条目缺少名称终止符".to_owned(),
            PathFault::Entry(EntryFault::OidShort) => "Git tree 条目的 oid 不完整".to_owned(),
            PathFault::Absent => "Git commit 不包含路径: ".to_owned().concat(path),
            PathFault::NotAFile => "Git commit 路径不是普通文件: ".to_owned().concat(path),
            PathFault::ContentMismatch => "上传字节与 Git commit 路径不一致: ".to_owned().concat(path),
            PathFault::NotADirectory => "Git commit 路径中间节点不是目录: ".to_owned().concat(path),
        }
    }
}

impl GitProofError {
    /// The text shown for the error.
    pub open spec fn text(&self) -> Seq<char> {
        match self {
            GitProofError::Object(fault) => fault@.text(),
            GitProofError::Path(error) => error.text(),
        }
    }

    /// The text shown for the error.
    pub fn message(&self) -> (message: String)
        ensures
            message@ == self.text(),
    {
        match self {
            GitProofError::Object(fault) => fault.message(),
            GitProofError::Path(error) => error.message(),
        }
    }
}

/// Checks that the published revision is the commit of the proof, and that the commit holds the
/// manifest and the artifact under their paths.
pub fn verify(
    request: &PublishPluginRequest,
    artifact_path: Option<&str>,
    artifact: &[u8],
) -> (outcome: Result<(), GitProofError>)
    ensures
        ({
            let manifest = vstd::utf8::encode_utf8(request.manifest_toml@);
            let named = "aio-plugin.toml"@;
            &&& outcome is Ok <==> {
                &&& object_fault(*request) is None
                &&& committed(*request, named, manifest)
                &&& artifact_path is Some
                &&& committed(*request, artifact_path->0@, artifact@)
            }
            &&& outcome matches Err(GitProofError::Object(fault)) ==> {
                ||| object_fault(*request) == Some(fault@)
                ||| object_fault(*request) is None && committed(*request, named, manifest)
                    && artifact_path is None && fault is RuntimeMissing
            }
            &&& outcome matches Err(GitProofError::Path(error)) ==> {
                &&& object_fault(*request) is None
                &&& if committed(*request, named, manifest) {
                    artifact_path is Some && astray(*request, artifact_path->0@, artifact@, error)
                } else {
                    astray(*request, named, manifest, error)
                }
            }
        }),
{
    let commit = match outside::base64_decode(request.git_proof.commit_base64.as_str()) {
        Ok(commit) => commit,
        Err(told) => return Err(GitProofError::Object(ObjectFault::CommitEncoding(told))),
    };
    if commit.len() > MAX_COMMIT_BYTES {
        return Err(GitProofError::Object(ObjectFault::CommitTooLarge));
    }
    let oid = object_id("commit", commit.as_slice());
    if !text::eq_ignore_ascii_case(oid.as_str(), request.rev.as_str()) {
        return Err(GitProofError::Object(ObjectFault::RevisionMismatch));
    }
    let root = match commit_tree(commit.as_slice()) {
        Ok(root) => root,
        Err(fault) => return Err(GitProofError::Object(fault)),
    };
    let trees = match verified_trees(&request.git_proof.trees) {
        Ok(trees) => trees,
        Err(fault) => return Err(GitProofError::Object(fault)),
    };
    let ghost manifest = vstd::utf8::encode_utf8(request.manifest_toml@);
    let ghost named = "aio-plugin.toml"@;
    proof {
        assert(root_tree(*request) == root@);
        assert(decoded(request.git_proof.trees@, trees@));
        assert forall|path: Seq<char>, bytes: Seq<u8>|
            committed(*request, path, bytes)
                == (path_fault(trees@, root@, path, bytes) is None) by {
            if committed(*request, path, bytes) {
                let other = choose|other: Seq<GitTree>| #[trigger]
                    decoded(request.git_proof.trees@, other) && authentic(other) && path_fault(
                        other,
                        root_tree(*request),
                        path,
                        bytes,
                    ) is None;
                lemma_decoded_unique(
                    request.git_proof.trees@,
                    trees@,
                    other,
                    root@,
                    text::split_on(path, '/'),
                );
            }
        }
    }
    match verify_blob_path(
        &trees,
        root.as_str(),
        "aio-plugin.toml",
        request.manifest_toml.as_str().as_bytes(),
    ) {
        Ok(()) => {},
        Err(error) => return Err(GitProofError::Path(error)),
    }
    let artifact_path = match artifact_path {
        Some(path) => path,
        None => return Err(GitProofError::Object(ObjectFault::RuntimeMissing)),
    };
    match verify_blob_path(&trees, root.as_str(), artifact_path, artifact) {
        Ok(()) => Ok(()),
        Err(error) => Err(GitProofError::Path(error)),
    }
}

// Laws

/// An object is named by the digest of its kind, the length of its content and the content; an id
/// has forty hexadecimal digits.
pub proof fn lemma_names_of_objects(kind: Seq<char>, content: Seq<u8>, value: Seq<char>)
    ensures
        object_name(kind, content) == text::hex(outside::sha1(vstd::utf8::encode_utf8(kind
            + seq![' '] + text::decimal(content.len()) + seq!['\0']) + content)),
        oid_text(value) <==> value.len() == 40 && forall|i: int| 0 <= i < value.len()
            ==> text::is_hex(#[trigger] value[i]),
        RAW_OID_BYTES == 20,
{
}

proof fn lemma_no_tree_values(lines: Seq<Seq<u8>>)
    requires
        forall|i: int|
            0 <= i < lines.len() ==> !vstd::utf8::encode_utf8("tree "@).is_prefix_of(
                #[trigger] lines[i],
            ),
    ensures
        tree_values(lines).len() == 0,
    decreases lines.len(),
{
    if lines.len() > 0 {
        let front = lines.drop_last();
        assert forall|i: int| 0 <= i < front.len() implies !vstd::utf8::encode_utf8(
            "tree "@,
        ).is_prefix_of(#[trigger] front[i]) by {
            assert(front[i] == lines[i]);
        }
        assert(lines.last() == lines[lines.len() - 1]);
        lemma_no_tree_values(front);
    }
}

proof fn lemma_one_tree_value(lines: Seq<Seq<u8>>, k: int, value: Seq<u8>)
    requires
        0 <= k < lines.len(),
        lines[k] == vstd::utf8::encode_utf8("tree "@) + value,
        forall|i: int|
            0 <= i < lines.len() && i != k ==> !vstd::utf8::encode_utf8("tree "@).is_prefix_of(
                #[trigger] lines[i],
            ),
    ensures
        tree_values(lines) == seq![value],
    decreases lines.len(),
{
    let label = vstd::utf8::encode_utf8("tree "@);
    let front = lines.drop_last();
    assert(lines.last() == lines[lines.len() - 1]);
    assert forall|i: int| 0 <= i < front.len() && i != k implies !label.is_prefix_of(
        #[trigger] front[i],
    ) by {
        assert(front[i] == lines[i]);
    }
    if k == lines.len() - 1 {
        lemma_no_tree_values(front);
        assert(label =~= lines[k].subrange(0, label.len() as int));
        assert(lines[k].skip(label.len() as int) =~= value);
        assert(tree_values(lines) =~= seq![value]);
    } else {
        lemma_one_tree_value(front, k, value);
    }
}

proof fn lemma_header_ends(lines: Seq<Seq<u8>>, end: int)
    requires
        0 <= end <= lines.len(),
        end < lines.len() ==> lines[end].len() == 0,
        forall|i: int| 0 <= i < end ==> (#[trigger] lines[i]).len() > 0,
    ensures
        text::first_index(lines, Seq::<u8>::empty()) == end,
{
    if end < lines.len() {
        assert(lines[end] =~= Seq::<u8>::empty());
    }
    text::lemma_first_index_is(lines, Seq::<u8>::empty(), end);
}

/// A commit whose header names exactly one tree has that tree as its root, in lower case; what
/// stands after the first empty line does not count.
pub proof fn lemma_root_of_a_commit(commit: Seq<u8>, lines: Seq<Seq<u8>>, end: int, k: int,
    oid: Seq<char>)
    requires
        text::split_on(commit, 10u8) == lines,
        0 <= end <= lines.len(),
        end < lines.len() ==> lines[end].len() == 0,
        forall|i: int| 0 <= i < end ==> (#[trigger] lines[i]).len() > 0,
        0 <= k < end,
        lines[k] == vstd::utf8::encode_utf8("tree "@) + vstd::utf8::encode_utf8(oid),
        oid_text(oid),
        forall|i: int| 0 <= i < end && i != k
            ==> !vstd::utf8::encode_utf8("tree "@).is_prefix_of(#[trigger] lines[i]),
    ensures
        root_of(commit) == Ok::<Seq<char>, ObjectFault<Seq<char>>>(text::lowered(oid)),
{
    lemma_header_ends(lines, end);
    let header = lines.take(end);
    let value = vstd::utf8::encode_utf8(oid);
    assert(header_lines(commit) == header);
    assert(header[k] == lines[k]);
    assert forall|i: int| 0 <= i < header.len() && i != k implies !vstd::utf8::encode_utf8(
        "tree "@,
    ).is_prefix_of(#[trigger] header[i]) by {
        assert(header[i] == lines[i]);
    }
    lemma_one_tree_value(header, k, value);
    vstd::utf8::encode_utf8_valid_utf8(oid);
    vstd::utf8::encode_utf8_decode_utf8(oid);
}

/// A commit whose header names no tree is refused, and so is one whose header names two.
pub proof fn lemma_commits_without_one_root(commit: Seq<u8>, lines: Seq<Seq<u8>>, end: int,
    k: int, l: int)
    requires
        text::split_on(commit, 10u8) == lines,
        0 <= end <= lines.len(),
        end < lines.len() ==> lines[end].len() == 0,
        forall|i: int| 0 <= i < end ==> (#[trigger] lines[i]).len() > 0,
    ensures
        (forall|i: int| 0 <= i < end
            ==> !vstd::utf8::encode_utf8("tree "@).is_prefix_of(#[trigger] lines[i]))
            ==> root_of(commit)
            == Err::<Seq<char>, ObjectFault<Seq<char>>>(ObjectFault::CommitTreeMissing),
        0 <= k < l < end && vstd::utf8::encode_utf8("tree "@).is_prefix_of(lines[k])
            && vstd::utf8::encode_utf8("tree "@).is_prefix_of(lines[l]) ==> root_of(commit) is Err,
{
    lemma_header_ends(lines, end);
    let header = lines.take(end);
    let label = vstd::utf8::encode_utf8("tree "@);
    assert(header_lines(commit) == header);
    if forall|i: int| 0 <= i < end ==> !label.is_prefix_of(#[trigger] lines[i]) {
        assert forall|i: int| 0 <= i < header.len() implies !label.is_prefix_of(
            #[trigger] header[i],
        ) by {
            assert(header[i] == lines[i]);
        }
        lemma_no_tree_values(header);
    }
    if 0 <= k < l < end && label.is_prefix_of(lines[k]) && label.is_prefix_of(lines[l]) {
        assert(header.take(k + 1).drop_last() =~= header.take(k));
        assert(header.take(l + 1).drop_last() =~= header.take(l));
        assert(header.take(k + 1).last() == lines[k] && header.take(l + 1).last() == lines[l]);
        lemma_tree_values_grow(header, k + 1, l);
        lemma_tree_values_grow(header, l + 1, end);
        assert(header.take(end) =~= header);
        assert(tree_values(header).len() >= 2);
    }
}

/// Trees are accepted where there are one to sixty-four of them, of four mebibytes in all, each
/// named by the digest of its own content, and none twice.
pub proof fn lemma_accepted_trees(proofs: Seq<GitTreeProof>)
    ensures
        trees_fault(proofs) is None <==> 1 <= proofs.len() <= 64
            && total_bytes(proofs) <= 4 * 1024 * 1024 && (forall|i: int| 0 <= i < proofs.len()
            ==> oid_text((#[trigger] proofs[i]).oid@)
            && outside::base64_decoded(proofs[i].content_base64@) is Ok
            && text::same_letters(object_name("tree"@,
            outside::base64_decoded(proofs[i].content_base64@)->Ok_0), proofs[i].oid@))
            && (forall|i: int, j: int| 0 <= i < j < proofs.len()
            ==> text::lowered((#[trigger] proofs[i]).oid@)
            != text::lowered((#[trigger] proofs[j]).oid@)),
{
    lemma_trees_hold(proofs);
    let names = proved_oids(proofs);
    assert forall|i: int| 0 <= i < proofs.len() implies proofs.contains(#[trigger] proofs[i]) by {}
    if trees_hold(proofs) {
        assert forall|i: int, j: int| 0 <= i < j < proofs.len() implies text::lowered(
            (#[trigger] proofs[i]).oid@,
        ) != text::lowered((#[trigger] proofs[j]).oid@) by {
            assert(names[i] == text::lowered(proofs[i].oid@));
            assert(names[j] == text::lowered(proofs[j].oid@));
        }
    }
    if forall|i: int, j: int|
        0 <= i < j < proofs.len() ==> text::lowered((#[trigger] proofs[i]).oid@) != text::lowered(
            (#[trigger] proofs[j]).oid@,
        ) {
        assert forall|a: int, b: int| 0 <= a < names.len() && 0 <= b < names.len() && a
            != b implies names[a] != names[b] by {
            assert(names[a] == text::lowered(proofs[a].oid@));
            assert(names[b] == text::lowered(proofs[b].oid@));
        }
    }
}

/// The trees of the proofs are counted together by the bytes that they stand for.
pub proof fn lemma_bytes_of_trees(proofs: Seq<GitTreeProof>, proof_: GitTreeProof)
    ensures
        total_bytes(Seq::<GitTreeProof>::empty()) == 0,
        outside::base64_decoded(proof_.content_base64@) is Ok
            ==> total_bytes(proofs.push(proof_)) == total_bytes(proofs)
            + outside::base64_decoded(proof_.content_base64@)->Ok_0.len(),
        outside::base64_decoded(proof_.content_base64@) is Err
            ==> total_bytes(proofs.push(proof_)) == total_bytes(proofs),
{
    assert(proofs.push(proof_).drop_last() =~= proofs);
}

/// Of a tree that is refused the first thing that is wrong is told: its id, its encoding, the size
/// of all so far, its name, or that it was there before.
pub proof fn lemma_which_trees_are_refused(proofs: Seq<GitTreeProof>, at: int)
    requires
        0 <= at < proofs.len(),
    ensures
        ({
            let fault = tree_fault(proofs, at);
            let named = oid_text(proofs[at].oid@);
            let content = outside::base64_decoded(proofs[at].content_base64@);
            let fits = total_bytes(proofs.take(at + 1)) <= 4194304;
            let matching = text::same_letters(object_name("tree"@, content->Ok_0), proofs[at].oid@);
            let before = exists|i: int| 0 <= i < at
                && text::lowered((#[trigger] proofs[i]).oid@) == text::lowered(proofs[at].oid@);
            &&& !named ==> fault == Some(ObjectFault::<Seq<char>>::TreeOidInvalid)
            &&& named && content is Err ==> fault == Some(ObjectFault::TreeEncoding(content->Err_0))
            &&& named && content is Ok && !fits
                ==> fault == Some(ObjectFault::<Seq<char>>::TreesTooLarge)
            &&& named && content is Ok && fits && !matching
                ==> fault == Some(ObjectFault::<Seq<char>>::TreeMismatch)
            &&& named && content is Ok && fits && matching && before
                ==> fault == Some(ObjectFault::<Seq<char>>::TreeDuplicate)
            &&& named && content is Ok && fits && matching && !before ==> fault is None
        }),
{
    let names = proved_oids(proofs.take(at));
    let wanted = text::lowered(proofs[at].oid@);
    if names.contains(wanted) {
        let i = choose|i: int| 0 <= i < names.len() && names[i] == wanted;
        assert(text::lowered(proofs[i].oid@) == wanted);
    }
    if exists|i: int| 0 <= i < at && text::lowered((#[trigger] proofs[i]).oid@) == wanted {
        let i = choose|i: int| 0 <= i < at && text::lowered((#[trigger] proofs[i]).oid@) == wanted;
        assert(names[i] == wanted);
    }
}

/// A tree is found under its name, and nothing under a name that no tree has.
pub proof fn lemma_tree_is_found_by_name(trees: Seq<GitTree>, oid: Seq<char>, i: int)
    requires
        forall|a: int, b: int| 0 <= a < b < trees.len()
            ==> (#[trigger] trees[a]).oid@ != (#[trigger] trees[b]).oid@,
    ensures
        0 <= i < trees.len() && trees[i].oid@ == oid
            ==> tree_named(trees, oid) == Some(trees[i].content@),
        (forall|k: int| 0 <= k < trees.len() ==> (#[trigger] trees[k]).oid@ != oid)
            ==> tree_named(trees, oid) is None,
{
    let names = oids(trees);
    text::lemma_first_index(names, oid);
    let at = text::first_index(names, oid);
    if 0 <= i < trees.len() && trees[i].oid@ == oid {
        assert forall|k: int| 0 <= k < i implies names[k] != oid by {
            assert(names[k] == trees[k].oid@);
        }
        assert(names[i] == oid);
        text::lemma_first_index_is(names, oid, i);
    }
    if at < trees.len() {
        assert(names[at] == trees[at].oid@);
    }
}

/// The trees of the proofs hold what the proofs encode, under the proved names.
pub proof fn lemma_what_decoded_trees_hold(proofs: Seq<GitTreeProof>, trees: Seq<GitTree>, i: int)
    requires
        decoded(proofs, trees),
        0 <= i < proofs.len(),
    ensures
        trees.len() == proofs.len(),
        trees[i].oid@ == text::lowered(proofs[i].oid@),
        outside::base64_decoded(proofs[i].content_base64@)
            == Ok::<Seq<u8>, Seq<char>>(trees[i].content@),
{
}

/// A tree that ends inside an entry is refused: it has no space after a mode, no zero byte after a
/// name, or too few bytes of an id.
pub proof fn lemma_broken_trees(mode: Seq<u8>, name: Seq<u8>, rest: Seq<u8>, wanted: Seq<u8>)
    requires
        !mode.contains(32u8),
        !name.contains(0u8),
        rest.len() < 20,
    ensures
        find_entry(Seq::<u8>::empty(), wanted)
            == Ok::<Option<(Seq<u8>, Seq<u8>)>, EntryFault>(None),
        mode.len() > 0 ==> find_entry(mode, wanted)
            == Err::<Option<(Seq<u8>, Seq<u8>)>, EntryFault>(EntryFault::ModeMissing),
        find_entry(mode + seq![32u8] + name, wanted)
            == Err::<Option<(Seq<u8>, Seq<u8>)>, EntryFault>(EntryFault::NameMissing),
        find_entry(mode + seq![32u8] + name + seq![0u8] + rest, wanted)
            == Err::<Option<(Seq<u8>, Seq<u8>)>, EntryFault>(EntryFault::OidShort),
{
    text::lemma_first_index(mode, 32u8);
    if text::first_index(mode, 32u8) < mode.len() {
        assert(mode.contains(mode[text::first_index(mode, 32u8)]));
    }
    let end = mode.len() as int;
    let short = mode + seq![32u8] + name;
    assert(short[end] == 32u8);
    assert forall|k: int| 0 <= k < end implies short[k] != 32u8 by {
        assert(short[k] == mode[k]);
        assert(mode.contains(mode[k]));
    }
    text::lemma_first_index_is(short, 32u8, end);
    assert(short.skip(end + 1) =~= name);
    text::lemma_first_index(name, 0u8);
    if text::first_index(name, 0u8) < name.len() {
        assert(name.contains(name[text::first_index(name, 0u8)]));
    }
    let long = mode + seq![32u8] + name + seq![0u8] + rest;
    assert(long[end] == 32u8);
    assert forall|k: int| 0 <= k < end implies long[k] != 32u8 by {
        assert(long[k] == mode[k]);
        assert(mode.contains(mode[k]));
    }
    text::lemma_first_index_is(long, 32u8, end);
    let named = long.skip(end + 1);
    assert(named =~= name + seq![0u8] + rest);
    let stop = name.len() as int;
    assert(named[stop] == 0u8);
    assert forall|k: int| 0 <= k < stop implies named[k] != 0u8 by {
        assert(named[k] == name[k]);
        assert(name.contains(name[k]));
    }
    text::lemma_first_index_is(named, 0u8, stop);
    assert(named.skip(stop + 1) =~= rest);
}

/// A path is followed through directories to a regular file, and from one tree to the next by the
/// id of the entry with the component's name. What stops it is told.
pub proof fn lemma_path_is_followed(trees: Seq<GitTree>, current: Seq<char>,
    components: Seq<Seq<char>>, content: Seq<u8>, mode: Seq<u8>, raw: Seq<u8>)
    requires
        components.len() > 0,
    ensures
        ({
            let found = find_entry(content, vstd::utf8::encode_utf8(components[0]));
            let entry = found == Ok::<Option<(Seq<u8>, Seq<u8>)>, EntryFault>(Some((mode, raw)));
            let file = mode == vstd::utf8::encode_utf8("100644"@)
                || mode == vstd::utf8::encode_utf8("100755"@);
            let directory = mode == vstd::utf8::encode_utf8("40000"@);
            let there = tree_named(trees, current) == Some(content);
            let outcome = follow(trees, current, components);
            &&& tree_named(trees, current) is None
                ==> outcome
                == Err::<Seq<char>, (PathFault, Seq<char>)>((PathFault::Unproved, current))
            &&& there && found is Err ==> outcome
                == Err::<Seq<char>, (PathFault, Seq<char>)>((PathFault::Entry(found->Err_0),
                current))
            &&& there && found == Ok::<Option<(Seq<u8>, Seq<u8>)>, EntryFault>(None)
                ==> outcome
                == Err::<Seq<char>, (PathFault, Seq<char>)>((PathFault::Absent, current))
            &&& there && entry && components.len() == 1 && file
                ==> outcome == Ok::<Seq<char>, (PathFault, Seq<char>)>(text::hex(raw))
            &&& there && entry && components.len() == 1 && !file
                ==> outcome
                == Err::<Seq<char>, (PathFault, Seq<char>)>((PathFault::NotAFile, current))
            &&& there && entry && components.len() > 1 && directory
                ==> outcome == follow(trees, text::hex(raw), components.drop_first())
            &&& there && entry && components.len() > 1 && !directory
                ==> outcome
                == Err::<Seq<char>, (PathFault, Seq<char>)>((PathFault::NotADirectory, current))
        }),
{
}

/// A path leads to the expected bytes where none of its components is empty and the file that it
/// leads to is named by their digest.
pub proof fn lemma_where_a_path_leads(trees: Seq<GitTree>, root: Seq<char>, path: Seq<char>,
    expected: Seq<u8>)
    ensures
        ({
            let parts = text::split_on(path, '/');
            let proper = forall|i: int| 0 <= i < parts.len() ==> (#[trigger] parts[i]).len() > 0;
            let end = follow(trees, root, parts);
            let fault = path_fault(trees, root, path, expected);
            &&& !proper ==> fault == Some(PathFault::Invalid)
            &&& proper && end is Err ==> fault == Some((end->Err_0).0)
            &&& proper && end is Ok && end->Ok_0 == object_name("blob"@, expected) ==> fault is None
            &&& proper && end is Ok && end->Ok_0 != object_name("blob"@, expected)
                ==> fault == Some(PathFault::ContentMismatch)
        }),
{
}

/// A published revision is the name of the commit that was sent, of at most 128 kibibytes; the
/// commit names one root tree, and every tree that was sent is authentic. What is told is the first
/// thing that is wrong.
pub proof fn lemma_which_commits_are_accepted(request: PublishPluginRequest)
    ensures
        ({
            let commit = outside::base64_decoded(request.git_proof.commit_base64@);
            let bytes = commit->Ok_0;
            let fault = object_fault(request);
            let fits = commit is Ok && bytes.len() <= 128 * 1024;
            let named = fits && text::same_letters(object_name("commit"@, bytes), request.rev@);
            &&& commit is Err ==> fault == Some(ObjectFault::CommitEncoding(commit->Err_0))
            &&& commit is Ok && !fits ==> fault == Some(ObjectFault::<Seq<char>>::CommitTooLarge)
            &&& fits && !named ==> fault == Some(ObjectFault::<Seq<char>>::RevisionMismatch)
            &&& named && root_of(bytes) is Err ==> fault == Some(root_of(bytes)->Err_0)
            &&& named && root_of(bytes) is Ok ==> fault == trees_fault(request.git_proof.trees@)
        }),
{
}

/// What a commit holds under a path is what its own trees lead to from its own root.
pub proof fn lemma_what_a_commit_holds(request: PublishPluginRequest, path: Seq<char>,
    bytes: Seq<u8>, trees: Seq<GitTree>)
    requires
        decoded(request.git_proof.trees@, trees),
    ensures
        committed(request, path, bytes)
            ==> path_fault(trees,
            root_of(outside::base64_decoded(request.git_proof.commit_base64@)->Ok_0)->Ok_0, path,
            bytes) is None,
        authentic(trees)
            && path_fault(trees,
            root_of(outside::base64_decoded(request.git_proof.commit_base64@)->Ok_0)->Ok_0, path,
            bytes) is None ==> committed(request, path, bytes),
{
    let root = root_tree(request);
    if committed(request, path, bytes) {
        let other = choose|other: Seq<GitTree>| #[trigger]
            decoded(request.git_proof.trees@, other) && authentic(other) && path_fault(
                other,
                root,
                path,
                bytes,
            ) is None;
        lemma_decoded_unique(request.git_proof.trees@, trees, other, root, text::split_on(path,
            '/'));
    }
}

/// Each of these is told in its own words.
pub proof fn lemma_told_object_fault(fault: ObjectFault<Seq<char>>)
    ensures
        fault is CommitEncoding ==> fault.text() == "Git commit 证明不是有效 Base64"@ + ": "@
            + fault->CommitEncoding_0,
        fault is CommitTooLarge ==> fault.text() == "Git commit 证明超过配额"@,
        fault is RevisionMismatch ==> fault.text() == "Git commit 证明与发布 revision 不一致"@,
        fault is CommitTreeNotText ==> fault.text() == "Git commit tree 不是 ASCII"@ + ": "@
            + fault->CommitTreeNotText_0,
        fault is CommitTreeInvalid ==> fault.text() == "Git commit tree 头无效"@,
        fault is CommitTreeMissing ==> fault.text() == "Git commit 缺少 tree 头"@,
        fault is TreesMissing ==> fault.text() == "Git 提交证明缺少 tree 对象"@,
        fault is TooManyTrees ==> fault.text() == "Git tree 证明数量超过配额"@,
        fault is TreeOidInvalid ==> fault.text() == "Git tree oid 无效"@,
        fault is TreeEncoding ==> fault.text() == "Git tree 证明不是有效 Base64"@ + ": "@
            + fault->TreeEncoding_0,
        fault is TreesTooLarge ==> fault.text() == "Git tree 证明超过配额"@,
        fault is TreeMismatch ==> fault.text() == "Git tree 内容与 oid 不一致"@,
        fault is TreeDuplicate ==> fault.text() == "Git tree 证明包含重复 oid"@,
        fault is RuntimeMissing ==> fault.text() == "发布插件缺少 plugin.runtime"@,
{
}

} // verus!
