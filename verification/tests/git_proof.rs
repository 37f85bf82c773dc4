use aio_idea::runtime::model::{GitProof, GitTreeProof, PublishPluginRequest};
use aio_idea::runtime::server::git_proof::{
    commit_tree, hex_oid, is_oid, object_id, tree_entry, verified_trees, verify, verify_blob_path,
    EntryFault, GitProofError, GitTree, ObjectFault, PathFault,
};
use base64::engine::general_purpose::STANDARD;
use base64::Engine;

const MANIFEST: &str = "[plugin.runtime]\nkind='wasm-component'\n";
const ARTIFACT: &[u8] = b"\0asm";

fn raw(oid: &str) -> Vec<u8> {
    (0..20).map(|i| u8::from_str_radix(&oid[2 * i..2 * i + 2], 16).expect("hex")).collect()
}

fn entry(mode: &str, name: &str, oid: &str) -> Vec<u8> {
    let mut bytes = format!("{mode} {name}\0").into_bytes();
    bytes.extend(raw(oid));
    bytes
}

struct Repository {
    commit: Vec<u8>,
    root: Vec<u8>,
    dist: Vec<u8>,
}

fn repository() -> Repository {
    let artifact = object_id("blob", ARTIFACT);
    let dist = entry("100755", "plugin.wasm", &artifact);
    let mut root = entry("100644", "aio-plugin.toml", &object_id("blob", MANIFEST.as_bytes()));
    root.extend(entry("40000", "dist", &object_id("tree", &dist)));
    let commit = format!("tree {}\nauthor a\n\nmessage\n", object_id("tree", &root)).into_bytes();
    Repository { commit, root, dist }
}

fn tree_proof(content: &[u8]) -> GitTreeProof {
    GitTreeProof { oid: object_id("tree", content), content_base64: STANDARD.encode(content) }
}

fn request(repository: &Repository) -> PublishPluginRequest {
    PublishPluginRequest {
        git: "https://github.com/example/plugin.git".to_owned(),
        rev: object_id("commit", &repository.commit),
        manifest_toml: MANIFEST.to_owned(),
        git_proof: GitProof {
            commit_base64: STANDARD.encode(&repository.commit),
            trees: vec![tree_proof(&repository.root), tree_proof(&repository.dist)],
        },
    }
}

fn fault(request: &PublishPluginRequest) -> ObjectFault<String> {
    match verify(request, Some("dist/plugin.wasm"), ARTIFACT) {
        Err(GitProofError::Object(fault)) => fault,
        other => panic!("{other:?}"),
    }
}

fn path_fault(request: &PublishPluginRequest, path: &str, bytes: &[u8]) -> PathFault {
    match verify(request, Some(path), bytes) {
        Err(GitProofError::Path(error)) => error.fault,
        other => panic!("{other:?}"),
    }
}

#[test]
fn object_ids_are_those_of_git() {
    assert_eq!(object_id("blob", b""), "e69de29bb2d1d6434b8b29ae775ad8c2e48c5391");
    assert_eq!(object_id("blob", b"hello\n"), "ce013625030ba8dba906f756967f9e9ca394464a");
    assert_eq!(object_id("tree", b""), "4b825dc642cb6eb9a060e54bf8d69288fbee4904");
}

#[test]
fn a_commit_shows_its_manifest_and_its_artifact() {
    let repository = repository();
    let mut request = request(&repository);
    assert!(verify(&request, Some("dist/plugin.wasm"), ARTIFACT).is_ok());
    request.rev = request.rev.to_uppercase();
    assert!(verify(&request, Some("dist/plugin.wasm"), ARTIFACT).is_ok());
}

#[test]
fn objects_that_do_not_show_the_commit_are_told_apart() {
    let repository = repository();
    let mut request = request(&repository);
    request.git_proof.commit_base64 = "?".to_owned();
    let refused = fault(&request);
    assert!(matches!(refused, ObjectFault::CommitEncoding(_)));
    assert!(refused.message().starts_with("Git commit 证明不是有效 Base64: Invalid"));
    request.git_proof.commit_base64 = STANDARD.encode(vec![b'x'; 131073]);
    assert_eq!(fault(&request), ObjectFault::CommitTooLarge);
    request.git_proof.commit_base64 = STANDARD.encode(&repository.commit);
    request.rev = "0".repeat(40);
    assert_eq!(fault(&request), ObjectFault::RevisionMismatch);
    request.rev = object_id("commit", &repository.commit);
    request.git_proof.trees = Vec::new();
    assert_eq!(fault(&request), ObjectFault::TreesMissing);
    request.git_proof.trees = (0..65).map(|_| tree_proof(&repository.root)).collect();
    assert_eq!(fault(&request), ObjectFault::TooManyTrees);
    request.git_proof.trees = vec![tree_proof(&repository.root), tree_proof(&repository.root)];
    assert_eq!(fault(&request), ObjectFault::TreeDuplicate);
    let mut forged = tree_proof(&repository.root);
    forged.oid = "1".repeat(40);
    request.git_proof.trees = vec![forged];
    assert_eq!(fault(&request), ObjectFault::TreeMismatch);
    let mut misnamed = tree_proof(&repository.root);
    misnamed.oid = "tree".to_owned();
    request.git_proof.trees = vec![misnamed];
    assert_eq!(fault(&request), ObjectFault::TreeOidInvalid);
    let mut garbled = tree_proof(&repository.root);
    garbled.content_base64 = "*".to_owned();
    request.git_proof.trees = vec![garbled];
    assert!(matches!(fault(&request), ObjectFault::TreeEncoding(_)));
    request.git_proof.trees = vec![tree_proof(&vec![0u8; 4194305])];
    assert_eq!(fault(&request), ObjectFault::TreesTooLarge);
    request.git_proof.trees = vec![tree_proof(&repository.root), tree_proof(&repository.dist)];
    match verify(&request, None, ARTIFACT) {
        Err(GitProofError::Object(fault)) => assert_eq!(fault, ObjectFault::RuntimeMissing),
        other => panic!("{other:?}"),
    }
}

#[test]
fn paths_that_the_commit_does_not_hold_are_told_apart() {
    let repository = repository();
    let mut request = request(&repository);
    assert_eq!(path_fault(&request, "dist/other.wasm", ARTIFACT), PathFault::Absent);
    assert_eq!(path_fault(&request, "dist/plugin.wasm", b"x"), PathFault::ContentMismatch);
    assert_eq!(path_fault(&request, "dist", ARTIFACT), PathFault::NotAFile);
    assert_eq!(path_fault(&request, "aio-plugin.toml/x", ARTIFACT), PathFault::NotADirectory);
    assert_eq!(path_fault(&request, "../plugin.wasm", ARTIFACT), PathFault::Absent);
    assert_eq!(path_fault(&request, "dist//plugin.wasm", ARTIFACT), PathFault::Invalid);
    assert_eq!(path_fault(&request, "/dist/plugin.wasm", ARTIFACT), PathFault::Invalid);
    request.git_proof.trees = vec![tree_proof(&repository.root)];
    assert_eq!(path_fault(&request, "dist/plugin.wasm", ARTIFACT), PathFault::Unproved);
    request.manifest_toml = "changed".to_owned();
    assert_eq!(path_fault(&request, "dist/plugin.wasm", ARTIFACT), PathFault::ContentMismatch);
}

#[test]
fn the_tree_of_a_commit_is_its_first_line() {
    let oid = "a".repeat(40);
    assert_eq!(commit_tree(format!("tree {oid}\nx").as_bytes()).expect("a tree"), oid);
    assert_eq!(commit_tree(b"parent x\n").unwrap_err(), ObjectFault::CommitTreeMissing);
    assert_eq!(commit_tree(b"tree short\n").unwrap_err(), ObjectFault::CommitTreeInvalid);
    assert_eq!(commit_tree(b"tree \xff\n").unwrap_err(), ObjectFault::CommitTreeNotText("invalid utf-8 sequence of 1 bytes from index 0".to_owned()));
}

#[test]
fn tree_entries_read_back() {
    let oid = "0123456789abcdef0123456789abcdef01234567";
    let mut content = entry("100644", "first", &"f".repeat(40));
    content.extend(entry("40000", "second", oid));
    let (mode, found) = tree_entry(&content, b"second").expect("a tree").expect("an entry");
    assert_eq!(mode, b"40000");
    assert_eq!(found, oid);
    assert!(tree_entry(&content, b"third").expect("a tree").is_none());
    assert_eq!(tree_entry(b"100644", b"x").unwrap_err(), EntryFault::ModeMissing);
    assert_eq!(tree_entry(b"100644 x", b"x").unwrap_err(), EntryFault::NameMissing);
    assert_eq!(tree_entry(b"100644 x\0abc", b"x").unwrap_err(), EntryFault::OidShort);
}

#[test]
fn ids_are_forty_hexadecimal_digits() {
    assert!(is_oid(&"a".repeat(40)));
    assert!(is_oid(&"A".repeat(40)));
    assert!(!is_oid(&"a".repeat(39)));
    assert!(!is_oid(&"g".repeat(40)));
    assert_eq!(hex_oid(&[0x00, 0x0f, 0xa5]), "000fa5");
}

#[test]
fn verified_trees_keep_their_contents() {
    let repository = repository();
    let trees = verified_trees(&vec![tree_proof(&repository.root)]).expect("trees");
    assert_eq!(trees.len(), 1);
    assert_eq!(trees[0].content, repository.root);
    let root = object_id("tree", &repository.root);
    assert!(verify_blob_path(&trees, &root, "aio-plugin.toml", MANIFEST.as_bytes()).is_ok());
    let none: Vec<GitTree> = Vec::new();
    assert_eq!(
        verify_blob_path(&none, &root, "aio-plugin.toml", b"").unwrap_err().fault,
        PathFault::Unproved
    );
}

#[test]
fn the_order_of_the_trees_does_not_matter() {
    let repository = repository();
    let mut request = request(&repository);
    let forwards = verified_trees(&request.git_proof.trees).expect("trees");
    request.git_proof.trees.reverse();
    assert!(verify(&request, Some("dist/plugin.wasm"), ARTIFACT).is_ok());
    let backwards = verified_trees(&request.git_proof.trees).expect("trees");
    assert_eq!(forwards.len(), 2);
    assert_eq!(forwards[0].oid, backwards[1].oid);
    assert_eq!(forwards[0].content, backwards[1].content);
}
