//! The object kinds: blob encoding and decoding, write-then-read round
//! trips for every kind, miss behavior, and content-addressing.

use grist::commands::ObjectType;
use grist::object::{Author, Blob, Commit, Tree, TreeItem};
use grist::path::RPath;
use grist::repo::{ControlProbe, Repo};
use grist::Error;

fn fresh_repo() -> Repo {
    let worktree = RPath::from_segments(vec!["tmp".to_string(), "r".to_string()]);
    let (repo, _plan) = Repo::create(worktree, ControlProbe::Missing).unwrap();
    repo
}

fn commit_with_parents(parents: Vec<String>, comment: &str) -> Commit {
    Commit {
        tree: "aaf4c61ddcc5e8a2dabede0f3b482cd9aea9434d".to_string(),
        parents,
        author: Author { name: "alice".to_string(), email: "alice@example.com".to_string() },
        committer: Author { name: "bob".to_string(), email: "bob@example.com".to_string() },
        comment: comment.to_string(),
    }
}

#[test]
fn blob_new_then_decode_returns_content() {
    let blob = Blob::new(&"hello".to_string());
    assert_eq!(blob.hex_str().as_str(), "68656c6c6f");
    assert_eq!(blob.decode().unwrap(), "hello".to_string());
}

#[test]
fn blob_from_hex_rejects_bad_renderings() {
    assert_eq!(Blob::from_hex("xyz!".to_string()).unwrap_err(), Error::EncodingError);
    assert_eq!(Blob::from_hex("abc".to_string()).unwrap_err(), Error::EncodingError);
    assert!(Blob::from_hex("68656C6C6F".to_string()).is_ok());
}

#[test]
fn blob_decode_rejects_bytes_that_are_not_text() {
    let blob = Blob::from_hex("ff".to_string()).unwrap();
    assert_eq!(blob.decode().unwrap_err(), Error::EncodingError);
}

#[test]
fn blob_write_then_read_round_trips() {
    let mut repo = fresh_repo();
    let content: Vec<u8> = "hello".bytes().collect();
    let digest = grist::digest::hash(&content);
    let blob = Blob::new(&"hello".to_string());
    Blob::write(&mut repo, digest.as_str(), &blob);
    let back = Blob::read(&mut repo, &digest).unwrap();
    assert_eq!(back.decode().unwrap(), "hello".to_string());
    assert_eq!(back.hex_str(), blob.hex_str());
}

#[test]
fn blob_read_miss_is_not_found() {
    let mut repo = fresh_repo();
    let missing = "aaf4c61ddcc5e8a2dabede0f3b482cd9aea9434d".to_string();
    assert_eq!(Blob::read(&mut repo, &missing).unwrap_err(), Error::HashNotFound);
}

#[test]
fn commit_root_round_trips_with_empty_parents() {
    let mut repo = fresh_repo();
    let commit = commit_with_parents(Vec::new(), "root commit");
    let digest = grist::digest::hash(&commit.canonical_bytes());
    Commit::write(&mut repo, digest.as_str(), &commit);
    let back = Commit::read(&mut repo, &digest).unwrap();
    assert!(back.parents.is_empty());
    assert_eq!(back.tree, commit.tree);
    assert_eq!(back.author.name, "alice".to_string());
    assert_eq!(back.committer.email, "bob@example.com".to_string());
    assert_eq!(back.comment, "root commit".to_string());
}

#[test]
fn commit_merge_round_trips_with_parent_order() {
    let mut repo = fresh_repo();
    let p1 = "1111111111111111111111111111111111111111".to_string();
    let p2 = "2222222222222222222222222222222222222222".to_string();
    let commit = commit_with_parents(vec![p1.clone(), p2.clone()], "merge");
    let digest = grist::digest::hash(&commit.canonical_bytes());
    Commit::write(&mut repo, digest.as_str(), &commit);
    let back = Commit::read(&mut repo, &digest).unwrap();
    assert_eq!(back.parents, vec![p1, p2]);
}

#[test]
fn commit_read_miss_is_not_found() {
    let mut repo = fresh_repo();
    let missing = "1234567890123456789012345678901234567890".to_string();
    assert_eq!(Commit::read(&mut repo, &missing).unwrap_err(), Error::HashNotFound);
}

#[test]
fn tree_round_trips_with_item_order() {
    let mut repo = fresh_repo();
    let tree = Tree {
        items: vec![
            TreeItem {
                mode: "100644".to_string(),
                path: "b.txt".to_string(),
                hash: "1111111111111111111111111111111111111111".to_string(),
            },
            TreeItem {
                mode: "040000".to_string(),
                path: "a".to_string(),
                hash: "2222222222222222222222222222222222222222".to_string(),
            },
        ],
    };
    let digest = grist::digest::hash(&tree.canonical_bytes());
    Tree::write(&mut repo, digest.as_str(), &tree);
    let back = Tree::read(&mut repo, &digest).unwrap();
    assert_eq!(back.items.len(), 2);
    assert_eq!(back.items[0].path, "b.txt".to_string());
    assert_eq!(back.items[0].mode, "100644".to_string());
    assert_eq!(back.items[1].path, "a".to_string());
    assert_eq!(
        back.items[1].hash,
        "2222222222222222222222222222222222222222".to_string()
    );
}

#[test]
fn tree_read_miss_is_not_found() {
    let mut repo = fresh_repo();
    let missing = "da39a3ee5e6b4b0d3255bfef95601890afd80709".to_string();
    assert_eq!(Tree::read(&mut repo, &missing).unwrap_err(), Error::HashNotFound);
}

#[test]
fn content_addressing_digest_matches_after_read_back() {
    let mut repo = fresh_repo();
    let commit = commit_with_parents(
        vec!["1111111111111111111111111111111111111111".to_string()],
        "checked by digest",
    );
    let digest = grist::digest::hash(&commit.canonical_bytes());
    Commit::write(&mut repo, digest.as_str(), &commit);
    let back = Commit::read(&mut repo, &digest).unwrap();
    assert_eq!(back.canonical_bytes(), commit.canonical_bytes());
    assert_eq!(grist::digest::hash(&back.canonical_bytes()), digest);
}

#[test]
fn canonical_bytes_distinguish_different_commits() {
    let a = commit_with_parents(Vec::new(), "a");
    let b = commit_with_parents(Vec::new(), "b");
    assert_ne!(a.canonical_bytes(), b.canonical_bytes());
    let one = commit_with_parents(
        vec!["1111111111111111111111111111111111111111".to_string()],
        "a",
    );
    assert_ne!(a.canonical_bytes(), one.canonical_bytes());
}

#[test]
fn overwrite_same_digest_keeps_read_your_writes() {
    let mut repo = fresh_repo();
    let digest = "3333333333333333333333333333333333333333".to_string();
    let first = Blob::new(&"first".to_string());
    let second = Blob::new(&"second".to_string());
    Blob::write(&mut repo, digest.as_str(), &first);
    Blob::write(&mut repo, digest.as_str(), &second);
    let back = Blob::read(&mut repo, &digest).unwrap();
    assert_eq!(back.decode().unwrap(), "second".to_string());
}

#[test]
fn object_type_reports_each_kind() {
    let mut repo = fresh_repo();
    let blob_digest = "1111111111111111111111111111111111111111".to_string();
    let commit_digest = "2222222222222222222222222222222222222222".to_string();
    let tree_digest = "3333333333333333333333333333333333333333".to_string();
    Blob::write(&mut repo, blob_digest.as_str(), &Blob::new(&"x".to_string()));
    Commit::write(
        &mut repo,
        commit_digest.as_str(),
        &commit_with_parents(Vec::new(), "c"),
    );
    Tree::write(&mut repo, tree_digest.as_str(), &Tree { items: Vec::new() });
    assert_eq!(
        grist::commands::object_type(&mut repo, &blob_digest),
        Some(ObjectType::Blob)
    );
    assert_eq!(
        grist::commands::object_type(&mut repo, &commit_digest),
        Some(ObjectType::Commit)
    );
    assert_eq!(
        grist::commands::object_type(&mut repo, &tree_digest),
        Some(ObjectType::Tree)
    );
    let missing = "4444444444444444444444444444444444444444".to_string();
    assert_eq!(grist::commands::object_type(&mut repo, &missing), None);
}
