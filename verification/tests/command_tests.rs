//! The command cores: cat, hash, log and list against an in-memory
//! repository.

use grist::commands::{self, ObjectType};
use grist::object::{Author, Blob, Commit, Tree, TreeItem};
use grist::path::RPath;
use grist::repo::{ControlProbe, Repo};
use grist::Error;

fn fresh_repo() -> Repo {
    let worktree = RPath::from_segments(vec!["tmp".to_string(), "r".to_string()]);
    Repo::create(worktree, ControlProbe::Missing).unwrap().0
}

#[test]
fn add_accepts_a_path() {
    let p = RPath::from_segments(vec!["tmp".to_string(), "r".to_string(), "f".to_string()]);
    assert!(commands::add(&p).is_ok());
}

#[test]
fn hash_object_then_cat_file_returns_the_content() {
    let mut repo = fresh_repo();
    let content: Vec<u8> = "hello".bytes().collect();
    let digest = commands::hash_object(&mut repo, content, true, &None).unwrap();
    assert_eq!(digest, "aaf4c61ddcc5e8a2dabede0f3b482cd9aea9434d".to_string());
    let shown = commands::cat_file(&mut repo, &ObjectType::Blob, &digest).unwrap();
    assert_eq!(shown, "hello".to_string());
}

#[test]
fn hash_object_without_write_stores_nothing() {
    let mut repo = fresh_repo();
    let content: Vec<u8> = "hello".bytes().collect();
    let digest = commands::hash_object(&mut repo, content, false, &None).unwrap();
    let err = commands::cat_file(&mut repo, &ObjectType::Blob, &digest).unwrap_err();
    assert_eq!(err, Error::HashNotFound);
}

#[test]
fn hash_object_rejects_bytes_that_are_not_text() {
    let mut repo = fresh_repo();
    let err = commands::hash_object(&mut repo, vec![0xff, 0xfe], true, &None).unwrap_err();
    assert_eq!(err, Error::EncodingError);
}

#[test]
fn hash_object_rejects_writing_other_kinds() {
    let mut repo = fresh_repo();
    let content: Vec<u8> = "hello".bytes().collect();
    let err =
        commands::hash_object(&mut repo, content, true, &Some(ObjectType::Tree)).unwrap_err();
    assert_eq!(err, Error::Unimplemented);
}

#[test]
fn cat_file_shows_placeholders_for_unrendered_kinds() {
    let mut repo = fresh_repo();
    let digest = "1111111111111111111111111111111111111111".to_string();
    let tag = commands::cat_file(&mut repo, &ObjectType::Tag, &digest).unwrap();
    assert_eq!(tag, "UNIMPLEMENTED TAG CAT".to_string());
    let tree = commands::cat_file(&mut repo, &ObjectType::Tree, &digest).unwrap();
    assert_eq!(tree, "unimplemented cat for {type_}".to_string());
}

fn merge_commit() -> Commit {
    Commit {
        tree: "aaf4c61ddcc5e8a2dabede0f3b482cd9aea9434d".to_string(),
        parents: vec![
            "1111111111111111111111111111111111111111".to_string(),
            "2222222222222222222222222222222222222222".to_string(),
        ],
        author: Author { name: "alice".to_string(), email: "alice@example.com".to_string() },
        committer: Author { name: "bob".to_string(), email: "bob@example.com".to_string() },
        comment: "merge".to_string(),
    }
}

#[test]
fn log_graphviz_reports_parent_edges_in_order() {
    let mut repo = fresh_repo();
    let commit = merge_commit();
    let digest = grist::digest::hash(&commit.canonical_bytes());
    Commit::write(&mut repo, digest.as_str(), &commit);
    let edges = commands::log_graphviz(&mut repo, &digest).unwrap();
    assert_eq!(edges.len(), 2);
    assert_eq!(edges[0].child, digest);
    assert_eq!(edges[0].parent, "1111111111111111111111111111111111111111".to_string());
    assert_eq!(edges[1].child, digest);
    assert_eq!(edges[1].parent, "2222222222222222222222222222222222222222".to_string());
}

#[test]
fn log_graphviz_misses_with_not_found() {
    let mut repo = fresh_repo();
    let missing = "1234567890123456789012345678901234567890".to_string();
    let err = commands::log_graphviz(&mut repo, &missing).unwrap_err();
    assert_eq!(err, Error::HashNotFound);
}

#[test]
fn log_relationship_skips_digests_already_seen() {
    let mut repo = fresh_repo();
    let commit = merge_commit();
    let digest = grist::digest::hash(&commit.canonical_bytes());
    Commit::write(&mut repo, digest.as_str(), &commit);
    let mut seen: grist::store::Store<()> = grist::store::Store::new();
    let first = commands::log_relationship(&mut repo, &digest, &mut seen).unwrap();
    assert_eq!(first.len(), 2);
    let second = commands::log_relationship(&mut repo, &digest, &mut seen).unwrap();
    assert!(second.is_empty());
}

#[test]
fn lstree_lists_items_with_their_kinds() {
    let mut repo = fresh_repo();
    let blob_digest = "1111111111111111111111111111111111111111".to_string();
    Blob::write(&mut repo, blob_digest.as_str(), &Blob::new(&"x".to_string()));
    let subtree_digest = "2222222222222222222222222222222222222222".to_string();
    Tree::write(&mut repo, subtree_digest.as_str(), &Tree { items: Vec::new() });
    let tree = Tree {
        items: vec![
            TreeItem {
                mode: "100644".to_string(),
                path: "file.txt".to_string(),
                hash: blob_digest.clone(),
            },
            TreeItem { mode: "040000".to_string(), path: "sub".to_string(), hash: subtree_digest },
            TreeItem {
                mode: "100644".to_string(),
                path: "dangling".to_string(),
                hash: "3333333333333333333333333333333333333333".to_string(),
            },
        ],
    };
    let digest = grist::digest::hash(&tree.canonical_bytes());
    Tree::write(&mut repo, digest.as_str(), &tree);
    let rows = commands::lstree(&mut repo, &digest).unwrap();
    assert_eq!(rows.len(), 3);
    assert_eq!(rows[0].mode, "100644".to_string());
    assert_eq!(rows[0].path, "file.txt".to_string());
    assert_eq!(rows[0].kind, Some(ObjectType::Blob));
    assert_eq!(rows[1].kind, Some(ObjectType::Tree));
    assert_eq!(rows[2].kind, None);
}

#[test]
fn lstree_misses_with_not_found() {
    let mut repo = fresh_repo();
    let missing = "1234567890123456789012345678901234567890".to_string();
    let err = commands::lstree(&mut repo, &missing).unwrap_err();
    assert_eq!(err, Error::HashNotFound);
}
