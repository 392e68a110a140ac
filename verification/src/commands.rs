//! The decision cores of the commands layered on the store: given a
//! repository handle and plain inputs, each returns the values the command
//! prints or the error it reports. Reading the working directory, files and
//! arguments, and printing, happen at the edge.

use vstd::prelude::*;

use crate::digest::digest_of;
use crate::object::{string_from_utf8, Blob, Commit, Tree};
use crate::path::RPath;
use crate::repo::Repo;
use crate::Error;
use vstd::utf8::{encode_utf8, valid_utf8};

verus! {

/// The object kinds a command can name.
#[derive(Clone, Copy, Debug, PartialEq, Eq, Structural)]
pub enum ObjectType {
    Blob,
    Commit,
    Tag,
    Tree,
}

/// Records an intent to add `path`'s content to the next snapshot.
/// Recording is not implemented yet: the request is accepted and nothing
/// changes.
pub fn add(_path: &RPath) -> (r: Result<(), Error>)
    ensures
        r is Ok,
{
    Ok(())
}

/// Which table, probed in the order blob, commit, tree, holds an object
/// under digest `k`.
pub open spec fn spec_object_kind(repo: Repo, k: Seq<char>) -> Option<ObjectType> {
    if repo.db.blobs@.contains_key(k) {
        Some(ObjectType::Blob)
    } else if repo.db.commits@.contains_key(k) {
        Some(ObjectType::Commit)
    } else if repo.db.trees@.contains_key(k) {
        Some(ObjectType::Tree)
    } else {
        None
    }
}

/// The kind of the object stored under `hash`, probing the blob, commit and
/// tree tables in that order; `None` when no table holds that digest.
pub fn object_type(repo: &mut Repo, hash: &String) -> (r: Option<ObjectType>)
    ensures
        *final(repo) == *old(repo),
        r == spec_object_kind(*old(repo), hash@),
{
    if repo.db.blobs.contains_key(hash) {
        Some(ObjectType::Blob)
    } else if repo.db.commits.contains_key(hash) {
        Some(ObjectType::Commit)
    } else if repo.db.trees.contains_key(hash) {
        Some(ObjectType::Tree)
    } else {
        None
    }
}

/// The text a cat command shows for object `object` of kind `type_`: a
/// blob's decoded content; placeholder text for the kinds the command does
/// not render yet.
pub fn cat_file(repo: &mut Repo, type_: &ObjectType, object: &String) -> (r: Result<String, Error>)
    ensures
        *final(repo) == *old(repo),
        match *type_ {
            ObjectType::Blob => {
                &&& !old(repo).db.blobs@.contains_key(object@) ==> r == Err::<String, Error>(
                    Error::HashNotFound,
                )
                &&& old(repo).db.blobs@.contains_key(object@) ==> {
                    let content = old(repo).db.blobs@[object@]@;
                    &&& (r is Ok <==> valid_utf8(content))
                    &&& (r matches Ok(s) ==> encode_utf8(s@) == content)
                    &&& (!valid_utf8(content) ==> r == Err::<String, Error>(Error::EncodingError))
                }
            },
            ObjectType::Tag => r matches Ok(s) && s@ == "UNIMPLEMENTED TAG CAT"@,
            _ => r matches Ok(s) && s@ == "unimplemented cat for {type_}"@,
        },
{
    match *type_ {
        ObjectType::Blob => {
            let blob = match Blob::read(repo, object) {
                Ok(b) => b,
                Err(e) => {
                    return Err(e);
                },
            };
            blob.decode()
        },
        ObjectType::Tag => Ok("UNIMPLEMENTED TAG CAT".to_owned()),
        _ => Ok("unimplemented cat for {type_}".to_owned()),
    }
}

/// Whether a hash command treats `type_` as blob content (the only kind it
/// can store).
pub open spec fn is_blob_kind(type_: Option<ObjectType>) -> bool {
    match type_ {
        None => true,
        Some(ObjectType::Blob) => true,
        _ => false,
    }
}

/// Digests `content` and returns the digest; with `write` set the content is
/// also stored as a blob under that digest, which only works for the blob
/// kind. Content that is not valid UTF-8 is rejected, as the store keeps
/// blob content as text.
pub fn hash_object(repo: &mut Repo, content: Vec<u8>, write: bool, type_: &Option<ObjectType>) -> (r:
    Result<String, Error>)
    ensures
        r matches Ok(h) ==> h@ == digest_of(content@),
        !valid_utf8(content@) ==> r == Err::<String, Error>(Error::EncodingError),
        valid_utf8(content@) && write && !is_blob_kind(*type_) ==> r == Err::<String, Error>(
            Error::Unimplemented,
        ),
        valid_utf8(content@) && (write ==> is_blob_kind(*type_)) ==> r is Ok,
        !(r is Ok && write) ==> *final(repo) == *old(repo),
        r is Ok && write ==> {
            &&& final(repo).worktree == old(repo).worktree
            &&& final(repo).config == old(repo).config
            &&& final(repo).db.commits == old(repo).db.commits
            &&& final(repo).db.trees == old(repo).db.trees
            &&& final(repo).db.blobs@.dom() == old(repo).db.blobs@.dom().insert(
                digest_of(content@),
            )
            &&& final(repo).db.blobs@[digest_of(content@)]@ == content@
            &&& forall|k: Seq<char>|
                k != digest_of(content@) && old(repo).db.blobs@.contains_key(k)
                    ==> final(repo).db.blobs@[k] == old(repo).db.blobs@[k]
        },
{
    let hash = crate::digest::hash(&content);
    let ghost content_view = content@;
    let content_str = match string_from_utf8(content) {
        Some(s) => s,
        None => {
            return Err(Error::EncodingError);
        },
    };
    if write {
        let is_blob = match type_ {
            None => true,
            Some(ObjectType::Blob) => true,
            _ => false,
        };
        if !is_blob {
            return Err(Error::Unimplemented);
        }
        let blob = Blob::new(&content_str);
        Blob::write(repo, hash.as_str(), &blob);
        proof {
            assert(blob@ == content_view);
            assert(repo.db.blobs@.dom() =~= old(repo).db.blobs@.dom().insert(
                digest_of(content_view),
            ));
        }
    }
    Ok(hash)
}

/// One history edge a log command reports: a commit and one of its parents.
#[derive(Debug)]
pub struct Edge {
    pub child: String,
    pub parent: String,
}

/// Reports the parent edges of the commit `hash`, unless `seen` already
/// holds that digest (then nothing new is reported); `seen` gains the digest
/// either way. Missing commits are reported as `HashNotFound`.
pub fn log_relationship(
    repo: &mut Repo,
    hash: &String,
    seen: &mut crate::store::Store<()>,
) -> (r: Result<Vec<Edge>, Error>)
    ensures
        *final(repo) == *old(repo),
        old(seen)@.contains_key(hash@) ==> (*final(seen) == *old(seen) && (r matches Ok(edges)
            && edges@.len() == 0)),
        !old(seen)@.contains_key(hash@) ==> final(seen)@ == old(seen)@.insert(hash@, ()),
        !old(seen)@.contains_key(hash@) && old(repo).db.commits@.contains_key(hash@) ==> (r matches
            Ok(edges) && {
            let parents = old(repo).db.commits@[hash@]@.parents;
            &&& edges@.len() == parents.len()
            &&& forall|i: int|
                0 <= i < parents.len() ==> ((#[trigger] edges@[i]).child@ == hash@
                    && edges@[i].parent@ == parents[i])
        }),
        !old(seen)@.contains_key(hash@) && !old(repo).db.commits@.contains_key(hash@) ==> r == Err::<
            Vec<Edge>,
            Error,
        >(Error::HashNotFound),
{
    if seen.contains_key(hash) {
        return Ok(Vec::new());
    }
    seen.put(hash.clone(), ());
    let commit = match Commit::read(repo, hash) {
        Ok(c) => c,
        Err(e) => {
            return Err(e);
        },
    };
    let ghost parents_view = old(repo).db.commits@[hash@]@.parents;
    let mut edges: Vec<Edge> = Vec::new();
    let n = commit.parents.len();
    let mut i: usize = 0;
    while i < n
        invariant
            n == commit.parents@.len(),
            commit.parents.deep_view() == parents_view,
            0 <= i <= n,
            edges@.len() == i,
            forall|j: int|
                0 <= j < i ==> ((#[trigger] edges@[j]).child@ == hash@ && edges@[j].parent@
                    == parents_view[j]),
        decreases n - i,
    {
        let child = hash.clone();
        let parent = commit.parents[i].clone();
        proof {
            assert(parent == commit.parents@[i as int]);
            assert(commit.parents.deep_view()[i as int] == commit.parents@[i as int]@);
        }
        let ghost old_edges = edges@;
        edges.push(Edge { child, parent });
        proof {
            assert forall|j: int|
                0 <= j < i + 1 implies ((#[trigger] edges@[j]).child@ == hash@ && edges@[j].parent@
                == parents_view[j]) by {
                if j < i {
                    assert(edges@[j] == old_edges[j]);
                } else {
                    assert(edges@[j] == edges@.last());
                }
            }
        }
        i = i + 1;
    }
    Ok(edges)
}

/// Reports the parent edges of the commit `hash`, starting a fresh
/// visited set; `HashNotFound` exactly when no commit has that digest.
pub fn log_graphviz(repo: &mut Repo, commit: &String) -> (r: Result<Vec<Edge>, Error>)
    ensures
        *final(repo) == *old(repo),
        old(repo).db.commits@.contains_key(commit@) ==> (r matches Ok(edges) && {
            let parents = old(repo).db.commits@[commit@]@.parents;
            &&& edges@.len() == parents.len()
            &&& forall|i: int|
                0 <= i < parents.len() ==> ((#[trigger] edges@[i]).child@ == commit@
                    && edges@[i].parent@ == parents[i])
        }),
        !old(repo).db.commits@.contains_key(commit@) ==> r == Err::<Vec<Edge>, Error>(
            Error::HashNotFound,
        ),
{
    let mut seen: crate::store::Store<()> = crate::store::Store::new();
    proof {
        assert(!seen@.contains_key(commit@));
    }
    log_relationship(repo, commit, &mut seen)
}

/// One line a tree listing shows: the item's mode, the kind of the object
/// its digest names, the digest, and the path segment.
#[derive(Debug)]
pub struct LsTreeRow {
    pub mode: String,
    pub kind: Option<ObjectType>,
    pub hash: String,
    pub path: String,
}

/// Lists the tree stored under `hash`: one row per item, in the tree's own
/// order, each carrying the kind of the object the item's digest names;
/// `HashNotFound` exactly when no tree has that digest.
pub fn lstree(repo: &mut Repo, hash: &String) -> (r: Result<Vec<LsTreeRow>, Error>)
    ensures
        *final(repo) == *old(repo),
        (r is Ok) <==> old(repo).db.trees@.contains_key(hash@),
        r matches Err(e) ==> e == Error::HashNotFound,
        r matches Ok(rows) ==> {
            let items = old(repo).db.trees@[hash@]@;
            &&& rows@.len() == items.len()
            &&& forall|i: int|
                #![auto]
                0 <= i < items.len() ==> rows@[i].mode@ == items[i].mode && rows@[i].path@
                    == items[i].path && rows@[i].hash@ == items[i].hash && rows@[i].kind
                    == spec_object_kind(*old(repo), items[i].hash)
        },
{
    let tree = match Tree::read(repo, hash) {
        Ok(t) => t,
        Err(e) => {
            return Err(e);
        },
    };
    let ghost items_view = old(repo).db.trees@[hash@]@;
    let mut rows: Vec<LsTreeRow> = Vec::new();
    let n = tree.items.len();
    let mut i: usize = 0;
    while i < n
        invariant
            *repo == *old(repo),
            n == tree.items@.len(),
            tree.items.deep_view() == items_view,
            0 <= i <= n,
            rows@.len() == i,
            forall|j: int|
                #![auto]
                0 <= j < i ==> rows@[j].mode@ == items_view[j].mode && rows@[j].path@
                    == items_view[j].path && rows@[j].hash@ == items_view[j].hash && rows@[j].kind
                    == spec_object_kind(*old(repo), items_view[j].hash),
        decreases n - i,
    {
        let item = &tree.items[i];
        let kind = object_type(repo, &item.hash);
        rows.push(
            LsTreeRow {
                mode: item.mode.clone(),
                kind,
                hash: item.hash.clone(),
                path: item.path.clone(),
            },
        );
        i = i + 1;
    }
    Ok(rows)
}

} // verus!
