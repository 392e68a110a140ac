//! The object model: the three record kinds the store holds — `Blob` (raw
//! file content, kept as a reversible hexadecimal rendering so it stays
//! storable in a textual table), `Tree` (an ordered directory snapshot) and
//! `Commit` (a snapshot node in the history graph) — together with their
//! mathematical views.

use vstd::prelude::*;

use crate::digest::{bytes_of_hex, hex_decode, hex_encode, is_hex_seq};
use crate::repo::Repo;
use crate::Error;
use vstd::utf8::{encode_utf8, valid_utf8};

verus! {

/// Relies on `String::from_utf8`: succeeds exactly on valid UTF-8 and then
/// returns the string those bytes encode.
#[verifier::external_body]
pub(crate) fn string_from_utf8(bytes: Vec<u8>) -> (r: Option<String>)
    ensures
        r is Some <==> valid_utf8(bytes@),
        r matches Some(s) ==> encode_utf8(s@) == bytes@,
{
    match String::from_utf8(bytes) {
        Ok(s) => Some(s),
        Err(_) => None,
    }
}

/// Raw file content, stored as its hexadecimal rendering.
#[derive(Debug)]
pub struct Blob {
    hex: String,
}

impl View for Blob {
    type V = Seq<u8>;

    /// A blob's mathematical content: the bytes its stored hex spells.
    closed spec fn view(&self) -> Seq<u8> {
        bytes_of_hex(self.hex@)
    }
}

impl Blob {
    #[verifier::type_invariant]
    spec fn inv(&self) -> bool {
        is_hex_seq(self.hex@)
    }

    /// The stored hexadecimal rendering itself.
    pub closed spec fn hex_view(&self) -> Seq<char> {
        self.hex@
    }

    /// The stored rendering: always a valid hex string spelling the content.
    pub fn hex_str(&self) -> (r: &String)
        ensures
            r@ == self.hex_view(),
            is_hex_seq(self.hex_view()),
            bytes_of_hex(self.hex_view()) == self@,
    {
        proof {
            use_type_invariant(self);
        }
        &self.hex
    }

    /// Makes a blob from text content; the blob's content bytes are the
    /// text's UTF-8 bytes.
    pub fn new(content: &String) -> (r: Blob)
        ensures
            r@ == encode_utf8(content@),
            r.hex_view() == crate::digest::hex_of(encode_utf8(content@)),
    {
        let hex = hex_encode(content.as_str().as_bytes());
        proof {
            crate::digest::lemma_hex_of_valid(encode_utf8(content@));
            crate::digest::lemma_hex_roundtrip(encode_utf8(content@));
        }
        Blob { hex }
    }

    /// Rebuilds a blob from a stored hexadecimal rendering, rejecting a
    /// string that does not spell bytes.
    pub fn from_hex(hex: String) -> (r: Result<Blob, Error>)
        ensures
            r matches Ok(b) ==> is_hex_seq(hex@) && b.hex_view() == hex@ && b@ == bytes_of_hex(
                hex@,
            ),
            r matches Err(e) ==> e == Error::EncodingError && !is_hex_seq(hex@),
            r is Ok <==> is_hex_seq(hex@),
    {
        if is_hex_string(&hex) {
            Ok(Blob { hex })
        } else {
            Err(Error::EncodingError)
        }
    }

    /// Converts the stored content bytes back to text, failing exactly when
    /// they are not valid UTF-8.
    pub fn decode(&self) -> (r: Result<String, Error>)
        ensures
            r is Ok <==> valid_utf8(self@),
            r matches Ok(s) ==> encode_utf8(s@) == self@,
            r matches Err(e) ==> e == Error::EncodingError,
    {
        proof {
            use_type_invariant(self);
        }
        let bytes = match hex_decode(&self.hex) {
            Some(b) => b,
            None => {
                return Err(Error::EncodingError);
            },
        };
        match string_from_utf8(bytes) {
            Some(s) => Ok(s),
            None => Err(Error::EncodingError),
        }
    }

    /// An equal-valued copy.
    pub fn duplicate(&self) -> (r: Blob)
        ensures
            r == *self,
    {
        proof {
            use_type_invariant(self);
        }
        Blob { hex: self.hex.clone() }
    }

    /// This blob's canonical bytes — its raw content, the form its digest is
    /// computed over.
    pub fn canonical_bytes(&self) -> (r: Vec<u8>)
        ensures
            r@ == self@,
    {
        proof {
            use_type_invariant(self);
        }
        match hex_decode(&self.hex) {
            Some(b) => b,
            None => vstd::pervasive::unreached(),
        }
    }

    /// Looks the blob stored under `hash` up in the repository's blob table:
    /// an equal-valued copy of what was written, or `HashNotFound` exactly
    /// when no blob was ever written under that digest.
    pub fn read(repo: &mut Repo, hash: &String) -> (r: Result<Blob, Error>)
        ensures
            *final(repo) == *old(repo),
            (r is Ok) <==> old(repo).db.blobs@.contains_key(hash@),
            r matches Ok(b) ==> b == old(repo).db.blobs@[hash@],
            r matches Err(e) ==> e == Error::HashNotFound,
    {
        match repo.db.blobs.get(hash) {
            Some(b) => Ok(b.duplicate()),
            None => Err(Error::HashNotFound),
        }
    }

    /// Stores `blob` in the repository's blob table under `hash`, replacing
    /// any previous entry for that digest and touching nothing else.
    pub fn write(repo: &mut Repo, hash: &str, blob: &Blob)
        ensures
            final(repo).worktree == old(repo).worktree,
            final(repo).config == old(repo).config,
            final(repo).db.commits == old(repo).db.commits,
            final(repo).db.trees == old(repo).db.trees,
            final(repo).db.blobs@ == old(repo).db.blobs@.insert(hash@, *blob),
    {
        repo.db.blobs.put(hash.to_owned(), blob.duplicate());
    }
}

/// Whether every character of `s` is a hexadecimal digit and its length is
/// even, i.e. whether `s` spells a byte sequence.
pub fn is_hex_string(s: &String) -> (r: bool)
    ensures
        r == is_hex_seq(s@),
{
    let st = s.as_str();
    let len = st.unicode_len();
    if len % 2 != 0 {
        return false;
    }
    let mut i: usize = 0;
    while i < len
        invariant
            st@ == s@,
            len == st@.len(),
            len % 2 == 0,
            0 <= i <= len,
            forall|j: int| 0 <= j < i ==> crate::digest::is_hex_digit(#[trigger] st@[j]),
        decreases len - i,
    {
        let c = st.get_char(i);
        let v = c as u32;
        if !((48 <= v && v <= 57) || (97 <= v && v <= 102) || (65 <= v && v <= 70)) {
            proof {
                assert(!crate::digest::is_hex_digit(s@[i as int]));
            }
            return false;
        }
        i = i + 1;
    }
    true
}

/// Content-addressing for blobs: after writing blob `b` under the digest of
/// its canonical bytes, the table holds at that digest a value observably
/// equal to `b` — what a read then returns — whose canonical bytes digest
/// back to the key.
pub proof fn lemma_content_addressed_blob(
    before: Map<Seq<char>, Blob>,
    after: Map<Seq<char>, Blob>,
    b: Blob,
    d: Seq<char>,
)
    requires
        d == crate::digest::digest_of(crate::canon::spec_canon_blob(b@)),
        after == before.insert(d, b),
    ensures
        after.contains_key(d),
        after[d]@ == b@,
        crate::canon::spec_canon_blob(after[d]@) == crate::canon::spec_canon_blob(b@),
        crate::digest::digest_of(crate::canon::spec_canon_blob(after[d]@)) == d,
{
}

/// The name and address recorded for a commit's author or committer.
#[derive(Debug)]
pub struct Author {
    pub name: String,
    pub email: String,
}

/// The mathematical value of an `Author`.
pub ghost struct AuthorView {
    pub name: Seq<char>,
    pub email: Seq<char>,
}

impl View for Author {
    type V = AuthorView;

    open spec fn view(&self) -> AuthorView {
        AuthorView { name: self.name@, email: self.email@ }
    }
}

impl Author {
    /// An equal-valued copy.
    pub fn duplicate(&self) -> (r: Author)
        ensures
            r == *self,
    {
        Author { name: self.name.clone(), email: self.email.clone() }
    }
}

/// A snapshot node in the history graph.
#[derive(Debug)]
pub struct Commit {
    /// Digest of the tree this commit snapshots.
    pub tree: String,
    /// Digests of the parent commits: none for a root commit, several for a
    /// merge; the order is preserved.
    pub parents: Vec<String>,
    pub author: Author,
    pub committer: Author,
    /// Free commit message text.
    pub comment: String,
}

/// The mathematical value of a `Commit`.
pub ghost struct CommitView {
    pub tree: Seq<char>,
    pub parents: Seq<Seq<char>>,
    pub author: AuthorView,
    pub committer: AuthorView,
    pub comment: Seq<char>,
}

impl View for Commit {
    type V = CommitView;

    open spec fn view(&self) -> CommitView {
        CommitView {
            tree: self.tree@,
            parents: self.parents.deep_view(),
            author: self.author@,
            committer: self.committer@,
            comment: self.comment@,
        }
    }
}

impl Commit {
    /// An equal-valued copy.
    pub fn duplicate(&self) -> (r: Commit)
        ensures
            r@ == self@,
    {
        broadcast use vstd::std_specs::vec::vec_clone_deep_view_proof;

        Commit {
            tree: self.tree.clone(),
            parents: self.parents.clone(),
            author: self.author.duplicate(),
            committer: self.committer.duplicate(),
            comment: self.comment.clone(),
        }
    }

    /// Looks the commit stored under `hash` up in the repository's commit
    /// table: a copy with an equal value, or `HashNotFound` exactly when no
    /// commit was ever written under that digest.
    pub fn read(repo: &mut Repo, hash: &String) -> (r: Result<Commit, Error>)
        ensures
            *final(repo) == *old(repo),
            (r is Ok) <==> old(repo).db.commits@.contains_key(hash@),
            r matches Ok(c) ==> c@ == old(repo).db.commits@[hash@]@,
            r matches Err(e) ==> e == Error::HashNotFound,
    {
        match repo.db.commits.get(hash) {
            Some(c) => Ok(c.duplicate()),
            None => Err(Error::HashNotFound),
        }
    }

    /// Stores `commit` in the repository's commit table under `hash`,
    /// replacing any previous entry for that digest and touching nothing
    /// else.
    pub fn write(repo: &mut Repo, hash: &str, commit: &Commit)
        ensures
            final(repo).worktree == old(repo).worktree,
            final(repo).config == old(repo).config,
            final(repo).db.blobs == old(repo).db.blobs,
            final(repo).db.trees == old(repo).db.trees,
            final(repo).db.commits@.dom() == old(repo).db.commits@.dom().insert(hash@),
            final(repo).db.commits@[hash@]@ == commit@,
            forall|k: Seq<char>|
                k != hash@ && old(repo).db.commits@.contains_key(k)
                    ==> final(repo).db.commits@[k] == old(repo).db.commits@[k],
    {
        repo.db.commits.put(hash.to_owned(), commit.duplicate());
        proof {
            assert(repo.db.commits@.dom() =~= old(repo).db.commits@.dom().insert(hash@));
        }
    }
}

/// Content-addressing for commits: after writing commit value `c` under the
/// digest of its canonical bytes, the table holds at that digest a value
/// observably equal to `c` — what a read then returns, parents (empty or
/// not) and their order included — whose canonical bytes digest back to the
/// key.
pub proof fn lemma_content_addressed_commit(
    before: Map<Seq<char>, Commit>,
    after: Map<Seq<char>, Commit>,
    c: CommitView,
    d: Seq<char>,
)
    requires
        d == crate::digest::digest_of(crate::canon::spec_canon_commit(c)),
        after.dom() == before.dom().insert(d),
        after[d]@ == c,
    ensures
        after.contains_key(d),
        crate::canon::spec_canon_commit(after[d]@) == crate::canon::spec_canon_commit(c),
        crate::digest::digest_of(crate::canon::spec_canon_commit(after[d]@)) == d,
{
    assert(after.dom().contains(d));
}

/// One entry of a directory snapshot: a mode, a path segment, and the digest
/// of the blob or subtree it names.
#[derive(Debug)]
pub struct TreeItem {
    pub mode: String,
    pub path: String,
    pub hash: String,
}

/// The mathematical value of a `TreeItem`.
pub ghost struct TreeItemView {
    pub mode: Seq<char>,
    pub path: Seq<char>,
    pub hash: Seq<char>,
}

impl View for TreeItem {
    type V = TreeItemView;

    open spec fn view(&self) -> TreeItemView {
        TreeItemView { mode: self.mode@, path: self.path@, hash: self.hash@ }
    }
}

impl DeepView for TreeItem {
    type V = TreeItemView;

    open spec fn deep_view(&self) -> TreeItemView {
        self.view()
    }
}

impl TreeItem {
    /// An equal-valued copy.
    pub fn duplicate(&self) -> (r: TreeItem)
        ensures
            r == *self,
    {
        TreeItem { mode: self.mode.clone(), path: self.path.clone(), hash: self.hash.clone() }
    }
}

/// A directory snapshot: an ordered list of items, order preserved from
/// insertion.
#[derive(Debug)]
pub struct Tree {
    pub items: Vec<TreeItem>,
}

impl View for Tree {
    type V = Seq<TreeItemView>;

    open spec fn view(&self) -> Seq<TreeItemView> {
        self.items.deep_view()
    }
}

impl Tree {
    /// An equal-valued copy.
    pub fn duplicate(&self) -> (r: Tree)
        ensures
            r@ == self@,
    {
        let mut items: Vec<TreeItem> = Vec::new();
        let n = self.items.len();
        let mut i: usize = 0;
        while i < n
            invariant
                n == self.items@.len(),
                0 <= i <= n,
                items@.len() == i,
                forall|j: int| 0 <= j < i ==> (#[trigger] items@[j])@ == self.items@[j]@,
            decreases n - i,
        {
            items.push(self.items[i].duplicate());
            i = i + 1;
        }
        let r = Tree { items };
        proof {
            assert(r@ =~= self@);
        }
        r
    }

    /// Looks the tree stored under `hash` up in the repository's tree table:
    /// a copy with an equal value (the item list in its stored order), or
    /// `HashNotFound` exactly when no tree was ever written under that
    /// digest.
    pub fn read(repo: &mut Repo, hash: &String) -> (r: Result<Tree, Error>)
        ensures
            *final(repo) == *old(repo),
            (r is Ok) <==> old(repo).db.trees@.contains_key(hash@),
            r matches Ok(t) ==> t@ == old(repo).db.trees@[hash@]@,
            r matches Err(e) ==> e == Error::HashNotFound,
    {
        match repo.db.trees.get(hash) {
            Some(t) => Ok(t.duplicate()),
            None => Err(Error::HashNotFound),
        }
    }

    /// Stores `tree` in the repository's tree table under `hash`, replacing
    /// any previous entry for that digest and touching nothing else.
    pub fn write(repo: &mut Repo, hash: &str, tree: &Tree)
        ensures
            final(repo).worktree == old(repo).worktree,
            final(repo).config == old(repo).config,
            final(repo).db.blobs == old(repo).db.blobs,
            final(repo).db.commits == old(repo).db.commits,
            final(repo).db.trees@.dom() == old(repo).db.trees@.dom().insert(hash@),
            final(repo).db.trees@[hash@]@ == tree@,
            forall|k: Seq<char>|
                k != hash@ && old(repo).db.trees@.contains_key(k) ==> final(repo).db.trees@[k]
                    == old(repo).db.trees@[k],
    {
        repo.db.trees.put(hash.to_owned(), tree.duplicate());
        proof {
            assert(repo.db.trees@.dom() =~= old(repo).db.trees@.dom().insert(hash@));
        }
    }
}

/// Content-addressing for trees: after writing tree value `t` under the
/// digest of its canonical bytes, the table holds at that digest a value
/// observably equal to `t` — what a read then returns, item order included —
/// whose canonical bytes digest back to the key.
pub proof fn lemma_content_addressed_tree(
    before: Map<Seq<char>, Tree>,
    after: Map<Seq<char>, Tree>,
    t: Seq<TreeItemView>,
    d: Seq<char>,
)
    requires
        d == crate::digest::digest_of(crate::canon::spec_canon_tree(t)),
        after.dom() == before.dom().insert(d),
        after[d]@ == t,
    ensures
        after.contains_key(d),
        crate::canon::spec_canon_tree(after[d]@) == crate::canon::spec_canon_tree(t),
        crate::digest::digest_of(crate::canon::spec_canon_tree(after[d]@)) == d,
{
    assert(after.dom().contains(d));
}

} // verus!
