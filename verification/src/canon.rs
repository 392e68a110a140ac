//! Canonical byte encodings of the object kinds: the single deterministic
//! byte form an object is digested over. Text fields are length-prefixed
//! (eight little-endian bytes, then the UTF-8 bytes), lists are count-
//! prefixed, and field order is fixed, so identical logical content always
//! encodes to identical bytes — and, as the lemmas here prove, different
//! content never does: the encoding is unambiguous.

use vstd::prelude::*;

use crate::object::{AuthorView, Commit, CommitView, Tree, TreeItemView};
use vstd::bytes::{lemma_auto_spec_u64_to_from_le_bytes, spec_u64_to_le_bytes, u64_to_le_bytes};
use vstd::utf8::encode_utf8;

verus! {

/// Whether a length fits the eight-byte prefix.
pub open spec fn fits_u64(n: nat) -> bool {
    n < 0x10000000000000000
}

/// A byte field in canonical form: eight little-endian length bytes, then
/// the bytes themselves.
pub open spec fn spec_len_field(b: Seq<u8>) -> Seq<u8> {
    spec_u64_to_le_bytes(b.len() as u64) + b
}

/// A text field in canonical form: its UTF-8 bytes, length-prefixed.
pub open spec fn spec_str_field(s: Seq<char>) -> Seq<u8> {
    spec_len_field(encode_utf8(s))
}

/// A blob's canonical form: its raw content bytes.
pub open spec fn spec_canon_blob(content: Seq<u8>) -> Seq<u8> {
    content
}

/// An author's canonical form: name, then email.
pub open spec fn spec_canon_author(a: AuthorView) -> Seq<u8> {
    spec_str_field(a.name) + spec_str_field(a.email)
}

/// A digest list's canonical form: each entry as a text field, in order.
pub open spec fn spec_canon_str_list(ps: Seq<Seq<char>>) -> Seq<u8>
    decreases ps.len(),
{
    if ps.len() == 0 {
        Seq::empty()
    } else {
        spec_str_field(ps.first()) + spec_canon_str_list(ps.drop_first())
    }
}

/// A commit's canonical form: tree digest, count-prefixed parent digests,
/// author, committer, comment — in that fixed order.
pub open spec fn spec_canon_commit(c: CommitView) -> Seq<u8> {
    spec_str_field(c.tree) + spec_u64_to_le_bytes(c.parents.len() as u64) + spec_canon_str_list(
        c.parents,
    ) + spec_canon_author(c.author) + spec_canon_author(c.committer) + spec_str_field(c.comment)
}

/// A tree item's canonical form: mode, path, digest.
pub open spec fn spec_canon_tree_item(it: TreeItemView) -> Seq<u8> {
    spec_str_field(it.mode) + spec_str_field(it.path) + spec_str_field(it.hash)
}

/// A tree item list's canonical form: each item in order.
pub open spec fn spec_canon_item_list(items: Seq<TreeItemView>) -> Seq<u8>
    decreases items.len(),
{
    if items.len() == 0 {
        Seq::empty()
    } else {
        spec_canon_tree_item(items.first()) + spec_canon_item_list(items.drop_first())
    }
}

/// A tree's canonical form: the count-prefixed item list.
pub open spec fn spec_canon_tree(items: Seq<TreeItemView>) -> Seq<u8> {
    spec_u64_to_le_bytes(items.len() as u64) + spec_canon_item_list(items)
}

/// Appends a slice's bytes.
fn push_bytes(out: &mut Vec<u8>, bytes: &[u8])
    ensures
        final(out)@ == old(out)@ + bytes@,
{
    let n = bytes.len();
    let mut i: usize = 0;
    while i < n
        invariant
            n == bytes@.len(),
            0 <= i <= n,
            out@ == old(out)@ + bytes@.take(i as int),
        decreases n - i,
    {
        out.push(bytes[i]);
        proof {
            assert(out@ =~= old(out)@ + bytes@.take(i + 1));
        }
        i = i + 1;
    }
    proof {
        assert(out@ =~= old(out)@ + bytes@);
    }
}

/// Appends a text field: eight little-endian length bytes, then the UTF-8
/// bytes of `s`.
fn push_str_field(out: &mut Vec<u8>, s: &String)
    ensures
        final(out)@ == old(out)@ + spec_str_field(s@),
{
    let bytes = s.as_str().as_bytes();
    let mut prefix = u64_to_le_bytes(bytes.len() as u64);
    out.append(&mut prefix);
    push_bytes(out, bytes);
    proof {
        assert(out@ =~= old(out)@ + spec_str_field(s@));
    }
}

/// The eight-byte prefix pins its value and what follows: equal streams that
/// both start with a length prefix agree on the prefix and on the rest.
pub proof fn lemma_u64_prefix_unambiguous(n1: u64, n2: u64, x: Seq<u8>, y: Seq<u8>)
    requires
        spec_u64_to_le_bytes(n1) + x == spec_u64_to_le_bytes(n2) + y,
    ensures
        n1 == n2,
        x == y,
{
    lemma_auto_spec_u64_to_from_le_bytes();
    let p1 = spec_u64_to_le_bytes(n1);
    let p2 = spec_u64_to_le_bytes(n2);
    let s = p1 + x;
    assert(p1 =~= s.subrange(0, 8));
    assert(p2 =~= s.subrange(0, 8));
    assert(vstd::bytes::spec_u64_from_le_bytes(p1) == n1);
    assert(vstd::bytes::spec_u64_from_le_bytes(p2) == n2);
    assert(x =~= s.subrange(8, s.len() as int));
    assert(y =~= s.subrange(8, s.len() as int));
}

/// A length-prefixed byte field is unambiguous: equal streams that both
/// start with one agree on the field and on the rest.
pub proof fn lemma_len_field_unambiguous(a: Seq<u8>, b: Seq<u8>, x: Seq<u8>, y: Seq<u8>)
    requires
        fits_u64(a.len()),
        fits_u64(b.len()),
        spec_len_field(a) + x == spec_len_field(b) + y,
    ensures
        a == b,
        x == y,
{
    assert(spec_len_field(a) + x =~= spec_u64_to_le_bytes(a.len() as u64) + (a + x));
    assert(spec_len_field(b) + y =~= spec_u64_to_le_bytes(b.len() as u64) + (b + y));
    lemma_u64_prefix_unambiguous(a.len() as u64, b.len() as u64, a + x, b + y);
    assert(a.len() == b.len());
    let s = a + x;
    assert(a =~= s.subrange(0, a.len() as int));
    assert(b =~= s.subrange(0, a.len() as int));
    assert(x =~= s.subrange(a.len() as int, s.len() as int));
    assert(y =~= s.subrange(a.len() as int, s.len() as int));
}

/// UTF-8 encoding is injective: equal byte encodings come from equal text.
pub proof fn lemma_encode_utf8_injective(s: Seq<char>, t: Seq<char>)
    requires
        encode_utf8(s) == encode_utf8(t),
    ensures
        s == t,
{
    vstd::utf8::encode_utf8_decode_utf8(s);
    vstd::utf8::encode_utf8_decode_utf8(t);
}

/// A length-prefixed text field is unambiguous.
pub proof fn lemma_str_field_unambiguous(s: Seq<char>, t: Seq<char>, x: Seq<u8>, y: Seq<u8>)
    requires
        fits_u64(encode_utf8(s).len()),
        fits_u64(encode_utf8(t).len()),
        spec_str_field(s) + x == spec_str_field(t) + y,
    ensures
        s == t,
        x == y,
{
    lemma_len_field_unambiguous(encode_utf8(s), encode_utf8(t), x, y);
    lemma_encode_utf8_injective(s, t);
}

/// Whether every entry of a digest list fits its length prefix.
pub open spec fn str_list_lens_ok(ps: Seq<Seq<char>>) -> bool {
    forall|i: int| 0 <= i < ps.len() ==> fits_u64(encode_utf8(#[trigger] ps[i]).len())
}

/// An encoded digest list of known length is unambiguous.
pub proof fn lemma_str_list_unambiguous(
    ps: Seq<Seq<char>>,
    qs: Seq<Seq<char>>,
    x: Seq<u8>,
    y: Seq<u8>,
)
    requires
        ps.len() == qs.len(),
        str_list_lens_ok(ps),
        str_list_lens_ok(qs),
        spec_canon_str_list(ps) + x == spec_canon_str_list(qs) + y,
    ensures
        ps == qs,
        x == y,
    decreases ps.len(),
{
    if ps.len() == 0 {
        assert(spec_canon_str_list(ps) + x =~= x);
        assert(spec_canon_str_list(qs) + y =~= y);
        assert(ps =~= qs);
    } else {
        assert(spec_canon_str_list(ps) + x =~= spec_str_field(ps.first()) + (spec_canon_str_list(
            ps.drop_first(),
        ) + x));
        assert(spec_canon_str_list(qs) + y =~= spec_str_field(qs.first()) + (spec_canon_str_list(
            qs.drop_first(),
        ) + y));
        assert(fits_u64(encode_utf8(ps[0]).len()));
        assert(fits_u64(encode_utf8(qs[0]).len()));
        lemma_str_field_unambiguous(
            ps.first(),
            qs.first(),
            spec_canon_str_list(ps.drop_first()) + x,
            spec_canon_str_list(qs.drop_first()) + y,
        );
        assert(str_list_lens_ok(ps.drop_first())) by {
            assert forall|i: int|
                0 <= i < ps.drop_first().len() implies fits_u64(
                encode_utf8(#[trigger] ps.drop_first()[i]).len(),
            ) by {
                assert(ps.drop_first()[i] == ps[i + 1]);
            }
        }
        assert(str_list_lens_ok(qs.drop_first())) by {
            assert forall|i: int|
                0 <= i < qs.drop_first().len() implies fits_u64(
                encode_utf8(#[trigger] qs.drop_first()[i]).len(),
            ) by {
                assert(qs.drop_first()[i] == qs[i + 1]);
            }
        }
        lemma_str_list_unambiguous(ps.drop_first(), qs.drop_first(), x, y);
        assert forall|i: int| 0 <= i < ps.len() implies ps[i] == qs[i] by {
            if i == 0 {
                assert(ps[0] == ps.first() && qs[0] == qs.first());
            } else {
                assert(ps.drop_first()[i - 1] == ps[i]);
                assert(qs.drop_first()[i - 1] == qs[i]);
            }
        }
        assert(ps =~= qs);
    }
}

/// Whether an author's fields fit their length prefixes.
pub open spec fn author_lens_ok(a: AuthorView) -> bool {
    fits_u64(encode_utf8(a.name).len()) && fits_u64(encode_utf8(a.email).len())
}

/// An encoded author is unambiguous.
pub proof fn lemma_author_unambiguous(a1: AuthorView, a2: AuthorView, x: Seq<u8>, y: Seq<u8>)
    requires
        author_lens_ok(a1),
        author_lens_ok(a2),
        spec_canon_author(a1) + x == spec_canon_author(a2) + y,
    ensures
        a1 == a2,
        x == y,
{
    assert(spec_canon_author(a1) + x =~= spec_str_field(a1.name) + (spec_str_field(a1.email) + x));
    assert(spec_canon_author(a2) + y =~= spec_str_field(a2.name) + (spec_str_field(a2.email) + y));
    lemma_str_field_unambiguous(
        a1.name,
        a2.name,
        spec_str_field(a1.email) + x,
        spec_str_field(a2.email) + y,
    );
    lemma_str_field_unambiguous(a1.email, a2.email, x, y);
}

/// Whether a commit's fields fit their length prefixes.
pub open spec fn commit_lens_ok(c: CommitView) -> bool {
    &&& fits_u64(encode_utf8(c.tree).len())
    &&& fits_u64(c.parents.len())
    &&& str_list_lens_ok(c.parents)
    &&& author_lens_ok(c.author)
    &&& author_lens_ok(c.committer)
    &&& fits_u64(encode_utf8(c.comment).len())
}

/// The canonical commit encoding is injective: equal bytes mean equal
/// commits (tree, parent list and its order, both authors, comment).
#[verifier::rlimit(50)]
pub proof fn lemma_canon_commit_injective(c1: CommitView, c2: CommitView)
    requires
        commit_lens_ok(c1),
        commit_lens_ok(c2),
        spec_canon_commit(c1) == spec_canon_commit(c2),
    ensures
        c1 == c2,
{
    let t1 = spec_u64_to_le_bytes(c1.parents.len() as u64) + (spec_canon_str_list(c1.parents) + (
    spec_canon_author(c1.author) + (spec_canon_author(c1.committer) + spec_str_field(c1.comment))));
    let t2 = spec_u64_to_le_bytes(c2.parents.len() as u64) + (spec_canon_str_list(c2.parents) + (
    spec_canon_author(c2.author) + (spec_canon_author(c2.committer) + spec_str_field(c2.comment))));
    assert(spec_canon_commit(c1) =~= spec_str_field(c1.tree) + t1);
    assert(spec_canon_commit(c2) =~= spec_str_field(c2.tree) + t2);
    lemma_str_field_unambiguous(c1.tree, c2.tree, t1, t2);
    lemma_u64_prefix_unambiguous(
        c1.parents.len() as u64,
        c2.parents.len() as u64,
        spec_canon_str_list(c1.parents) + (spec_canon_author(c1.author) + (spec_canon_author(
            c1.committer,
        ) + spec_str_field(c1.comment))),
        spec_canon_str_list(c2.parents) + (spec_canon_author(c2.author) + (spec_canon_author(
            c2.committer,
        ) + spec_str_field(c2.comment))),
    );
    assert(c1.parents.len() == c2.parents.len());
    lemma_str_list_unambiguous(
        c1.parents,
        c2.parents,
        spec_canon_author(c1.author) + (spec_canon_author(c1.committer) + spec_str_field(
            c1.comment,
        )),
        spec_canon_author(c2.author) + (spec_canon_author(c2.committer) + spec_str_field(
            c2.comment,
        )),
    );
    lemma_author_unambiguous(
        c1.author,
        c2.author,
        spec_canon_author(c1.committer) + spec_str_field(c1.comment),
        spec_canon_author(c2.committer) + spec_str_field(c2.comment),
    );
    lemma_author_unambiguous(
        c1.committer,
        c2.committer,
        spec_str_field(c1.comment),
        spec_str_field(c2.comment),
    );
    assert(spec_str_field(c1.comment) + Seq::<u8>::empty() =~= spec_str_field(c1.comment));
    assert(spec_str_field(c2.comment) + Seq::<u8>::empty() =~= spec_str_field(c2.comment));
    lemma_str_field_unambiguous(c1.comment, c2.comment, Seq::empty(), Seq::empty());
}

/// Whether a tree item's fields fit their length prefixes.
pub open spec fn tree_item_lens_ok(it: TreeItemView) -> bool {
    fits_u64(encode_utf8(it.mode).len()) && fits_u64(encode_utf8(it.path).len()) && fits_u64(
        encode_utf8(it.hash).len(),
    )
}

/// Whether a tree's items all fit their length prefixes.
pub open spec fn tree_lens_ok(items: Seq<TreeItemView>) -> bool {
    fits_u64(items.len()) && forall|i: int|
        0 <= i < items.len() ==> tree_item_lens_ok(#[trigger] items[i])
}

/// An encoded tree item is unambiguous.
pub proof fn lemma_tree_item_unambiguous(i1: TreeItemView, i2: TreeItemView, x: Seq<u8>, y: Seq<u8>)
    requires
        tree_item_lens_ok(i1),
        tree_item_lens_ok(i2),
        spec_canon_tree_item(i1) + x == spec_canon_tree_item(i2) + y,
    ensures
        i1 == i2,
        x == y,
{
    assert(spec_canon_tree_item(i1) + x =~= spec_str_field(i1.mode) + (spec_str_field(i1.path) + (
    spec_str_field(i1.hash) + x)));
    assert(spec_canon_tree_item(i2) + y =~= spec_str_field(i2.mode) + (spec_str_field(i2.path) + (
    spec_str_field(i2.hash) + y)));
    lemma_str_field_unambiguous(
        i1.mode,
        i2.mode,
        spec_str_field(i1.path) + (spec_str_field(i1.hash) + x),
        spec_str_field(i2.path) + (spec_str_field(i2.hash) + y),
    );
    lemma_str_field_unambiguous(
        i1.path,
        i2.path,
        spec_str_field(i1.hash) + x,
        spec_str_field(i2.hash) + y,
    );
    lemma_str_field_unambiguous(i1.hash, i2.hash, x, y);
}

/// An encoded tree item list of known length is unambiguous.
pub proof fn lemma_item_list_unambiguous(
    items1: Seq<TreeItemView>,
    items2: Seq<TreeItemView>,
    x: Seq<u8>,
    y: Seq<u8>,
)
    requires
        items1.len() == items2.len(),
        forall|i: int| 0 <= i < items1.len() ==> tree_item_lens_ok(#[trigger] items1[i]),
        forall|i: int| 0 <= i < items2.len() ==> tree_item_lens_ok(#[trigger] items2[i]),
        spec_canon_item_list(items1) + x == spec_canon_item_list(items2) + y,
    ensures
        items1 == items2,
        x == y,
    decreases items1.len(),
{
    if items1.len() == 0 {
        assert(spec_canon_item_list(items1) + x =~= x);
        assert(spec_canon_item_list(items2) + y =~= y);
        assert(items1 =~= items2);
    } else {
        assert(spec_canon_item_list(items1) + x =~= spec_canon_tree_item(items1.first()) + (
        spec_canon_item_list(items1.drop_first()) + x));
        assert(spec_canon_item_list(items2) + y =~= spec_canon_tree_item(items2.first()) + (
        spec_canon_item_list(items2.drop_first()) + y));
        lemma_tree_item_unambiguous(
            items1.first(),
            items2.first(),
            spec_canon_item_list(items1.drop_first()) + x,
            spec_canon_item_list(items2.drop_first()) + y,
        );
        assert forall|i: int|
            0 <= i < items1.drop_first().len() implies tree_item_lens_ok(
            #[trigger] items1.drop_first()[i],
        ) by {
            assert(items1.drop_first()[i] == items1[i + 1]);
        }
        assert forall|i: int|
            0 <= i < items2.drop_first().len() implies tree_item_lens_ok(
            #[trigger] items2.drop_first()[i],
        ) by {
            assert(items2.drop_first()[i] == items2[i + 1]);
        }
        lemma_item_list_unambiguous(items1.drop_first(), items2.drop_first(), x, y);
        assert forall|i: int| 0 <= i < items1.len() implies items1[i] == items2[i] by {
            if i == 0 {
                assert(items1[0] == items1.first() && items2[0] == items2.first());
            } else {
                assert(items1.drop_first()[i - 1] == items1[i]);
                assert(items2.drop_first()[i - 1] == items2[i]);
            }
        }
        assert(items1 =~= items2);
    }
}

/// The canonical tree encoding is injective: equal bytes mean the same items
/// in the same order.
pub proof fn lemma_canon_tree_injective(items1: Seq<TreeItemView>, items2: Seq<TreeItemView>)
    requires
        tree_lens_ok(items1),
        tree_lens_ok(items2),
        spec_canon_tree(items1) == spec_canon_tree(items2),
    ensures
        items1 == items2,
{
    lemma_u64_prefix_unambiguous(
        items1.len() as u64,
        items2.len() as u64,
        spec_canon_item_list(items1),
        spec_canon_item_list(items2),
    );
    assert(spec_canon_item_list(items1) + Seq::<u8>::empty() =~= spec_canon_item_list(items1));
    assert(spec_canon_item_list(items2) + Seq::<u8>::empty() =~= spec_canon_item_list(items2));
    lemma_item_list_unambiguous(items1, items2, Seq::empty(), Seq::empty());
}

/// Appending one entry extends an encoded digest list at its end.
proof fn lemma_str_list_push(ps: Seq<Seq<char>>, e: Seq<char>)
    ensures
        spec_canon_str_list(ps.push(e)) == spec_canon_str_list(ps) + spec_str_field(e),
    decreases ps.len(),
{
    if ps.len() == 0 {
        let single = ps.push(e);
        assert(single.first() == e);
        assert(single.drop_first() =~= Seq::<Seq<char>>::empty());
        assert(spec_canon_str_list(single.drop_first()) == Seq::<u8>::empty());
        assert(spec_canon_str_list(single) == spec_str_field(e) + Seq::<u8>::empty());
        assert(spec_str_field(e) + Seq::<u8>::empty() =~= spec_str_field(e));
        assert(Seq::<u8>::empty() + spec_str_field(e) =~= spec_str_field(e));
    } else {
        assert(ps.push(e).first() == ps.first());
        assert(ps.push(e).drop_first() =~= ps.drop_first().push(e));
        lemma_str_list_push(ps.drop_first(), e);
        assert(spec_canon_str_list(ps.push(e)) =~= spec_canon_str_list(ps) + spec_str_field(e));
    }
}

/// Appending one item extends an encoded item list at its end.
proof fn lemma_item_list_push(items: Seq<TreeItemView>, e: TreeItemView)
    ensures
        spec_canon_item_list(items.push(e)) == spec_canon_item_list(items) + spec_canon_tree_item(
            e,
        ),
    decreases items.len(),
{
    if items.len() == 0 {
        let single = items.push(e);
        assert(single.first() == e);
        assert(single.drop_first() =~= Seq::<TreeItemView>::empty());
        assert(spec_canon_item_list(single.drop_first()) == Seq::<u8>::empty());
        assert(spec_canon_item_list(single) == spec_canon_tree_item(e) + Seq::<u8>::empty());
        assert(spec_canon_tree_item(e) + Seq::<u8>::empty() =~= spec_canon_tree_item(e));
        assert(Seq::<u8>::empty() + spec_canon_tree_item(e) =~= spec_canon_tree_item(e));
    } else {
        assert(items.push(e).first() == items.first());
        assert(items.push(e).drop_first() =~= items.drop_first().push(e));
        lemma_item_list_push(items.drop_first(), e);
        assert(spec_canon_item_list(items.push(e)) =~= spec_canon_item_list(items)
            + spec_canon_tree_item(e));
    }
}

impl Commit {
    /// This commit's canonical bytes: the form its digest is computed over.
    pub fn canonical_bytes(&self) -> (r: Vec<u8>)
        ensures
            r@ == spec_canon_commit(self@),
    {
        let mut out: Vec<u8> = Vec::new();
        push_str_field(&mut out, &self.tree);
        let mut prefix = u64_to_le_bytes(self.parents.len() as u64);
        out.append(&mut prefix);
        let ghost head = out@;
        let ghost dv = self.parents.deep_view();
        let n = self.parents.len();
        let mut i: usize = 0;
        proof {
            assert(dv.take(0) =~= Seq::<Seq<char>>::empty());
            assert(out@ =~= head + spec_canon_str_list(dv.take(0)));
        }
        while i < n
            invariant
                n == self.parents@.len(),
                dv == self.parents.deep_view(),
                0 <= i <= n,
                out@ == head + spec_canon_str_list(dv.take(i as int)),
            decreases n - i,
        {
            let ghost before = out@;
            push_str_field(&mut out, &self.parents[i]);
            proof {
                assert(dv.take(i + 1) =~= dv.take(i as int).push(dv[i as int]));
                lemma_str_list_push(dv.take(i as int), dv[i as int]);
                assert(self.parents@[i as int]@ == dv[i as int]);
                assert(out@ =~= head + spec_canon_str_list(dv.take(i + 1)));
            }
            i = i + 1;
        }
        proof {
            assert(dv.take(n as int) =~= dv);
        }
        push_str_field(&mut out, &self.author.name);
        push_str_field(&mut out, &self.author.email);
        push_str_field(&mut out, &self.committer.name);
        push_str_field(&mut out, &self.committer.email);
        push_str_field(&mut out, &self.comment);
        proof {
            assert(out@ =~= spec_canon_commit(self@));
        }
        out
    }
}

impl Tree {
    /// This tree's canonical bytes: the form its digest is computed over.
    pub fn canonical_bytes(&self) -> (r: Vec<u8>)
        ensures
            r@ == spec_canon_tree(self@),
    {
        let mut out: Vec<u8> = Vec::new();
        let mut prefix = u64_to_le_bytes(self.items.len() as u64);
        out.append(&mut prefix);
        let ghost head = out@;
        let ghost dv = self.items.deep_view();
        let n = self.items.len();
        let mut i: usize = 0;
        proof {
            assert(dv.take(0) =~= Seq::<TreeItemView>::empty());
            assert(out@ =~= head + spec_canon_item_list(dv.take(0)));
        }
        while i < n
            invariant
                n == self.items@.len(),
                dv == self.items.deep_view(),
                0 <= i <= n,
                out@ == head + spec_canon_item_list(dv.take(i as int)),
            decreases n - i,
        {
            let item = &self.items[i];
            push_str_field(&mut out, &item.mode);
            push_str_field(&mut out, &item.path);
            push_str_field(&mut out, &item.hash);
            proof {
                assert(dv.take(i + 1) =~= dv.take(i as int).push(dv[i as int]));
                lemma_item_list_push(dv.take(i as int), dv[i as int]);
                assert(self.items@[i as int]@ == dv[i as int]);
                assert(out@ =~= head + spec_canon_item_list(dv.take(i + 1)));
            }
            i = i + 1;
        }
        proof {
            assert(dv.take(n as int) =~= dv);
            assert(out@ =~= spec_canon_tree(self@));
        }
        out
    }
}

} // verus!
