//! An absolute filesystem path, modelled as its sequence of segments from the
//! root. The empty sequence is the filesystem root itself; `parent` drops the
//! last segment and is `None` exactly at the root, which is what makes the
//! upward repository search terminate.

use vstd::prelude::*;

verus! {

/// An absolute path: the segments below the filesystem root, in order.
#[derive(Debug)]
pub struct RPath {
    segs: Vec<String>,
}

impl View for RPath {
    type V = Seq<Seq<char>>;

    closed spec fn view(&self) -> Seq<Seq<char>> {
        self.segs.deep_view()
    }
}

impl DeepView for RPath {
    type V = Seq<Seq<char>>;

    open spec fn deep_view(&self) -> Seq<Seq<char>> {
        self.view()
    }
}

impl RPath {
    /// The filesystem root.
    pub fn root() -> (r: RPath)
        ensures
            r@ == Seq::<Seq<char>>::empty(),
    {
        let r = RPath { segs: Vec::new() };
        proof {
            assert(r@ =~= Seq::<Seq<char>>::empty());
        }
        r
    }

    /// Builds a path directly from its segments.
    pub fn from_segments(segs: Vec<String>) -> (r: RPath)
        ensures
            r@ == segs.deep_view(),
    {
        RPath { segs }
    }

    /// How many segments below the root this path is.
    pub fn depth(&self) -> (n: usize)
        ensures
            n == self@.len(),
    {
        self.segs.len()
    }

    /// The segment at position `i`.
    pub fn seg_at(&self, i: usize) -> (r: &String)
        requires
            i < self@.len(),
        ensures
            r@ == self@[i as int],
    {
        &self.segs[i]
    }

    /// An equal-valued copy.
    pub fn duplicate(&self) -> (r: RPath)
        ensures
            r@ == self@,
    {
        broadcast use vstd::std_specs::vec::vec_clone_deep_view_proof;

        RPath { segs: self.segs.clone() }
    }

    /// This path extended downward by one segment.
    pub fn join(&self, seg: &str) -> (r: RPath)
        ensures
            r@ == self@.push(seg@),
    {
        broadcast use vstd::std_specs::vec::vec_clone_deep_view_proof;

        let mut segs = self.segs.clone();
        segs.push(seg.to_owned());
        let r = RPath { segs };
        proof {
            assert(r@ =~= self@.push(seg@));
        }
        r
    }

    /// The containing directory: one segment shorter, and `None` exactly at
    /// the filesystem root.
    pub fn parent(&self) -> (r: Option<RPath>)
        ensures
            match r {
                Some(p) => self@.len() > 0 && p@ == self@.drop_last(),
                None => self@.len() == 0,
            },
    {
        if self.segs.len() == 0 {
            None
        } else {
            let p = self.prefix(self.segs.len() - 1);
            proof {
                assert(self@.take(self@.len() - 1) =~= self@.drop_last());
            }
            Some(p)
        }
    }

    /// The path made of this one's first `k` segments.
    pub fn prefix(&self, k: usize) -> (r: RPath)
        requires
            k <= self@.len(),
        ensures
            r@ == self@.take(k as int),
    {
        let mut segs: Vec<String> = Vec::new();
        let mut i: usize = 0;
        proof {
            assert(segs.deep_view() =~= self@.take(0));
        }
        while i < k
            invariant
                0 <= i <= k <= self.segs@.len(),
                self@.len() == self.segs@.len(),
                segs.deep_view() == self@.take(i as int),
            decreases k - i,
        {
            let ghost before = segs.deep_view();
            segs.push(self.segs[i].clone());
            proof {
                assert(segs.deep_view() =~= before.push(self@[i as int]));
                assert(before.push(self@[i as int]) =~= self@.take(i + 1));
            }
            i = i + 1;
        }
        let r = RPath { segs };
        proof {
            assert(r@ =~= self@.take(k as int));
        }
        r
    }
}

} // verus!
