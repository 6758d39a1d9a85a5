//! The backward chain walk that gathers a candidate's ancestry.
//!
//! The walk alternates between asking for a record by hash and deciding what
//! to do with it; the lookups themselves are done by the caller.

use vstd::prelude::*;
use crate::codec::ValidationError;
use crate::record::{same_bytes, LinkRecord};

verus! {

/// The answer to a lookup of a predecessor by hash.
#[derive(Debug, Clone, PartialEq, Eq)]
pub enum Fetched {
    /// The predecessor is a link record.
    Found(LinkRecord),
    /// The predecessor is unavailable or is not a link record.
    Unavailable,
}

/// The state of a backward walk from a candidate record.
pub struct ChainWalk {
    newest_first: Vec<LinkRecord>,
    done: bool,
}

impl ChainWalk {
    /// The records gathered so far, oldest first; the candidate is the last one.
    pub closed spec fn records(&self) -> Seq<LinkRecord> {
        Seq::new(
            self.newest_first@.len(),
            |i: int| self.newest_first@[self.newest_first@.len() - 1 - i],
        )
    }

    /// The walk has reached the record attached to the root.
    pub closed spec fn finished(&self) -> bool {
        self.done
    }

    /// The walk holds at least the candidate.
    pub closed spec fn well_formed(&self) -> bool {
        self.newest_first@.len() > 0
    }

    /// Starts a walk from the candidate record.
    pub fn start(candidate: LinkRecord) -> (r: ChainWalk)
        ensures
            r.well_formed(),
            r.records() == seq![candidate],
            !r.finished(),
    {
        let mut v: Vec<LinkRecord> = Vec::new();
        v.push(candidate);
        let r = ChainWalk { newest_first: v, done: false };
        assert(r.records() =~= seq![candidate]);
        r
    }

    /// Tells whether the walk is over.
    pub fn is_finished(&self) -> (r: bool)
        ensures
            r == self.finished(),
    {
        self.done
    }

    /// The hash to look up next: the predecessor of the oldest record gathered.
    pub fn next_hash(&self) -> (r: &Vec<u8>)
        requires
            self.well_formed(),
        ensures
            r@ == self.records()[0].prev_action@,
    {
        &self.newest_first[self.newest_first.len() - 1]
            .prev_action
    }

    /// Takes the answer to the lookup of `next_hash`. An unavailable predecessor
    /// is a lookup error; a predecessor based on the root marker ends the walk
    /// without being gathered; any other predecessor is gathered in front.
    pub fn receive(&mut self, fetched: Fetched, root: &Vec<u8>) -> (r: Result<(), ValidationError>)
        requires
            old(self).well_formed(),
            !old(self).finished(),
        ensures
            final(self).well_formed(),
            match fetched {
                Fetched::Unavailable => r == Err::<(), ValidationError>(ValidationError::Lookup)
                    && final(self).records() == old(self).records() && !final(self).finished(),
                Fetched::Found(p) => r is Ok && if p.base_address@ == root@ {
                    final(self).records() == old(self).records() && final(self).finished()
                } else {
                    final(self).records() == seq![p] + old(self).records() && !final(self).finished()
                },
            },
    {
        match fetched {
            Fetched::Unavailable => Err(ValidationError::Lookup),
            Fetched::Found(p) => {
                if same_bytes(&p.base_address, root) {
                    self.done = true;
                } else {
                    let ghost before = self.records();
                    self.newest_first.push(p);
                    assert(self.records() =~= seq![p] + before);
                }
                Ok(())
            },
        }
    }

    /// The records gathered, oldest first, ending with the candidate.
    pub fn into_ancestry(self) -> (r: Vec<LinkRecord>)
        ensures
            r@ == self.records(),
    {
        let ghost recs = self.records();
        let mut src = self.newest_first;
        let ghost n = src@.len();
        let mut out: Vec<LinkRecord> = Vec::new();
        while src.len() > 0
            invariant
                src@.len() <= n,
                recs.len() == n,
                out@.len() + src@.len() == n,
                forall|i: int| 0 <= i < src@.len() ==> src@[i] == recs[n - 1 - i],
                out@ == recs.take(out@.len() as int),
            decreases src@.len(),
        {
            let x = src.pop().unwrap();
            out.push(x);
            assert(out@ =~= recs.take(out@.len() as int));
        }
        assert(out@ =~= recs);
        out
    }
}

} // verus!
