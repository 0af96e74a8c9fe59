//! A scanner that hands out the headers of the chain one at a time, from
//! height 0 up to a given height, and fetches them from storage chunk by chunk.

use crate::blocks::BlockHeader;
use crate::error::ChainStorageError;
use crate::storage::BlockchainBackend;
use vstd::prelude::*;

verus! {

/// The state of a scanner.
///
/// The scanner is active as long as it has neither failed nor run out; it
/// has failed once the storage failed, and has run out once it found no
/// more heights to ask for or the storage answered with no header at all.
pub struct HeaderIterView {
    /// The headers that were fetched and not yet handed out.
    pub buffered: Seq<BlockHeader>,
    /// The most heights that one fetch asks for beyond the first.
    pub chunk_size: usize,
    /// The height at which the next fetch begins.
    pub cursor: u64,
    /// Whether the storage has failed.
    pub failed: bool,
    /// Whether the scanner has run out of headers.
    pub exhausted: bool,
    /// The last height to scan.
    pub max_height: u64,
}

/// What a pull yields: nothing, a header, or the storage's failure.
pub type Pulled = Option<Result<BlockHeader, ChainStorageError>>;

/// The last height of the next chunk.
pub open spec fn chunk_upper_bound(state: HeaderIterView) -> u64 {
    if state.cursor + state.chunk_size <= state.max_height {
        (state.cursor + state.chunk_size) as u64
    } else {
        state.max_height
    }
}

/// The heights that the next fetch asks for: from the cursor up to and
/// including the cursor plus the chunk size, or the last height if that comes
/// first; none once the cursor has passed the last height or the scanner has
/// run out.
pub open spec fn next_chunk_heights(state: HeaderIterView) -> Seq<u64> {
    if state.exhausted || state.cursor > state.max_height {
        Seq::empty()
    } else {
        Seq::new((chunk_upper_bound(state) - state.cursor + 1) as nat, |i: int| (state.cursor + i) as u64)
    }
}

/// The state and the yield that follow from the storage's answer to a fetch.
///
/// A failure is yielded once and ends the scan. Of the headers of an answer
/// the first is yielded and the others are buffered, and the cursor moves on
/// by their number, however many were asked for. An answer without headers
/// ends the scan, and so does one that takes the cursor beyond all heights.
pub open spec fn after_answer(state: HeaderIterView, answer: Result<Vec<BlockHeader>, ChainStorageError>) -> (
    HeaderIterView,
    Pulled,
) {
    match answer {
        Err(e) => (HeaderIterView { failed: true, ..state }, Some(Err(e))),
        Ok(headers) => {
            let moved = HeaderIterView {
                cursor: if state.cursor + headers@.len() <= u64::MAX {
                    (state.cursor + headers@.len()) as u64
                } else {
                    u64::MAX
                },
                exhausted: state.exhausted || headers@.len() == 0 || state.cursor + headers@.len() > u64::MAX,
                ..state
            };
            if headers@.len() == 0 {
                (moved, None)
            } else {
                (HeaderIterView { buffered: headers@.drop_first(), ..moved }, Some(Ok(headers@[0])))
            }
        },
    }
}

/// Whether a pull can take the scanner from `before` to `after` and yield `r`.
///
/// A failed scanner yields nothing more. A buffered header is yielded
/// without a fetch. With an empty buffer the next chunk is fetched, unless
/// it is empty: then the scanner has run out. What follows a fetch depends
/// on the storage's answer.
pub open spec fn pull_outcome(before: HeaderIterView, after: HeaderIterView, r: Pulled) -> bool {
    if before.failed {
        r is None && after == before
    } else if before.buffered.len() > 0 {
        r == Some(Ok::<BlockHeader, ChainStorageError>(before.buffered[0])) && after == (HeaderIterView {
            buffered: before.buffered.drop_first(),
            ..before
        })
    } else if next_chunk_heights(before).len() == 0 {
        r is None && after == (HeaderIterView { exhausted: true, ..before })
    } else {
        exists|answer: Result<Vec<BlockHeader>, ChainStorageError>|
            (after, r) == #[trigger] after_answer(before, answer)
    }
}

/// An upper bound on the fetches that a scanner in this state still makes.
pub open spec fn fetches_left(state: HeaderIterView) -> nat {
    if state.failed || state.exhausted || state.cursor > state.max_height {
        0
    } else {
        (state.max_height - state.cursor + 1) as nat
    }
}

/// Every pull that yields something brings the scanner closer to its end:
/// it either uses up a buffered header, or makes one of the fetches left.
pub proof fn lemma_pull_progress(before: HeaderIterView, after: HeaderIterView, r: Pulled)
    requires
        pull_outcome(before, after, r),
        r is Some,
    ensures
        fetches_left(after) < fetches_left(before) || (fetches_left(after) == fetches_left(before)
            && after.buffered.len() < before.buffered.len()),
{
    if before.buffered.len() == 0 {
        let answer = choose|answer: Result<Vec<BlockHeader>, ChainStorageError>|
            (after, r) == #[trigger] after_answer(before, answer);
        assert((after, r) == after_answer(before, answer));
    }
}

/// Hands out the headers from height 0 up to and including `max_height`,
/// one at a time, and holds one chunk of them in memory.
pub struct HeaderIter<'a, B> {
    chunk: Vec<BlockHeader>,
    chunk_size: usize,
    cursor: u64,
    is_error: bool,
    is_done: bool,
    max_height: u64,
    db: &'a B,
}

impl<'a, B> View for HeaderIter<'a, B> {
    type V = HeaderIterView;

    closed spec fn view(&self) -> HeaderIterView {
        HeaderIterView {
            buffered: self.chunk@,
            chunk_size: self.chunk_size,
            cursor: self.cursor,
            failed: self.is_error,
            exhausted: self.is_done,
            max_height: self.max_height,
        }
    }
}

impl<'a, B: BlockchainBackend> HeaderIter<'a, B> {
    /// The storage that the scanner fetches from.
    pub closed spec fn db(&self) -> &B {
        self.db
    }

    /// A scanner at height 0 that has fetched nothing yet.
    pub fn new(db: &'a B, max_height: u64, chunk_size: usize) -> (iter: Self)
        ensures
            iter.db() == db,
            iter@ == (HeaderIterView {
                buffered: Seq::empty(),
                chunk_size,
                cursor: 0,
                failed: false,
                exhausted: false,
                max_height,
            }),
    {
        Self { db, chunk_size, cursor: 0, is_error: false, is_done: false, max_height, chunk: Vec::new() }
    }

    /// The heights that the next fetch asks for.
    pub fn next_chunk(&self) -> (heights: Vec<u64>)
        ensures
            heights@ == next_chunk_heights(self@),
    {
        let mut heights: Vec<u64> = Vec::new();
        if self.is_done || self.cursor > self.max_height {
            return heights;
        }
        let reach = self.cursor.saturating_add(self.chunk_size as u64);
        let upper_bound = if reach < self.max_height {
            reach
        } else {
            self.max_height
        };
        assert(upper_bound == chunk_upper_bound(self@));
        let mut h = self.cursor;
        heights.push(h);
        while h < upper_bound
            invariant
                self.cursor <= h <= upper_bound,
                heights@.len() == h - self.cursor + 1,
                forall|i: int| 0 <= i < heights@.len() ==> heights@[i] == self.cursor + i,
            decreases upper_bound - h,
        {
            h += 1;
            heights.push(h);
        }
        assert(heights@ =~= next_chunk_heights(self@));
        heights
    }

    /// Takes in the storage's answer to the fetch of the next chunk, and
    /// yields what the pull that made the fetch yields.
    pub fn absorb(&mut self, answer: Result<Vec<BlockHeader>, ChainStorageError>) -> (r: Pulled)
        ensures
            final(self).db() == old(self).db(),
            (final(self)@, r) == after_answer(old(self)@, answer),
    {
        match answer {
            Ok(headers) => {
                let ghost fetched = headers@;
                let mut headers = headers;
                match self.cursor.checked_add(headers.len() as u64) {
                    Some(cursor) => {
                        self.cursor = cursor;
                    },
                    None => {
                        self.cursor = u64::MAX;
                        self.is_done = true;
                    },
                }
                if headers.len() == 0 {
                    self.is_done = true;
                    return None;
                }
                let first = headers.remove(0);
                self.chunk = headers;
                assert(self.chunk@ =~= fetched.drop_first());
                Some(Ok(first))
            },
            Err(err) => {
                self.is_error = true;
                Some(Err(err))
            },
        }
    }

    /// Yields the next header, or the storage's failure, or nothing once the
    /// scan has ended.
    pub fn next(&mut self) -> (r: Pulled)
        ensures
            final(self).db() == old(self).db(),
            pull_outcome(old(self)@, final(self)@, r),
    {
        if self.is_error {
            return None;
        }
        if self.chunk.len() > 0 {
            let ghost before = self.chunk@;
            let first = self.chunk.remove(0);
            assert(self.chunk@ =~= before.drop_first());
            return Some(Ok(first));
        }
        let block_nums = self.next_chunk();
        if block_nums.len() == 0 {
            self.is_done = true;
            return None;
        }
        let answer = self.db.fetch_headers(block_nums);
        self.absorb(answer)
    }
}

} // verus!
