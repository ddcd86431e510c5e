//! Fixed-capacity, most-recent-first sample ring buffer.

use crate::filter::SAMPLE_LIMIT;
use vstd::prelude::*;

verus! {

/// A fixed-capacity, most-recent-first buffer of interleaved samples.
///
/// New samples are pushed at the front one by one, so a batch lands in
/// reversed order ahead of the previous contents; after each batch the
/// buffer is truncated back to its capacity, silently dropping the oldest
/// samples.  The buffer always holds exactly its capacity in samples and
/// starts zero-filled.
pub struct SampleRingBuffer {
    data: Vec<i64>,
}

impl View for SampleRingBuffer {
    type V = Seq<i64>;

    closed spec fn view(&self) -> Seq<i64> {
        self.data@
    }
}

impl SampleRingBuffer {
    /// Every held sample is inside the filter's accepted range.
    pub open spec fn wf(&self) -> bool {
        forall|i: int| 0 <= i < self@.len() ==> -SAMPLE_LIMIT <= #[trigger] self@[i] <= SAMPLE_LIMIT
    }

    /// The fixed capacity; the buffer's length never differs from it.
    pub open spec fn capacity(&self) -> int {
        self@.len() as int
    }

    /// A zero-filled buffer of the given capacity.
    pub fn new(capacity: usize) -> (r: Self)
        ensures
            r.capacity() == capacity,
            forall|i: int| 0 <= i < capacity ==> #[trigger] r@[i] == 0,
            r.wf(),
    {
        let mut data: Vec<i64> = Vec::new();
        let mut i: usize = 0;
        while i < capacity
            invariant
                0 <= i <= capacity,
                data@.len() == i,
                forall|j: int| 0 <= j < i ==> #[trigger] data@[j] == 0,
            decreases capacity - i,
        {
            data.push(0);
            i = i + 1;
        }
        SampleRingBuffer { data }
    }

    /// Read access to the buffered samples, most recent first.
    pub fn contents(&self) -> (r: &Vec<i64>)
        ensures
            r@ == self@,
    {
        &self.data
    }

    /// Push a batch of newly captured samples at the front, then truncate
    /// back to the capacity: the batch sits reversed ahead of what survives
    /// of the old contents.
    pub fn push_samples(&mut self, batch: &Vec<i64>)
        requires
            old(self).wf(),
            forall|i: int|
                0 <= i < batch@.len() ==> -SAMPLE_LIMIT <= #[trigger] batch@[i] <= SAMPLE_LIMIT,
        ensures
            final(self).capacity() == old(self).capacity(),
            final(self).wf(),
            forall|i: int|
                0 <= i < final(self)@.len() ==> #[trigger] final(self)@[i] == if i < batch@.len() {
                    batch@[batch@.len() - 1 - i]
                } else {
                    old(self)@[i - batch@.len()]
                },
    {
        let cap = self.data.len();
        let blen = batch.len();
        let mut next: Vec<i64> = Vec::new();
        let mut i: usize = 0;
        while i < cap
            invariant
                0 <= i <= cap,
                cap == self@.len(),
                blen == batch@.len(),
                self.wf(),
                forall|j: int|
                    0 <= j < batch@.len() ==> -SAMPLE_LIMIT <= #[trigger] batch@[j] <= SAMPLE_LIMIT,
                next@.len() == i,
                forall|j: int|
                    0 <= j < i ==> #[trigger] next@[j] == if j < batch@.len() {
                        batch@[batch@.len() - 1 - j]
                    } else {
                        self@[j - batch@.len()]
                    },
            decreases cap - i,
        {
            if i < blen {
                next.push(batch[blen - 1 - i]);
            } else {
                next.push(self.data[i - blen]);
            }
            i = i + 1;
        }
        self.data = next;
    }
}

/// The ring buffer capacity for an audio format: the samples per channel
/// that fit in the buffered duration, times the channel count.
pub fn buffer_capacity(sample_rate: u32, channels: u32, buffer_ms: u32) -> (r: usize)
    requires
        sample_rate <= 1_000_000,
        channels <= 1024,
        buffer_ms <= 1000,
    ensures
        r == ((sample_rate as int) * (buffer_ms as int) / 1000) * (channels as int),
{
    proof {
        assert((sample_rate as int) * (buffer_ms as int) <= 1_000_000_000int) by (nonlinear_arith)
            requires
                0 <= sample_rate as int <= 1_000_000,
                0 <= buffer_ms as int <= 1000,
        ;
        vstd::arithmetic::div_mod::lemma_div_pos_is_pos(
            (sample_rate as int) * (buffer_ms as int),
            1000,
        );
        vstd::arithmetic::div_mod::lemma_div_is_ordered(
            (sample_rate as int) * (buffer_ms as int),
            1_000_000_000int,
            1000,
        );
        assert(1_000_000_000int / 1000 == 1_000_000int);
        assert(0 <= ((sample_rate as int) * (buffer_ms as int) / 1000) * (channels as int)
            <= 1_024_000_000int) by (nonlinear_arith)
            requires
                0 <= (sample_rate as int) * (buffer_ms as int) / 1000 <= 1_000_000int,
                0 <= channels as int <= 1024,
        ;
    }
    let per_channel: u64 = (sample_rate as u64) * (buffer_ms as u64) / 1000;
    let total: u64 = per_channel * (channels as u64);
    total as usize
}

} // verus!
