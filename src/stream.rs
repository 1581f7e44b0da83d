//! Layout of the transfer stream: where a stream offset falls among the manifest frame and the
//! files, how the stream is cut into chunks, and the folder writer that splits an incoming
//! stream back into files.
use vstd::prelude::*;
use crate::protocol::{sum_sizes, lemma_sum_sizes_nonneg};

verus! {

/// Stream offset at which file `k` starts, after `head_len` bytes of head data.
pub open spec fn file_start(head_len: int, sizes: Seq<u64>, k: int) -> int {
    head_len + sum_sizes(sizes.take(k))
}

/// Where a stream offset falls.
#[derive(Clone, Copy, Debug, PartialEq, Eq, Structural)]
pub enum Location {
    /// In the head data, at this position.
    Head(u64),
    /// In file `index`, at byte `offset` of it.
    File { index: usize, offset: u64 },
    /// At or past the end of the stream.
    End,
}

pub proof fn lemma_sum_take_step(s: Seq<u64>, k: int)
    requires
        0 <= k < s.len(),
    ensures
        sum_sizes(s.take(k + 1)) == sum_sizes(s.take(k)) + s[k],
{
    assert(s.take(k + 1).drop_last() =~= s.take(k));
}

pub proof fn lemma_sum_take_monotone(s: Seq<u64>, a: int, b: int)
    requires
        0 <= a <= b <= s.len(),
    ensures
        sum_sizes(s.take(a)) <= sum_sizes(s.take(b)),
    decreases b - a,
{
    if a < b {
        lemma_sum_take_monotone(s, a, b - 1);
        lemma_sum_take_step(s, b - 1);
    }
}

/// A head of bytes followed by files of known sizes, read as one stream.
pub struct StreamLayout {
    head_len: u64,
    sizes: Vec<u64>,
    total: u64,
}

impl StreamLayout {
    pub closed spec fn spec_head_len(&self) -> int {
        self.head_len as int
    }

    pub closed spec fn spec_sizes(&self) -> Seq<u64> {
        self.sizes@
    }

    pub closed spec fn wf(&self) -> bool {
        self.total == self.head_len + sum_sizes(self.sizes@)
    }

    /// Length of the whole stream.
    pub open spec fn spec_total(&self) -> int {
        self.spec_head_len() + sum_sizes(self.spec_sizes())
    }

    /// The layout of `head_len` bytes followed by files of `sizes`; `None` when the stream
    /// length does not fit in a `u64`.
    pub fn new(head_len: u64, sizes: Vec<u64>) -> (r: Option<StreamLayout>)
        ensures
            r is Some <==> head_len + sum_sizes(sizes@) <= u64::MAX,
            r matches Some(l) ==> l.wf() && l.spec_head_len() == head_len && l.spec_sizes()
                == sizes@,
    {
        proof {
            lemma_sum_sizes_nonneg(sizes@);
        }
        match crate::protocol::total_of(sizes.as_slice()) {
            None => None,
            Some(t) => if t > u64::MAX - head_len {
                None
            } else {
                Some(StreamLayout { head_len, sizes, total: head_len + t })
            },
        }
    }

    /// Length of the whole stream.
    pub fn total_size(&self) -> (r: u64)
        requires
            self.wf(),
        ensures
            r == self.spec_total(),
    {
        self.total
    }

    /// Where stream offset `offset` falls. Files of size zero hold no offset.
    pub fn locate(&self, offset: u64) -> (r: Location)
        requires
            self.wf(),
        ensures
            offset < self.spec_head_len() ==> r == Location::Head(offset),
            offset >= self.spec_total() ==> r is End,
            self.spec_head_len() <= offset < self.spec_total() ==> (r matches Location::File {
                index,
                offset: rel,
            } && index < self.spec_sizes().len() && file_start(
                self.spec_head_len(),
                self.spec_sizes(),
                index as int,
            ) <= offset < file_start(self.spec_head_len(), self.spec_sizes(), index + 1) && rel
                == offset - file_start(self.spec_head_len(), self.spec_sizes(), index as int)),
    {
        proof {
            lemma_sum_sizes_nonneg(self.sizes@);
        }
        if offset < self.head_len {
            return Location::Head(offset);
        }
        if offset >= self.total {
            return Location::End;
        }
        let mut rel: u64 = offset - self.head_len;
        let mut k: usize = 0;
        while k < self.sizes.len()
            invariant
                self.wf(),
                k <= self.sizes@.len(),
                self.head_len <= offset < self.total,
                rel == offset - file_start(self.head_len as int, self.sizes@, k as int),
            decreases self.sizes@.len() - k,
        {
            proof {
                lemma_sum_take_step(self.sizes@, k as int);
            }
            if rel < self.sizes[k] {
                return Location::File { index: k, offset: rel };
            }
            rel = rel - self.sizes[k];
            k += 1;
        }
        proof {
            assert(self.sizes@.take(k as int) =~= self.sizes@);
        }
        Location::End
    }

    /// Bytes left in the segment (head or file) that holds `offset`; 0 at the end.
    pub fn remaining_in_segment(&self, offset: u64) -> (r: u64)
        requires
            self.wf(),
        ensures
            offset < self.spec_head_len() ==> r == self.spec_head_len() - offset,
            offset >= self.spec_total() ==> r == 0,
            self.spec_head_len() <= offset < self.spec_total() ==> exists|k: int|
                0 <= k < self.spec_sizes().len() && #[trigger] file_start(self.spec_head_len(), self.spec_sizes(), k)
                    <= offset < file_start(self.spec_head_len(), self.spec_sizes(), k + 1) && r
                    == file_start(self.spec_head_len(), self.spec_sizes(), k + 1) - offset,
    {
        match self.locate(offset) {
            Location::Head(p) => self.head_len - p,
            Location::End => 0,
            Location::File { index, offset: rel } => {
                proof {
                    lemma_sum_take_step(self.sizes@, index as int);
                }
                self.sizes[index] - rel
            },
        }
    }

    /// Checks a seek target: the new offset, or `None` beyond the end of the stream.
    pub fn seek(&self, offset: u64) -> (r: Option<u64>)
        requires
            self.wf(),
        ensures
            r is Some <==> offset <= self.spec_total(),
            r matches Some(o) ==> o == offset,
    {
        if offset > self.total {
            None
        } else {
            Some(offset)
        }
    }
}

/// Number of chunks of `chunk` bytes that a stream of `total` bytes is cut into.
pub open spec fn chunk_count(total: int, chunk: int) -> int {
    (total + chunk - 1) / chunk
}

/// Length of chunk `i` when every chunk is filled: `chunk` bytes, the last one possibly fewer.
pub open spec fn chunk_len(total: int, chunk: int, i: int) -> int {
    if (i + 1) * chunk <= total {
        chunk
    } else if i * chunk < total {
        total - i * chunk
    } else {
        0
    }
}

/// Length of chunk `index` of a stream of `total` bytes.
pub fn chunk_length(total: u64, chunk: u64, index: u64) -> (r: u64)
    requires
        chunk > 0,
    ensures
        r == chunk_len(total as int, chunk as int, index as int),
{
    if index > total / chunk {
        proof {
            assert(index * chunk > total) by (nonlinear_arith)
                requires
                    chunk > 0,
                    index > total / chunk,
            ;
            assert((index + 1) * chunk > total) by (nonlinear_arith)
                requires
                    chunk > 0,
                    index * chunk > total,
            ;
        }
        return 0;
    }
    proof {
        assert(index * chunk <= total) by (nonlinear_arith)
            requires
                chunk > 0,
                index <= total / chunk,
        ;
    }
    let start = index * chunk;
    let rest = total - start;
    proof {
        assert((index + 1) * chunk == index * chunk + chunk) by (nonlinear_arith);
    }
    if rest >= chunk {
        chunk
    } else {
        rest
    }
}

/// A stream whose length is a whole number of chunks is cut into exactly that many full chunks,
/// with no short last chunk.
pub proof fn lemma_whole_chunks(n: int, chunk: int)
    requires
        n >= 0,
        chunk > 0,
    ensures
        chunk_count(n * chunk, chunk) == n,
        forall|i: int| 0 <= i < n ==> #[trigger] chunk_len(n * chunk, chunk, i) == chunk,
        chunk_len(n * chunk, chunk, n) == 0,
{
    assert((n * chunk + chunk - 1) / chunk == n) by (nonlinear_arith)
        requires
            n >= 0,
            chunk > 0,
    ;
    assert forall|i: int| 0 <= i < n implies #[trigger] chunk_len(n * chunk, chunk, i) == chunk by {
        assert((i + 1) * chunk <= n * chunk) by (nonlinear_arith)
            requires
                0 <= i < n,
                chunk > 0,
        ;
    }
    assert((n + 1) * chunk == n * chunk + chunk) by (nonlinear_arith);
}

} // verus!
