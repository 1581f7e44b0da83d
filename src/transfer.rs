//! Chunk bookkeeping of a transfer: its metadata and progress snapshots.
use vstd::prelude::*;

verus! {

/// Default chunk size: 1 MiB.
pub const DEFAULT_CHUNK_SIZE: usize = 1048576;

#[derive(Clone, Copy, Debug, PartialEq, Eq, Structural)]
pub enum TransferState {
    Pending,
    Transferring,
    Paused,
    Completed,
    Failed,
    Cancelled,
}

/// Name, size and chunking of a file.
#[derive(Debug, Clone)]
pub struct FileMetadata {
    pub name: String,
    pub size: u64,
    pub chunk_size: usize,
    pub total_chunks: u64,
}

/// Number of chunks of `chunk` bytes needed for `size` bytes.
pub open spec fn chunks_for(size: int, chunk: int) -> int {
    (size + chunk - 1) / chunk
}

/// `size` divided by `chunk`, rounded up.
pub fn div_ceil(size: u64, chunk: u64) -> (r: u64)
    requires
        chunk > 0,
    ensures
        r == chunks_for(size as int, chunk as int),
{
    let q = size / chunk;
    proof {
        assert(size as int == q * chunk + size % chunk) by (nonlinear_arith)
            requires
                chunk > 0,
                q == size / chunk,
        ;
        assert(chunks_for(size as int, chunk as int) == if size % chunk == 0 { q as int } else { q + 1 }) by (nonlinear_arith)
            requires
                chunk > 0,
                size as int == q * chunk + size % chunk,
                0 <= size % chunk < chunk,
        ;
    }
    if size % chunk == 0 {
        q
    } else {
        assert(q < 0xffff_ffff_ffff_ffffu64) by (nonlinear_arith)
            requires
                chunk > 0,
                size % chunk != 0,
                size as int == q * chunk + size % chunk,
        ;
        q + 1
    }
}

impl FileMetadata {
    /// Metadata of a file of `size` bytes named `name`, cut into chunks of `chunk_size` bytes.
    pub fn new(name: String, size: u64, chunk_size: usize) -> (r: FileMetadata)
        requires
            chunk_size > 0,
        ensures
            r.name@ == name@,
            r.size == size,
            r.chunk_size == chunk_size,
            r.total_chunks == chunks_for(size as int, chunk_size as int),
    {
        let total_chunks = div_ceil(size, chunk_size as u64);
        FileMetadata { name, size, chunk_size, total_chunks }
    }
}

/// A progress snapshot.
#[derive(Debug, Clone, Copy)]
pub struct TransferProgress {
    pub bytes_transferred: u64,
    pub total_bytes: u64,
    pub chunks_completed: u64,
    pub total_chunks: u64,
    pub speed_bytes_per_sec: u64,
    pub state: TransferState,
}

/// State shown for a transfer: cancelled first, then completed once every byte is through.
pub open spec fn progress_state(cancelled: bool, bytes: u64, total: u64) -> TransferState {
    if cancelled {
        TransferState::Cancelled
    } else if bytes >= total {
        TransferState::Completed
    } else {
        TransferState::Transferring
    }
}

impl TransferProgress {
    /// A snapshot of `bytes` of `meta.size` bytes and `chunks` of `meta.total_chunks` chunks.
    pub fn snapshot(meta: &FileMetadata, bytes: u64, chunks: u64, cancelled: bool) -> (r: TransferProgress)
        ensures
            r.bytes_transferred == bytes,
            r.total_bytes == meta.size,
            r.chunks_completed == chunks,
            r.total_chunks == meta.total_chunks,
            r.speed_bytes_per_sec == 0,
            r.state == progress_state(cancelled, bytes, meta.size),
    {
        let state = if cancelled {
            TransferState::Cancelled
        } else if bytes >= meta.size {
            TransferState::Completed
        } else {
            TransferState::Transferring
        };
        TransferProgress {
            bytes_transferred: bytes,
            total_bytes: meta.size,
            chunks_completed: chunks,
            total_chunks: meta.total_chunks,
            speed_bytes_per_sec: 0,
            state,
        }
    }
}

} // verus!
