//! The receiver side of a transfer: where a reception resumes, what is answered for each chunk,
//! the final verdict, and the states of the receiving server.
use vstd::prelude::*;
use crate::discovery::SocketAddress;
use crate::protocol::{ChunkHeader, TransferType, ack_bytes, chunk_status, encode_ack, verify_chunk, ACK_OK};
use crate::checksum::{hex_of, lemma_hex_injective, md5_of};

verus! {

/// Lowest port the receiver tries to listen on.
pub const FIRST_PORT: u16 = 42424;

/// Highest port the receiver tries to listen on.
pub const LAST_PORT: u16 = 42434;

/// A transfer offered by a sender, awaiting the user's decision.
#[derive(Clone, Debug)]
pub struct IncomingTransfer {
    pub sender_name: String,
    pub sender_addr: SocketAddress,
    pub file_name: String,
    pub file_size: u64,
    pub chunk_size: u32,
    pub file_checksum: String,
    pub transfer_type: TransferType,
}

/// How the output file is opened.
#[derive(Clone, Copy, Debug, PartialEq, Eq, Structural)]
pub enum WriteMode {
    /// Create it, or truncate it to nothing.
    Create,
    /// Keep its first `keep_len` bytes and append after them.
    Resume,
}

/// Where a reception starts.
#[derive(Clone, Copy, Debug, PartialEq, Eq, Structural)]
pub struct ResumePlan {
    /// First chunk the sender must send.
    pub resume_index: u64,
    /// Bytes of the existing file kept (the file is truncated to this length).
    pub keep_len: u64,
    pub mode: WriteMode,
}

/// Whether a reception resumes an existing file: only a single file that is non-empty and
/// shorter than the offered size, with a non-zero chunk size.
pub open spec fn resumable(transfer_type: TransferType, existing_len: Option<u64>, file_size: u64, chunk_size: u32) -> bool {
    match (transfer_type, existing_len) {
        (TransferType::SingleFile, Some(len)) => 0 < len < file_size && chunk_size > 0,
        _ => false,
    }
}

/// Decides where a reception starts. `existing_len` is the length of a file already at the
/// save path, if any; a resumed file restarts from its last whole chunk.
pub fn plan_resume(transfer_type: TransferType, existing_len: Option<u64>, file_size: u64, chunk_size: u32) -> (r: ResumePlan)
    ensures
        resumable(transfer_type, existing_len, file_size, chunk_size) ==> r.mode == WriteMode::Resume
            && r.resume_index == existing_len.unwrap() as int / chunk_size as int
            && r.keep_len == r.resume_index * chunk_size,
        !resumable(transfer_type, existing_len, file_size, chunk_size) ==> r.mode == WriteMode::Create
            && r.resume_index == 0 && r.keep_len == 0,
        r.mode == WriteMode::Resume ==> r.keep_len <= existing_len.unwrap(),
{
    match (transfer_type, existing_len) {
        (TransferType::SingleFile, Some(len)) => {
            if 0 < len && len < file_size && chunk_size > 0 {
                let c = chunk_size as u64;
                let index = len / c;
                proof {
                    assert(index * c <= len) by (nonlinear_arith)
                        requires
                            c > 0,
                            index == len / c,
                    ;
                }
                ResumePlan { resume_index: index, keep_len: index * c, mode: WriteMode::Resume }
            } else {
                ResumePlan { resume_index: 0, keep_len: 0, mode: WriteMode::Create }
            }
        },
        _ => ResumePlan { resume_index: 0, keep_len: 0, mode: WriteMode::Create },
    }
}

/// A resumed reception keeps at most the bytes already there, and exactly the whole chunks
/// below the resume index.
pub proof fn lemma_resume_within_existing(len: u64, chunk_size: u32)
    requires
        chunk_size > 0,
    ensures
        (len as int / chunk_size as int) * chunk_size <= len,
        len - (len as int / chunk_size as int) * chunk_size < chunk_size,
{
    let c = chunk_size as int;
    let n = len as int;
    assert((n / c) * c <= n && n - (n / c) * c < c) by (nonlinear_arith)
        requires
            c > 0,
            n >= 0,
    ;
}

/// The answer to one received chunk.
pub struct ChunkVerdict {
    /// Acknowledgement to send back: the chunk index and its status.
    pub ack: Vec<u8>,
    /// Whether the data is written to the output.
    pub commit: bool,
}

/// Progress of the data phase of a reception.
pub struct ReceiveSession {
    file_size: u64,
    received: u64,
}

impl ReceiveSession {
    pub closed spec fn spec_received(&self) -> u64 {
        self.received
    }

    pub closed spec fn spec_file_size(&self) -> u64 {
        self.file_size
    }

    /// Starts after the bytes the plan keeps.
    pub fn new(plan: &ResumePlan, file_size: u64) -> (r: ReceiveSession)
        ensures
            r.spec_received() == plan.keep_len,
            r.spec_file_size() == file_size,
    {
        ReceiveSession { file_size, received: plan.keep_len }
    }

    /// Bytes committed so far.
    pub fn bytes_received(&self) -> (r: u64)
        ensures
            r == self.spec_received(),
    {
        self.received
    }

    /// Whether every offered byte has been received.
    pub fn is_complete(&self) -> (r: bool)
        ensures
            r == (self.spec_received() >= self.spec_file_size()),
    {
        self.received >= self.file_size
    }

    /// Checks a received chunk against the digest that came with it. A matching chunk is
    /// committed and counted; a mismatching one is refused, for the sender to send again.
    pub fn on_chunk(&mut self, header: ChunkHeader, data: &[u8], digest: &[u8]) -> (v: ChunkVerdict)
        ensures
            v.commit == (md5_of(data@) == digest@),
            v.ack@ == ack_bytes(header.index, chunk_status(data@, digest@)),
            final(self).spec_file_size() == old(self).spec_file_size(),
            v.commit ==> final(self).spec_received() == if old(self).spec_received() + data@.len() <= u64::MAX {
                old(self).spec_received() + data@.len()
            } else {
                u64::MAX as int
            },
            !v.commit ==> final(self).spec_received() == old(self).spec_received(),
    {
        let status = verify_chunk(data, digest);
        let commit = status == ACK_OK;
        if commit {
            let n = data.len() as u64;
            self.received = if self.received <= u64::MAX - n {
                self.received + n
            } else {
                u64::MAX
            };
        }
        ChunkVerdict { ack: encode_ack(header.index, status), commit }
    }
}

/// Final verdict byte: 1 when the checksum computed on arrival equals the offered one, else 0.
pub fn final_verdict(actual: &str, expected: &str) -> (r: u8)
    ensures
        r == if actual@ == expected@ { 1u8 } else { 0u8 },
{
    let a = actual.to_owned();
    let e = expected.to_owned();
    if a == e {
        1
    } else {
        0
    }
}

/// State of the receiving server.
#[derive(Clone, Copy, Debug, PartialEq, Eq, Structural)]
pub enum ReceiverState {
    Idle,
    Listening,
    AwaitingAccept,
    Receiving,
    Completed,
    Error,
}

/// The receiving server's state, running flag and pending offer.
pub struct ReceiverControl {
    state: ReceiverState,
    running: bool,
    pending: Option<IncomingTransfer>,
}

impl ReceiverControl {
    pub closed spec fn spec_state(&self) -> ReceiverState {
        self.state
    }

    pub closed spec fn spec_running(&self) -> bool {
        self.running
    }

    pub closed spec fn spec_has_pending(&self) -> bool {
        self.pending is Some
    }

    /// The offer awaiting a decision.
    pub closed spec fn spec_pending(&self) -> Option<IncomingTransfer> {
        self.pending
    }

    pub fn new() -> (r: ReceiverControl)
        ensures
            r.spec_state() == ReceiverState::Idle,
            !r.spec_running(),
            !r.spec_has_pending(),
    {
        ReceiverControl { state: ReceiverState::Idle, running: false, pending: None }
    }

    pub fn state(&self) -> (r: ReceiverState)
        ensures
            r == self.spec_state(),
    {
        self.state
    }

    pub fn is_running(&self) -> (r: bool)
        ensures
            r == self.spec_running(),
    {
        self.running
    }

    /// The offer awaiting a decision, if any.
    pub fn pending_transfer(&self) -> (r: Option<&IncomingTransfer>)
        ensures
            r is Some == self.spec_has_pending(),
            r matches Some(t) ==> self.spec_pending() == Some(*t),
    {
        match &self.pending {
            Some(t) => Some(t),
            None => None,
        }
    }

    /// Starts listening; returns whether a listener must be started (false if one runs).
    pub fn start(&mut self) -> (spawn: bool)
        ensures
            spawn == !old(self).spec_running(),
            final(self).spec_running(),
            spawn ==> final(self).spec_state() == ReceiverState::Listening,
            !spawn ==> final(self).spec_state() == old(self).spec_state(),
            final(self).spec_has_pending() == old(self).spec_has_pending(),
    {
        if self.running {
            return false;
        }
        self.running = true;
        self.state = ReceiverState::Listening;
        true
    }

    /// Stops listening and drops any pending offer. Stopping twice is the same as once.
    pub fn stop(&mut self)
        ensures
            !final(self).spec_running(),
            final(self).spec_state() == ReceiverState::Idle,
            !final(self).spec_has_pending(),
    {
        self.running = false;
        self.state = ReceiverState::Idle;
        self.pending = None;
    }

    /// A sender's offer arrived: it waits for the user's decision.
    pub fn on_offer(&mut self, transfer: IncomingTransfer)
        ensures
            final(self).spec_state() == ReceiverState::AwaitingAccept,
            final(self).spec_has_pending(),
            final(self).spec_pending() == Some(transfer),
            final(self).spec_running() == old(self).spec_running(),
    {
        self.pending = Some(transfer);
        self.state = ReceiverState::AwaitingAccept;
    }

    /// The user accepted: hands out the pending offer and starts receiving; `None` (and no
    /// change of state) when nothing is pending.
    pub fn accept(&mut self) -> (r: Option<IncomingTransfer>)
        ensures
            r == old(self).spec_pending(),
            r is Some == old(self).spec_has_pending(),
            !final(self).spec_has_pending(),
            r is Some ==> final(self).spec_state() == ReceiverState::Receiving,
            r is None ==> final(self).spec_state() == old(self).spec_state(),
            final(self).spec_running() == old(self).spec_running(),
    {
        let t = self.pending.take();
        if t.is_some() {
            self.state = ReceiverState::Receiving;
        }
        t
    }

    /// The reception ended: `Completed` when the final verdict was a success, else `Error`.
    /// The listener does not restart by itself.
    pub fn finish(&mut self, success: bool)
        ensures
            final(self).spec_state() == if success { ReceiverState::Completed } else { ReceiverState::Error },
            !final(self).spec_running(),
            final(self).spec_has_pending() == old(self).spec_has_pending(),
    {
        self.state = if success {
            ReceiverState::Completed
        } else {
            ReceiverState::Error
        };
        self.running = false;
    }

    /// The user rejected: drops the pending offer (returned, so the host can answer the
    /// sender), and listens again.
    pub fn reject(&mut self) -> (r: Option<IncomingTransfer>)
        ensures
            r == old(self).spec_pending(),
            r is Some == old(self).spec_has_pending(),
            !final(self).spec_has_pending(),
            final(self).spec_state() == ReceiverState::Listening,
            final(self).spec_running(),
    {
        let t = self.pending.take();
        self.state = ReceiverState::Listening;
        self.running = false;
        self.start();
        t
    }
}

/// A single-file reception whose final verdict is a success holds exactly the sender's bytes,
/// for contents whose MD5 digests differ whenever the contents do: the verdict is 1 only when
/// the checksum computed on arrival equals the one offered, which is the source's.
pub proof fn lemma_success_means_identical(source: Seq<u8>, received: Seq<u8>, verdict: u8)
    requires
        md5_of(source) == md5_of(received) ==> source == received,
        verdict == (if hex_of(md5_of(received)) == hex_of(md5_of(source)) { 1u8 } else { 0u8 }),
        verdict == 1,
    ensures
        received == source,
{
    lemma_hex_injective(md5_of(received), md5_of(source));
}

} // verus!
