//! The sender side of a transfer: what is offered, and the decisions taken while sending.
//! The host performs the socket and file operations and reports each outcome here.
use vstd::prelude::*;
use vstd::string::StringExecFns;
use crate::checksum::{calculate_chunk_checksum, hex_of, md5_of};
use crate::stream::{chunk_len, chunk_length};
use crate::protocol::{
    HandshakeRequest, PROTOCOL_VERSION, TransferType, folder_stream_len, folder_transfer_size,
    frame_manifest, manifest_frame_bytes,
};

verus! {

/// Default chunk size: 1 MiB.
pub const DEFAULT_CHUNK_SIZE: usize = 1048576;

/// Attempts per chunk before the transfer fails.
pub const MAX_RETRIES: u32 = 3;

/// How a send attempt ended.
#[derive(Debug)]
pub enum TransferResult {
    Success,
    Rejected,
    ChecksumMismatch,
    ConnectionFailed(String),
    Timeout,
    Cancelled,
    IoError(String),
}

/// A failed read on the connection.
#[derive(Debug)]
pub enum ReadFailure {
    /// The read timed out (or would block).
    TimedOut,
    /// Any other failure, with its message.
    Other(String),
}

/// Outcome of the receiver's accept/reject byte.
pub open spec fn spec_decision_outcome(r: Result<u8, ReadFailure>) -> Option<TransferResult> {
    match r {
        Ok(b) => if b == 0 {
            Some(TransferResult::Rejected)
        } else {
            None
        },
        Err(ReadFailure::TimedOut) => Some(TransferResult::Timeout),
        Err(ReadFailure::Other(m)) => Some(TransferResult::IoError(m)),
    }
}

/// What the sender does with the receiver's decision: `None` to go on, or how the transfer ends.
pub fn decision_outcome(r: Result<u8, ReadFailure>) -> (out: Option<TransferResult>)
    ensures
        match (r, out) {
            (Ok(b), o) => if b == 0 { o matches Some(TransferResult::Rejected) } else { o is None },
            (Err(ReadFailure::TimedOut), o) => o matches Some(TransferResult::Timeout),
            (Err(ReadFailure::Other(m)), o) => o matches Some(TransferResult::IoError(n)) && n@
                == m@,
        },
{
    match r {
        Ok(b) => if b == 0 {
            Some(TransferResult::Rejected)
        } else {
            None
        },
        Err(ReadFailure::TimedOut) => Some(TransferResult::Timeout),
        Err(ReadFailure::Other(m)) => Some(TransferResult::IoError(m)),
    }
}

/// The chunk to start from: the resume index the receiver sent, or, when it could not be
/// read, the sender's own resume point.
pub fn start_chunk(resume_from: u64, requested: Option<u64>) -> (r: u64)
    ensures
        r == match requested {
            Some(i) => i,
            None => resume_from,
        },
{
    match requested {
        Some(i) => i,
        None => resume_from,
    }
}

/// How one send-and-acknowledge attempt of a chunk ended.
#[derive(Debug)]
pub enum AttemptOutcome {
    /// Writing the frame failed, with the message.
    SendFailed(String),
    /// The receiver acknowledged the chunk as correct.
    Acked,
    /// The receiver reported a mismatch, or acknowledged another index.
    Nacked,
    /// The acknowledgement could not be read.
    AckFailed,
}

/// What to do after an attempt.
#[derive(Debug)]
pub enum AttemptStep {
    /// Send the same chunk again.
    Retry,
    /// The chunk is delivered; go on with the next.
    Advance,
    /// Give up with this result.
    Fail(TransferResult),
}

/// Whether an acknowledgement confirms chunk `expected`.
pub fn ack_confirms(expected: u64, acked_index: u64, status: u8) -> (r: bool)
    ensures
        r == (acked_index == expected && status == 0),
{
    acked_index == expected && status == 0
}

/// Progress of the data phase of a send.
pub struct SendSession {
    chunk_size: u64,
    total_size: u64,
    chunk_index: u64,
    bytes_sent: u64,
    retries: u32,
}

impl SendSession {
    pub closed spec fn spec_chunk_index(&self) -> u64 {
        self.chunk_index
    }

    pub closed spec fn spec_bytes_sent(&self) -> u64 {
        self.bytes_sent
    }

    pub closed spec fn spec_retries(&self) -> u32 {
        self.retries
    }

    pub closed spec fn spec_chunk_size(&self) -> u64 {
        self.chunk_size
    }

    pub closed spec fn spec_total_size(&self) -> u64 {
        self.total_size
    }

    pub closed spec fn wf(&self) -> bool {
        &&& self.retries < MAX_RETRIES
        &&& self.chunk_size > 0
        &&& self.bytes_sent as int == if self.chunk_index * self.chunk_size <= self.total_size {
            self.chunk_index * self.chunk_size
        } else {
            self.total_size as int
        }
    }

    /// Starts the data phase at chunk `start`: the stream is read from `start * chunk_size`,
    /// which must lie within the stream.
    pub fn begin(start: u64, chunk_size: usize, total_size: u64) -> (r: Result<SendSession, TransferResult>)
        requires
            chunk_size > 0,
        ensures
            r is Ok <==> start as int * chunk_size as int <= total_size,
            r matches Ok(s) ==> s.wf() && s.spec_chunk_index() == start && s.spec_bytes_sent()
                == start as int * chunk_size as int && s.spec_retries() == 0
                && s.spec_chunk_size() == chunk_size && s.spec_total_size() == total_size,
            r matches Err(e) ==> e matches TransferResult::IoError(_),
    {
        let c = chunk_size as u64;
        if start > total_size / c {
            proof {
                assert(start as int * c as int > total_size) by (nonlinear_arith)
                    requires
                        c > 0,
                        start > total_size / c,
                ;
            }
            return Err(TransferResult::IoError(String::from_str("Failed to seek to resume position")));
        }
        proof {
            assert(start as int * c as int <= total_size) by (nonlinear_arith)
                requires
                    c > 0,
                    start <= total_size / c,
            ;
        }
        let offset = start * c;
        Ok(SendSession { chunk_size: c, total_size, chunk_index: start, bytes_sent: offset, retries: 0 })
    }

    /// Length of the chunk to send now: a full chunk, the shorter rest at the end, 0 when all
    /// is sent.
    pub fn next_len(&self) -> (r: u64)
        requires
            self.wf(),
        ensures
            r == chunk_len(self.spec_total_size() as int, self.spec_chunk_size() as int, self.spec_chunk_index() as int),
    {
        chunk_length(self.total_size, self.chunk_size, self.chunk_index)
    }

    /// Whether every byte of the stream has been delivered.
    pub fn is_complete(&self) -> (r: bool)
        requires
            self.wf(),
        ensures
            r == (self.spec_bytes_sent() == self.spec_total_size()),
    {
        self.bytes_sent == self.total_size
    }

    /// How the transfer ends on the receiver's final verdict. Success needs every byte of the
    /// stream delivered; a shorter stream ends in `IoError`.
    pub fn finish(&self, verdict: Result<u8, String>) -> (out: TransferResult)
        requires
            self.wf(),
        ensures
            out is Success ==> self.spec_bytes_sent() == self.spec_total_size(),
            self.spec_bytes_sent() != self.spec_total_size() ==> out matches TransferResult::IoError(_),
            self.spec_bytes_sent() == self.spec_total_size() ==> match verdict {
                Ok(b) => if b == 1 { out is Success } else { out is ChecksumMismatch },
                Err(m) => out matches TransferResult::IoError(n) && n@ == "Failed to read final result: "@ + m@,
            },
    {
        if self.bytes_sent != self.total_size {
            return TransferResult::IoError(String::from_str("Stream shorter than announced"));
        }
        verdict_outcome(verdict)
    }

    /// Index of the chunk being sent.
    pub fn chunk_index(&self) -> (r: u64)
        ensures
            r == self.spec_chunk_index(),
    {
        self.chunk_index
    }

    /// Stream bytes delivered so far.
    pub fn bytes_sent(&self) -> (r: u64)
        ensures
            r == self.spec_bytes_sent(),
    {
        self.bytes_sent
    }

    /// Records the outcome of one attempt at the current chunk of `len` bytes. Each chunk gets
    /// `MAX_RETRIES` attempts; when they are used up, a send failure ends in `IoError`, a
    /// mismatch in `ChecksumMismatch`, an unreadable acknowledgement in `Timeout`.
    pub fn on_attempt(&mut self, len: usize, outcome: AttemptOutcome) -> (step: AttemptStep)
        requires
            old(self).wf(),
            0 < len,
            len == chunk_len(
                old(self).spec_total_size() as int,
                old(self).spec_chunk_size() as int,
                old(self).spec_chunk_index() as int,
            ),
        ensures
            final(self).wf(),
            final(self).spec_chunk_size() == old(self).spec_chunk_size(),
            final(self).spec_total_size() == old(self).spec_total_size(),
            match outcome {
                AttemptOutcome::Acked => step is Advance,
                AttemptOutcome::SendFailed(m) => if old(self).spec_retries() + 1 >= MAX_RETRIES {
                    step matches AttemptStep::Fail(TransferResult::IoError(n)) && n@
                        == "Max retries exceeded: "@ + m@
                } else {
                    step is Retry
                },
                AttemptOutcome::Nacked => if old(self).spec_retries() + 1 >= MAX_RETRIES {
                    step matches AttemptStep::Fail(TransferResult::ChecksumMismatch)
                } else {
                    step is Retry
                },
                AttemptOutcome::AckFailed => if old(self).spec_retries() + 1 >= MAX_RETRIES {
                    step matches AttemptStep::Fail(TransferResult::Timeout)
                } else {
                    step is Retry
                },
            },
            step is Advance ==> final(self).spec_chunk_index() == old(self).spec_chunk_index() + 1
                && final(self).spec_bytes_sent() == old(self).spec_bytes_sent() + len
                && final(self).spec_retries() == 0,
            step is Retry ==> final(self).spec_chunk_index() == old(self).spec_chunk_index()
                && final(self).spec_bytes_sent() == old(self).spec_bytes_sent()
                && final(self).spec_retries() == old(self).spec_retries() + 1,
    {
        match outcome {
            AttemptOutcome::Acked => {
                proof {
                    let (i, c) = (self.chunk_index as int, self.chunk_size as int);
                    assert((i + 1) * c == i * c + c) by (nonlinear_arith);
                    assert(i <= i * c) by (nonlinear_arith)
                        requires
                            c > 0,
                            i >= 0,
                    ;
                }
                self.chunk_index = self.chunk_index + 1;
                self.bytes_sent = self.bytes_sent + len as u64;
                self.retries = 0;
                AttemptStep::Advance
            },
            AttemptOutcome::SendFailed(m) => {
                if self.retries + 1 >= MAX_RETRIES {
                    let mut msg = String::from_str("Max retries exceeded: ");
                    msg.append(m.as_str());
                    AttemptStep::Fail(TransferResult::IoError(msg))
                } else {
                    self.retries = self.retries + 1;
                    AttemptStep::Retry
                }
            },
            AttemptOutcome::Nacked => {
                if self.retries + 1 >= MAX_RETRIES {
                    AttemptStep::Fail(TransferResult::ChecksumMismatch)
                } else {
                    self.retries = self.retries + 1;
                    AttemptStep::Retry
                }
            },
            AttemptOutcome::AckFailed => {
                if self.retries + 1 >= MAX_RETRIES {
                    AttemptStep::Fail(TransferResult::Timeout)
                } else {
                    self.retries = self.retries + 1;
                    AttemptStep::Retry
                }
            },
        }
    }
}

/// How the transfer ends once every chunk is delivered: success only on the byte `1`.
pub fn verdict_outcome(r: Result<u8, String>) -> (out: TransferResult)
    ensures
        match r {
            Ok(b) => if b == 1 { out is Success } else { out is ChecksumMismatch },
            Err(m) => out matches TransferResult::IoError(n) && n@ == "Failed to read final result: "@ + m@,
        },
{
    match r {
        Ok(b) => if b == 1 {
            TransferResult::Success
        } else {
            TransferResult::ChecksumMismatch
        },
        Err(m) => {
            let mut msg = String::from_str("Failed to read final result: ");
            msg.append(m.as_str());
            TransferResult::IoError(msg)
        },
    }
}

/// The last component of a path, when it is a name (not `..` nor a root).
pub uninterp spec fn file_name_of(path: Seq<char>) -> Option<Seq<char>>;

/// Relies on `std::path::Path::file_name`: the last component of the path, if it is a name;
/// the result depends on the path text alone.
#[verifier::external_body]
fn path_file_name(path: &str) -> (r: Option<String>)
    ensures
        r matches Some(n) ==> file_name_of(path@) == Some(n@),
        r is None ==> file_name_of(path@) is None,
{
    std::path::Path::new(path).file_name().map(|n| n.to_string_lossy().into_owned())
}

/// What the host found at the path to send.
#[derive(Debug)]
pub enum SourceScan {
    /// Nothing is there.
    Missing,
    /// A file, with its size and lowercase-hex MD5.
    File { size: u64, checksum: String },
    /// A folder: the manifest JSON, the sizes of its files in manifest order, and their paths.
    Folder { manifest_json: Vec<u8>, sizes: Vec<u64>, files: Vec<String> },
}

/// Why a sender could not be created.
#[derive(Clone, Copy, Debug, PartialEq, Eq, Structural)]
pub enum SenderError {
    /// The path does not exist.
    NotFound,
    /// The manifest is longer than its 4-byte length field allows.
    ManifestTooLarge,
    /// The folder's stream length does not fit in a `u64`.
    SizeOverflow,
}

/// An offer of one file or one folder, ready to be sent.
pub struct TcpFileSender {
    file_path: String,
    file_size: u64,
    file_checksum: String,
    chunk_size: usize,
    bytes_sent: u64,
    cancelled: bool,
    resume_from_chunk: u64,
    pub transfer_type: TransferType,
    manifest_bytes: Vec<u8>,
    files_to_send: Vec<String>,
}

impl TcpFileSender {
    pub closed spec fn spec_file_size(&self) -> u64 {
        self.file_size
    }

    /// The chunk size is positive and fits the handshake's 32-bit field.
    pub closed spec fn wf(&self) -> bool {
        0 < self.chunk_size <= u32::MAX
    }

    pub closed spec fn spec_transfer_type(&self) -> TransferType {
        self.transfer_type
    }

    pub closed spec fn spec_checksum(&self) -> Seq<char> {
        self.file_checksum@
    }

    pub closed spec fn spec_chunk_size(&self) -> usize {
        self.chunk_size
    }

    pub closed spec fn spec_path(&self) -> Seq<char> {
        self.file_path@
    }

    pub closed spec fn spec_bytes_sent(&self) -> u64 {
        self.bytes_sent
    }

    pub closed spec fn spec_cancelled(&self) -> bool {
        self.cancelled
    }

    pub closed spec fn spec_resume_from(&self) -> u64 {
        self.resume_from_chunk
    }

    /// Paths of the files whose bytes follow the head.
    pub closed spec fn spec_files(&self) -> Seq<String> {
        self.files_to_send@
    }

    /// Head of the stream: the manifest frame of a folder, nothing for a file.
    pub closed spec fn spec_head(&self) -> Seq<u8> {
        self.manifest_bytes@
    }

    /// Creates the offer for what the host found at `path_str`. A file is offered with its own
    /// size and MD5. A folder is offered under its manifest: the stream starts with the
    /// manifest frame, the size counts the frame and every file, and the checksum is the MD5 of
    /// the manifest JSON.
    pub fn new(path_str: &str, scan: SourceScan) -> (r: Result<TcpFileSender, SenderError>)
        ensures
            scan is Missing ==> r == Err::<TcpFileSender, SenderError>(SenderError::NotFound),
            scan matches SourceScan::File { size, checksum } ==> (r matches Ok(s) && s.spec_transfer_type()
                == TransferType::SingleFile && s.spec_file_size() == size && s.spec_checksum()
                == checksum@ && s.spec_head() == Seq::<u8>::empty() && s.spec_files().len() == 1
                && s.spec_files()[0]@ == path_str@),
            scan matches SourceScan::Folder { manifest_json, sizes, files } ==> {
                &&& (manifest_json@.len() > u32::MAX ==> r == Err::<TcpFileSender, SenderError>(
                    SenderError::ManifestTooLarge,
                ))
                &&& (manifest_json@.len() <= u32::MAX && folder_stream_len(manifest_json@.len() as int, sizes@)
                    > u64::MAX ==> r == Err::<TcpFileSender, SenderError>(SenderError::SizeOverflow))
                &&& (manifest_json@.len() <= u32::MAX && folder_stream_len(manifest_json@.len() as int, sizes@)
                    <= u64::MAX ==> (r matches Ok(s) && s.spec_transfer_type() == TransferType::Folder
                    && s.spec_file_size() == folder_stream_len(manifest_json@.len() as int, sizes@)
                    && s.spec_checksum() == hex_of(md5_of(manifest_json@)) && s.spec_head()
                    == manifest_frame_bytes(manifest_json@) && s.spec_files() == files@))
            },
            r matches Ok(s) ==> s.wf() && s.spec_path() == path_str@ && s.spec_chunk_size() == DEFAULT_CHUNK_SIZE
                && s.spec_bytes_sent() == 0 && !s.spec_cancelled() && s.spec_resume_from() == 0,
    {
        match scan {
            SourceScan::Missing => Err(SenderError::NotFound),
            SourceScan::File { size, checksum } => {
                let mut files: Vec<String> = Vec::new();
                files.push(path_str.to_owned());
                Ok(TcpFileSender {
                    file_path: path_str.to_owned(),
                    file_size: size,
                    file_checksum: checksum,
                    chunk_size: DEFAULT_CHUNK_SIZE,
                    bytes_sent: 0,
                    cancelled: false,
                    resume_from_chunk: 0,
                    transfer_type: TransferType::SingleFile,
                    manifest_bytes: Vec::new(),
                    files_to_send: files,
                })
            },
            SourceScan::Folder { manifest_json, sizes, files } => {
                if manifest_json.len() > 4294967295usize {
                    return Err(SenderError::ManifestTooLarge);
                }
                let total = match folder_transfer_size(manifest_json.len(), sizes.as_slice()) {
                    Some(t) => t,
                    None => {
                        return Err(SenderError::SizeOverflow);
                    },
                };
                let frame = frame_manifest(manifest_json.as_slice());
                let hash = calculate_chunk_checksum(manifest_json.as_slice());
                Ok(TcpFileSender {
                    file_path: path_str.to_owned(),
                    file_size: total,
                    file_checksum: hash,
                    chunk_size: DEFAULT_CHUNK_SIZE,
                    bytes_sent: 0,
                    cancelled: false,
                    resume_from_chunk: 0,
                    transfer_type: TransferType::Folder,
                    manifest_bytes: frame,
                    files_to_send: files,
                })
            },
        }
    }

    /// Sets the chunk size.
    pub fn set_chunk_size(&mut self, size: usize)
        requires
            0 < size <= u32::MAX,
        ensures
            final(self).wf(),
            final(self).spec_path() == old(self).spec_path(),
            final(self).spec_head() == old(self).spec_head(),
            final(self).spec_files() == old(self).spec_files(),
            final(self).spec_chunk_size() == size,
            final(self).spec_file_size() == old(self).spec_file_size(),
            final(self).spec_checksum() == old(self).spec_checksum(),
            final(self).spec_resume_from() == old(self).spec_resume_from(),
            final(self).spec_transfer_type() == old(self).spec_transfer_type(),
    {
        self.chunk_size = size;
    }

    /// Sets the chunk to start from, overriding the receiver's resume index.
    pub fn set_resume_from(&mut self, chunk_index: u64)
        ensures
            final(self).wf() == old(self).wf(),
            final(self).spec_path() == old(self).spec_path(),
            final(self).spec_resume_from() == chunk_index,
            final(self).spec_chunk_size() == old(self).spec_chunk_size(),
            final(self).spec_file_size() == old(self).spec_file_size(),
            final(self).spec_checksum() == old(self).spec_checksum(),
            final(self).spec_transfer_type() == old(self).spec_transfer_type(),
    {
        self.resume_from_chunk = chunk_index;
    }

    pub fn chunk_size(&self) -> (r: usize)
        ensures
            r == self.spec_chunk_size(),
    {
        self.chunk_size
    }

    pub fn resume_from(&self) -> (r: u64)
        ensures
            r == self.spec_resume_from(),
    {
        self.resume_from_chunk
    }

    /// Stream bytes delivered so far.
    pub fn bytes_sent(&self) -> (r: u64)
        ensures
            r == self.spec_bytes_sent(),
    {
        self.bytes_sent
    }

    /// Records the stream bytes delivered so far.
    pub fn set_bytes_sent(&mut self, n: u64)
        ensures
            final(self).wf() == old(self).wf(),
            final(self).spec_path() == old(self).spec_path(),
            final(self).spec_checksum() == old(self).spec_checksum(),
            final(self).spec_chunk_size() == old(self).spec_chunk_size(),
            final(self).spec_transfer_type() == old(self).spec_transfer_type(),
            final(self).spec_bytes_sent() == n,
            final(self).spec_cancelled() == old(self).spec_cancelled(),
            final(self).spec_file_size() == old(self).spec_file_size(),
    {
        self.bytes_sent = n;
    }

    /// Asks the transfer to stop before its next chunk.
    pub fn cancel(&mut self)
        ensures
            final(self).wf() == old(self).wf(),
            final(self).spec_path() == old(self).spec_path(),
            final(self).spec_checksum() == old(self).spec_checksum(),
            final(self).spec_chunk_size() == old(self).spec_chunk_size(),
            final(self).spec_transfer_type() == old(self).spec_transfer_type(),
            final(self).spec_resume_from() == old(self).spec_resume_from(),
            final(self).spec_head() == old(self).spec_head(),
            final(self).spec_files() == old(self).spec_files(),
            final(self).spec_cancelled(),
            final(self).spec_bytes_sent() == old(self).spec_bytes_sent(),
            final(self).spec_file_size() == old(self).spec_file_size(),
    {
        self.cancelled = true;
    }

    pub fn is_cancelled(&self) -> (r: bool)
        ensures
            r == self.spec_cancelled(),
    {
        self.cancelled
    }

    /// Length of the stream sent after the handshake.
    pub fn file_size(&self) -> (r: u64)
        ensures
            r == self.spec_file_size(),
    {
        self.file_size
    }

    /// The checksum announced in the handshake.
    pub fn checksum(&self) -> (r: &str)
        ensures
            r@ == self.spec_checksum(),
    {
        self.file_checksum.as_str()
    }

    /// Head of the stream (the manifest frame of a folder).
    pub fn manifest_bytes(&self) -> (r: &Vec<u8>)
        ensures
            r@ == self.spec_head(),
    {
        &self.manifest_bytes
    }

    /// Paths of the files whose bytes follow the head, in order.
    pub fn files(&self) -> (r: &Vec<String>)
        ensures
            r@ == self.spec_files(),
    {
        &self.files_to_send
    }

    /// The name offered to the receiver: the last component of the path, or `unknown`.
    pub fn file_name(&self) -> (r: String)
        ensures
            r@ == match file_name_of(self.spec_path()) {
                Some(n) => n,
                None => "unknown"@,
            },
    {
        match path_file_name(self.file_path.as_str()) {
            Some(n) => n,
            None => String::from_str("unknown"),
        }
    }

    /// The handshake that offers this transfer under `sender_name`.
    pub fn handshake(&self, sender_name: &str) -> (r: HandshakeRequest)
        ensures
            r.version == PROTOCOL_VERSION,
            r.sender_name@ == sender_name@,
            r.file_name@ == match file_name_of(self.spec_path()) {
                Some(n) => n,
                None => "unknown"@,
            },
            r.file_size == self.spec_file_size(),
            self.wf() ==> r.chunk_size as int == self.spec_chunk_size(),
            r.chunk_size == self.spec_chunk_size() as u32,
            r.file_checksum@ == self.spec_checksum(),
            r.transfer_type == self.spec_transfer_type(),
    {
        let name = self.file_name();
        HandshakeRequest::new(
            sender_name,
            name.as_str(),
            self.file_size,
            self.chunk_size as u32,
            self.file_checksum.as_str(),
            self.transfer_type,
        )
    }
}

} // verus!
