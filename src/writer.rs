//! The folder writer: a state machine that takes the incoming folder stream
//! (`manifest_len | manifest | file bytes...`) and tells the host which bytes go to which file.
use vstd::prelude::*;
use crate::checksum::{calculate_chunk_checksum, hex_of, md5_of};
use crate::protocol::{MAX_MANIFEST_LEN, lemma_sum_sizes_nonneg, sum_sizes};
use crate::stream::{lemma_sum_take_monotone, lemma_sum_take_step};
use crate::wire::{get_be32, push_range, read_be32};

verus! {

/// Where the writer stands in the folder stream.
#[derive(Clone, Copy, Debug, PartialEq, Eq, Structural)]
pub enum WriterPhase {
    /// Collecting the 4-byte manifest length.
    ReadingManifestLen,
    /// Collecting the manifest JSON.
    ReadingManifest,
    /// The manifest is complete and waits to be installed.
    ManifestReady,
    /// Sending file bytes to files.
    WritingFiles,
    /// The manifest length was refused; nothing more is accepted.
    Failed,
}

/// Why the writer refused bytes.
#[derive(Clone, Copy, Debug, PartialEq, Eq, Structural)]
pub enum WriterError {
    /// The manifest length exceeds 100 MiB.
    ManifestTooLarge,
    /// The manifest must be installed before more bytes are fed.
    ManifestPending,
    /// An earlier error stopped the writer.
    Stopped,
}

/// One file operation: bytes `start..end` of the fed buffer go to file `item`. With `create`
/// set, the file is created (or truncated) first.
#[derive(Clone, Copy, Debug, PartialEq, Eq, Structural)]
pub struct FileOp {
    pub item: usize,
    pub create: bool,
    pub start: usize,
    pub end: usize,
}

/// What a file holds after `op`; `None` stands for a file not yet created.
pub open spec fn apply_op(files: Seq<Option<Seq<u8>>>, op: FileOp, buf: Seq<u8>) -> Seq<Option<Seq<u8>>> {
    let bytes = buf.subrange(op.start as int, op.end as int);
    if op.create {
        files.update(op.item as int, Some(bytes))
    } else {
        let before = match files[op.item as int] {
            Some(b) => b,
            None => Seq::<u8>::empty(),
        };
        files.update(op.item as int, Some(before + bytes))
    }
}

/// What the files hold after `ops`, in order.
pub open spec fn apply_ops(files: Seq<Option<Seq<u8>>>, ops: Seq<FileOp>, buf: Seq<u8>) -> Seq<Option<Seq<u8>>>
    decreases ops.len(),
{
    if ops.len() == 0 {
        files
    } else {
        apply_op(apply_ops(files, ops.drop_last(), buf), ops.last(), buf)
    }
}

/// Stream offset where item `k`'s bytes start, for a manifest of `l` bytes.
pub open spec fn item_start(l: int, sizes: Seq<u64>, k: int) -> int {
    4 + l + sum_sizes(sizes.take(k))
}

/// The bytes of item `k` that a stream `s` holds so far.
pub open spec fn item_content(s: Seq<u8>, l: int, sizes: Seq<u64>, k: int) -> Seq<u8> {
    let a = item_start(l, sizes, k);
    let b = item_start(l, sizes, k + 1);
    s.subrange(a, if b <= s.len() { b } else { s.len() as int })
}

/// What the files hold once the stream `s` is written, with the writer at byte `offset` of
/// item `item`: every earlier item is complete, the current one is partly written if begun.
pub open spec fn expected_files(s: Seq<u8>, l: int, sizes: Seq<u64>, item: int, offset: int) -> Seq<
    Option<Seq<u8>>,
> {
    Seq::new(
        sizes.len(),
        |k: int|
            if k < item || (k == item && offset > 0) {
                Some(item_content(s, l, sizes, k))
            } else {
                None
            },
    )
}

/// Incremental state of a folder reception.
pub struct FolderWriter {
    header: Vec<u8>,
    manifest_len: u32,
    manifest: Vec<u8>,
    manifest_hash: Option<String>,
    sizes: Vec<u64>,
    item: usize,
    offset: u64,
    phase: WriterPhase,
    stream: Ghost<Seq<u8>>,
    files: Ghost<Seq<Option<Seq<u8>>>>,
}

/// What one call of `feed` did.
pub struct FeedResult {
    /// The buffer was consumed up to here.
    pub consumed_to: usize,
    /// File operations to carry out, in order.
    pub ops: Vec<FileOp>,
}

impl FolderWriter {
    /// Every byte fed so far.
    pub closed spec fn spec_stream(&self) -> Seq<u8> {
        self.stream@
    }

    /// What the files hold once the operations handed out so far are carried out.
    pub closed spec fn spec_files(&self) -> Seq<Option<Seq<u8>>> {
        self.files@
    }

    pub closed spec fn spec_phase(&self) -> WriterPhase {
        self.phase
    }

    /// Item sizes of the installed manifest.
    pub closed spec fn spec_sizes(&self) -> Seq<u64> {
        self.sizes@
    }

    pub closed spec fn spec_item(&self) -> int {
        self.item as int
    }

    pub closed spec fn spec_offset(&self) -> int {
        self.offset as int
    }

    pub closed spec fn spec_manifest_hash(&self) -> Option<Seq<char>> {
        match self.manifest_hash {
            Some(h) => Some(h@),
            None => None,
        }
    }

    /// Length of the manifest JSON, once known.
    pub open spec fn spec_manifest_len(&self) -> int {
        read_be32(self.spec_stream(), 0) as int
    }

    pub closed spec fn wf(&self) -> bool {
        let s = self.stream@;
        let l = self.manifest_len as int;
        match self.phase {
            WriterPhase::ReadingManifestLen => s.len() < 4 && self.header@ == s
                && self.manifest_hash is None && self.files@ == Seq::<Option<Seq<u8>>>::empty(),
            WriterPhase::Failed => s.len() == 4 && read_be32(s, 0) > MAX_MANIFEST_LEN
                && self.manifest_hash is None && self.files@ == Seq::<Option<Seq<u8>>>::empty(),
            WriterPhase::ReadingManifest => s.len() >= 4 && self.manifest_len == read_be32(s, 0)
                && self.manifest_len <= MAX_MANIFEST_LEN && self.manifest@ == s.subrange(4, s.len() as int)
                && self.manifest@.len() < l && self.manifest_hash is None
                && self.files@ == Seq::<Option<Seq<u8>>>::empty(),
            WriterPhase::ManifestReady => s.len() == 4 + l && self.manifest_len == read_be32(s, 0)
                && self.manifest@ == s.subrange(4, s.len() as int) && self.manifest_hash is Some
                && self.manifest_hash.unwrap()@ == hex_of(md5_of(self.manifest@)) && self.files@ == Seq::<Option<Seq<u8>>>::empty(),
            WriterPhase::WritingFiles => {
                &&& s.len() >= 4 + l
                &&& self.manifest_len == read_be32(s, 0)
                &&& self.manifest_hash is Some
                &&& self.manifest_hash.unwrap()@ == hex_of(md5_of(s.subrange(4, 4 + l)))
                &&& sum_sizes(self.sizes@) <= u64::MAX
                &&& self.item <= self.sizes@.len()
                &&& (self.item < self.sizes@.len() ==> self.offset < self.sizes@[self.item as int]
                    && s.len() == item_start(l, self.sizes@, self.item as int) + self.offset)
                &&& (self.item == self.sizes@.len() ==> self.offset == 0 && s.len() >= item_start(
                    l,
                    self.sizes@,
                    self.item as int,
                ))
                &&& self.files@ == expected_files(s, l, self.sizes@, self.item as int, self.offset as int)
            },
        }
    }

    /// A writer at the start of a folder stream.
    pub fn new() -> (r: FolderWriter)
        ensures
            r.wf(),
            r.spec_phase() == WriterPhase::ReadingManifestLen,
            r.spec_stream() == Seq::<u8>::empty(),
            r.spec_manifest_hash() is None,
    {
        FolderWriter {
            header: Vec::new(),
            manifest_len: 0,
            manifest: Vec::new(),
            manifest_hash: None,
            sizes: Vec::new(),
            item: 0,
            offset: 0,
            phase: WriterPhase::ReadingManifestLen,
            stream: Ghost(Seq::empty()),
            files: Ghost(Seq::empty()),
        }
    }

    pub fn phase(&self) -> (r: WriterPhase)
        ensures
            r == self.spec_phase(),
    {
        self.phase
    }

    /// The manifest JSON, once complete.
    pub fn manifest_bytes(&self) -> (r: &Vec<u8>)
        requires
            self.wf(),
            self.spec_phase() == WriterPhase::ManifestReady,
        ensures
            r@ == self.spec_stream().subrange(4, self.spec_stream().len() as int),
    {
        &self.manifest
    }

    /// Lowercase-hex MD5 of the manifest JSON, once the manifest is complete.
    pub fn manifest_checksum(&self) -> (r: Option<String>)
        requires
            self.wf(),
        ensures
            r is Some <==> self.spec_phase() == WriterPhase::ManifestReady || self.spec_phase()
                == WriterPhase::WritingFiles,
            r matches Some(h) ==> h@ == hex_of(
                md5_of(self.spec_stream().subrange(4, 4 + self.spec_manifest_len())),
            ),
    {
        match &self.manifest_hash {
            Some(h) => Some(h.clone()),
            None => None,
        }
    }

    /// Installs the item sizes of the parsed manifest and starts writing files. Items of size
    /// zero at the front are created at once.
    pub fn install_manifest(&mut self, sizes: Vec<u64>) -> (ops: Vec<FileOp>)
        requires
            old(self).wf(),
            old(self).spec_phase() == WriterPhase::ManifestReady,
            sum_sizes(sizes@) <= u64::MAX,
        ensures
            final(self).wf(),
            final(self).spec_phase() == WriterPhase::WritingFiles,
            final(self).spec_sizes() == sizes@,
            final(self).spec_stream() == old(self).spec_stream(),
            final(self).spec_files() == apply_ops(
                Seq::new(sizes@.len(), |k: int| None::<Seq<u8>>),
                ops@,
                Seq::<u8>::empty(),
            ),
    {
        let ghost f0 = Seq::new(sizes@.len(), |k: int| None::<Seq<u8>>);
        let ghost l = self.manifest_len as int;
        self.sizes = sizes;
        self.item = 0;
        self.offset = 0;
        self.phase = WriterPhase::WritingFiles;
        self.files = Ghost(f0);
        proof {
            assert(self.sizes@.take(0) =~= Seq::<u64>::empty());
            assert(f0 =~= expected_files(self.stream@, l, self.sizes@, 0, 0));
        }
        let mut ops: Vec<FileOp> = Vec::new();
        let empty: Vec<u8> = Vec::new();
        self.skip_empty(&mut ops, empty.as_slice(), 0, Ghost(f0));
        proof {
            lemma_sum_sizes_nonneg(self.sizes@);
            if self.item == self.sizes@.len() {
                assert(self.sizes@.take(self.item as int) =~= self.sizes@);
            }
        }
        ops
    }

    /// Creates the items of size zero at the writer's position and moves past them.
    fn skip_empty(&mut self, ops: &mut Vec<FileOp>, buf: &[u8], at: usize, f0: Ghost<Seq<Option<Seq<u8>>>>)
        requires
            old(self).phase == WriterPhase::WritingFiles,
            old(self).item <= old(self).sizes@.len(),
            old(self).offset == 0,
            at <= buf@.len(),
            old(self).stream@.len() == item_start(old(self).manifest_len as int, old(self).sizes@, old(self).item as int),
            old(self).files@ == expected_files(old(self).stream@, old(self).manifest_len as int, old(self).sizes@, old(self).item as int, 0),
            old(self).files@ == apply_ops(f0@, old(ops)@, buf@),
        ensures
            final(self).phase == old(self).phase,
            final(self).sizes == old(self).sizes,
            final(self).stream == old(self).stream,
            final(self).manifest_len == old(self).manifest_len,
            final(self).manifest_hash == old(self).manifest_hash,
            final(self).offset == 0,
            final(self).item >= old(self).item,
            final(self).item <= final(self).sizes@.len(),
            final(self).item < final(self).sizes@.len() ==> final(self).sizes@[final(self).item as int] > 0,
            final(self).stream@.len() == item_start(final(self).manifest_len as int, final(self).sizes@, final(self).item as int),
            final(self).files@ == expected_files(final(self).stream@, final(self).manifest_len as int, final(self).sizes@, final(self).item as int, 0),
            final(self).files@ == apply_ops(f0@, final(ops)@, buf@),
    {
        let ghost l = self.manifest_len as int;
        while self.item < self.sizes.len() && self.sizes[self.item] == 0
            invariant
                self.phase == WriterPhase::WritingFiles,
                self.sizes == old(self).sizes,
                self.stream == old(self).stream,
                self.manifest_len == old(self).manifest_len,
                self.manifest_hash == old(self).manifest_hash,
                self.offset == 0,
                old(self).item <= self.item <= self.sizes@.len(),
                at <= buf@.len(),
                l == self.manifest_len,
                self.stream@.len() == item_start(l, self.sizes@, self.item as int),
                self.files@ == expected_files(self.stream@, l, self.sizes@, self.item as int, 0),
                self.files@ == apply_ops(f0@, ops@, buf@),
            decreases self.sizes@.len() - self.item,
        {
            let op = FileOp { item: self.item, create: true, start: at, end: at };
            let ghost k = self.item as int;
            let ghost before = ops@;
            ops.push(op);
            proof {
                assert(ops@.drop_last() =~= before);
                lemma_sum_take_step(self.sizes@, k);
                let s = self.stream@;
                let newf = apply_op(self.files@, op, buf@);
                assert(item_content(s, l, self.sizes@, k) =~= buf@.subrange(at as int, at as int));
                assert(newf =~= expected_files(s, l, self.sizes@, k + 1, 0));
                self.files = Ghost(newf);
            }
            self.item = self.item + 1;
        }
    }

    /// Feeds `buf[from..]`. Stops early only when the manifest becomes complete: the host then
    /// parses it, installs its sizes, and feeds the rest. The returned operations, carried out in
    /// order, bring the files to `spec_files()`.
    pub fn feed(&mut self, buf: &[u8], from: usize) -> (r: Result<FeedResult, WriterError>)
        requires
            old(self).wf(),
            from <= buf@.len(),
        ensures
            final(self).wf(),
            old(self).spec_phase() == WriterPhase::Failed ==> r == Err::<FeedResult, WriterError>(WriterError::Stopped),
            old(self).spec_phase() == WriterPhase::ManifestReady ==> r == Err::<FeedResult, WriterError>(WriterError::ManifestPending),
            r == Err::<FeedResult, WriterError>(WriterError::ManifestTooLarge) <==> (old(self).spec_phase() == WriterPhase::ReadingManifestLen
                && final(self).spec_phase() == WriterPhase::Failed),
            r matches Err(e) ==> (e == WriterError::Stopped && old(self).spec_phase() == WriterPhase::Failed)
                || (e == WriterError::ManifestPending && old(self).spec_phase() == WriterPhase::ManifestReady)
                || (e == WriterError::ManifestTooLarge && old(self).spec_phase() == WriterPhase::ReadingManifestLen
                    && final(self).spec_phase() == WriterPhase::Failed && final(self).spec_stream().len() == 4
                    && final(self).spec_stream() == old(self).spec_stream() + buf@.subrange(
                        from as int,
                        from + 4 - old(self).spec_stream().len(),
                    ) && read_be32(final(self).spec_stream(), 0) > MAX_MANIFEST_LEN),
            r matches Err(e) && e != WriterError::ManifestTooLarge ==> final(self).spec_stream() == old(self).spec_stream()
                && final(self).spec_phase() == old(self).spec_phase() && final(self).spec_manifest_hash()
                == old(self).spec_manifest_hash(),
            r is Err ==> final(self).spec_files() == old(self).spec_files(),
            final(self).spec_phase() == WriterPhase::Failed ==> final(self).spec_manifest_hash() is None,
            r matches Ok(res) ==> {
                &&& from <= res.consumed_to <= buf@.len()
                &&& final(self).spec_stream() == old(self).spec_stream() + buf@.subrange(from as int, res.consumed_to as int)
                &&& (final(self).spec_phase() != WriterPhase::ManifestReady ==> res.consumed_to == buf@.len())
                &&& final(self).spec_phase() != WriterPhase::Failed
                &&& final(self).spec_files() == apply_ops(old(self).spec_files(), res.ops@, buf@)
                &&& (old(self).spec_phase() == WriterPhase::WritingFiles ==> final(self).spec_phase()
                    == WriterPhase::WritingFiles && final(self).spec_sizes() == old(self).spec_sizes())
            },
    {
        let ghost s0 = self.stream@;
        let ghost f_in = self.files@;
        if self.phase == WriterPhase::Failed {
            return Err(WriterError::Stopped);
        }
        if self.phase == WriterPhase::ManifestReady {
            return Err(WriterError::ManifestPending);
        }
        let mut i = from;
        if self.phase == WriterPhase::ReadingManifestLen {
            let need = 4 - self.header.len();
            let avail = buf.len() - i;
            let take = if need < avail {
                need
            } else {
                avail
            };
            push_range(&mut self.header, buf, i, i + take);
            proof {
                self.stream = Ghost(self.stream@ + buf@.subrange(i as int, (i + take) as int));
            }
            i = i + take;
            if self.header.len() < 4 {
                assert(i == buf@.len());
                return Ok(FeedResult { consumed_to: i, ops: Vec::new() });
            }
            let len = get_be32(self.header.as_slice(), 0);
            assert(self.header@ =~= self.stream@);
            if len > MAX_MANIFEST_LEN {
                self.phase = WriterPhase::Failed;
                return Err(WriterError::ManifestTooLarge);
            }
            self.manifest_len = len;
            self.manifest = Vec::new();
            self.phase = WriterPhase::ReadingManifest;
            proof {
                assert(self.manifest@ =~= self.stream@.subrange(4, self.stream@.len() as int));
            }
            if len == 0 {
                self.complete_manifest();
                return Ok(FeedResult { consumed_to: i, ops: Vec::new() });
            }
        }
        if self.phase == WriterPhase::ReadingManifest {
            let need = self.manifest_len as usize - self.manifest.len();
            let avail = buf.len() - i;
            let take = if need < avail {
                need
            } else {
                avail
            };
            let ghost sb = self.stream@;
            push_range(&mut self.manifest, buf, i, i + take);
            proof {
                self.stream = Ghost(self.stream@ + buf@.subrange(i as int, (i + take) as int));
                assert(self.stream@.subrange(0, 4) =~= sb.subrange(0, 4));
                assert(self.manifest@ =~= self.stream@.subrange(4, self.stream@.len() as int));
            }
            i = i + take;
            if self.manifest.len() == self.manifest_len as usize {
                self.complete_manifest();
            }
            proof {
            }
            return Ok(FeedResult { consumed_to: i, ops: Vec::new() });
        }
        let ghost l = self.manifest_len as int;
        let mut ops: Vec<FileOp> = Vec::new();
        while i < buf.len()
            invariant
                self.wf(),
                self.phase == WriterPhase::WritingFiles,
                self.sizes == old(self).sizes,
                self.manifest_len == old(self).manifest_len,
                l == self.manifest_len,
                from <= i <= buf@.len(),
                self.stream@ == s0 + buf@.subrange(from as int, i as int),
                self.files@ == apply_ops(f_in, ops@, buf@),
            decreases buf@.len() - i,
        {
            let ghost s = self.stream@;
            if self.item >= self.sizes.len() {
                proof {
                    let s2 = s + buf@.subrange(i as int, buf@.len() as int);
                    assert forall|k: int| 0 <= k < self.sizes@.len() implies item_content(s2, l, self.sizes@, k)
                        == item_content(s, l, self.sizes@, k) by {
                        lemma_item_start_monotone(l, self.sizes@, k + 1, self.item as int);
                        lemma_item_start_monotone(l, self.sizes@, k, k + 1);
                        lemma_sum_sizes_nonneg(self.sizes@.take(k));
                        assert(s.len() >= item_start(l, self.sizes@, self.item as int));
                        assert(item_content(s2, l, self.sizes@, k) =~= item_content(s, l, self.sizes@, k));
                    }
                    assert(self.files@ =~= expected_files(s2, l, self.sizes@, self.item as int, 0));
                    assert(s2 =~= s0 + buf@.subrange(from as int, buf@.len() as int));
                    assert(s2.subrange(0, 4) =~= s.subrange(0, 4));
                    assert(s2.subrange(4, 4 + l) =~= s.subrange(4, 4 + l));
                    self.stream = Ghost(s2);
                }
                i = buf.len();
            } else {
                let k = self.item;
                let size = self.sizes[k];
                let rem = size - self.offset;
                let avail = (buf.len() - i) as u64;
                let n: u64 = if rem < avail {
                    rem
                } else {
                    avail
                };
                let op = FileOp { item: k, create: self.offset == 0, start: i, end: i + n as usize };
                let ghost before = ops@;
                ops.push(op);
                proof {
                    assert(ops@.drop_last() =~= before);
                    let t = buf@.subrange(i as int, (i + n) as int);
                    let s2 = s + t;
                    lemma_sum_take_step(self.sizes@, k as int);
                    let a = item_start(l, self.sizes@, k as int);
                    let b = item_start(l, self.sizes@, k + 1);
                    assert forall|j: int| 0 <= j < k implies item_content(s2, l, self.sizes@, j)
                        == item_content(s, l, self.sizes@, j) by {
                        lemma_item_start_monotone(l, self.sizes@, j + 1, k as int);
                        lemma_item_start_monotone(l, self.sizes@, j, j + 1);
                        lemma_sum_sizes_nonneg(self.sizes@.take(j));
                        assert(s.len() >= item_start(l, self.sizes@, k as int));
                        assert(item_content(s2, l, self.sizes@, j) =~= item_content(s, l, self.sizes@, j));
                    }
                    if self.offset == 0 {
                        assert(item_content(s2, l, self.sizes@, k as int) =~= t);
                    } else {
                        lemma_sum_sizes_nonneg(self.sizes@.take(k as int));
                        assert(s.len() == a + self.offset);
                        assert(b == a + size);
                        assert(item_content(s2, l, self.sizes@, k as int) =~= item_content(s, l, self.sizes@, k as int) + t);
                    }
                    let newf = apply_op(self.files@, op, buf@);
                    assert(newf =~= expected_files(s2, l, self.sizes@, k as int, self.offset + n));
                    assert(s2 =~= s0 + buf@.subrange(from as int, (i + n) as int));
                    assert(s2.subrange(0, 4) =~= s.subrange(0, 4));
                    assert(s2.subrange(4, 4 + l) =~= s.subrange(4, 4 + l));
                    self.stream = Ghost(s2);
                    self.files = Ghost(newf);
                }
                self.offset = self.offset + n;
                i = i + n as usize;
                if self.offset == size {
                    proof {
                        lemma_sum_take_step(self.sizes@, k as int);
                        assert(expected_files(self.stream@, l, self.sizes@, k as int, size as int) =~= expected_files(
                            self.stream@,
                            l,
                            self.sizes@,
                            k + 1,
                            0,
                        ));
                    }
                    self.item = k + 1;
                    self.offset = 0;
                    self.skip_empty(&mut ops, buf, i, Ghost(f_in));
                    proof {
                        lemma_sum_sizes_nonneg(self.sizes@);
                        if self.item == self.sizes@.len() {
                            assert(self.sizes@.take(self.item as int) =~= self.sizes@);
                        }
                    }
                }
            }
        }
        Ok(FeedResult { consumed_to: i, ops })
    }

    /// Records the complete manifest and its checksum.
    fn complete_manifest(&mut self)
        requires
            old(self).phase == WriterPhase::ReadingManifest || old(self).phase == WriterPhase::ReadingManifestLen,
            old(self).stream@.len() >= 4,
            old(self).manifest_len == read_be32(old(self).stream@, 0),
            old(self).manifest_len <= MAX_MANIFEST_LEN,
            old(self).manifest@ == old(self).stream@.subrange(4, old(self).stream@.len() as int),
            old(self).manifest@.len() == old(self).manifest_len,
            old(self).files@ == Seq::<Option<Seq<u8>>>::empty(),
        ensures
            final(self).wf(),
            final(self).phase == WriterPhase::ManifestReady,
            final(self).stream == old(self).stream,
            final(self).files == old(self).files,
    {
        self.manifest_hash = Some(calculate_chunk_checksum(self.manifest.as_slice()));
        self.phase = WriterPhase::ManifestReady;
    }
}

pub proof fn lemma_item_start_monotone(l: int, sizes: Seq<u64>, a: int, b: int)
    requires
        0 <= a <= b <= sizes.len(),
    ensures
        item_start(l, sizes, a) <= item_start(l, sizes, b),
{
    lemma_sum_take_monotone(sizes, a, b);
}

/// Once the stream holds the manifest frame and every item's bytes, each file holds exactly
/// its own bytes of the stream, items of size zero included.
pub proof fn lemma_folder_complete(w: &FolderWriter)
    requires
        w.wf(),
        w.spec_phase() == WriterPhase::WritingFiles,
        w.spec_stream().len() >= 4 + w.spec_manifest_len() + sum_sizes(w.spec_sizes()),
    ensures
        w.spec_files().len() == w.spec_sizes().len(),
        forall|k: int|
            0 <= k < w.spec_sizes().len() ==> #[trigger] w.spec_files()[k] == Some(
                w.spec_stream().subrange(
                    item_start(w.spec_manifest_len(), w.spec_sizes(), k),
                    item_start(w.spec_manifest_len(), w.spec_sizes(), k + 1),
                ),
            ),
{
    let l = w.manifest_len as int;
    let sizes = w.sizes@;
    let s = w.stream@;
    assert(sizes.take(sizes.len() as int) =~= sizes);
    if w.item < sizes.len() {
        lemma_sum_take_step(sizes, w.item as int);
        lemma_item_start_monotone(l, sizes, w.item + 1, sizes.len() as int);
    }
    assert(w.item == sizes.len());
    assert forall|k: int| 0 <= k < sizes.len() implies #[trigger] w.spec_files()[k] == Some(
        s.subrange(item_start(l, sizes, k), item_start(l, sizes, k + 1)),
    ) by {
        lemma_item_start_monotone(l, sizes, k + 1, sizes.len() as int);
    }
}

/// Where a well-formed writer stands is fixed by the bytes fed so far: the manifest length is
/// read while fewer than 4 bytes are in, the manifest while fewer than its length follow, and
/// the manifest checksum exists once the manifest is complete.
pub proof fn lemma_phase_of_stream(w: &FolderWriter)
    requires
        w.wf(),
    ensures
        w.spec_phase() == WriterPhase::ReadingManifestLen <==> w.spec_stream().len() < 4,
        w.spec_phase() == WriterPhase::Failed ==> w.spec_stream().len() == 4 && w.spec_manifest_len()
            > MAX_MANIFEST_LEN,
        w.spec_phase() == WriterPhase::ReadingManifest ==> 4 <= w.spec_stream().len() < 4
            + w.spec_manifest_len() && w.spec_manifest_len() <= MAX_MANIFEST_LEN,
        w.spec_phase() == WriterPhase::ManifestReady ==> w.spec_stream().len() == 4 + w.spec_manifest_len(),
        w.spec_phase() == WriterPhase::WritingFiles ==> w.spec_stream().len() >= 4 + w.spec_manifest_len(),
        w.spec_manifest_hash() is Some <==> (w.spec_phase() == WriterPhase::ManifestReady || w.spec_phase()
            == WriterPhase::WritingFiles),
        w.spec_manifest_hash() matches Some(h) ==> h == hex_of(
            md5_of(w.spec_stream().subrange(4, 4 + w.spec_manifest_len())),
        ),
{
}

/// Two writers that took the same bytes (in whatever pieces) and the same manifest sizes stand
/// at the same place and hold the same files.
pub proof fn lemma_files_determined(w1: &FolderWriter, w2: &FolderWriter)
    requires
        w1.wf(),
        w2.wf(),
        w1.spec_phase() == WriterPhase::WritingFiles,
        w2.spec_phase() == WriterPhase::WritingFiles,
        w1.spec_stream() == w2.spec_stream(),
        w1.spec_sizes() == w2.spec_sizes(),
    ensures
        w1.spec_files() == w2.spec_files(),
        w1.spec_item() == w2.spec_item(),
        w1.spec_offset() == w2.spec_offset(),
{
    let l = w1.manifest_len as int;
    let sizes = w1.sizes@;
    let n = sizes.len() as int;
    let (a, b) = (w1.item as int, w2.item as int);
    if a != b {
        let (lo, hi, wlo) = if a < b { (a, b, w1) } else { (b, a, w2) };
        lemma_sum_take_step(sizes, lo);
        lemma_item_start_monotone(l, sizes, lo + 1, hi);
        if hi < n {
            lemma_sum_take_step(sizes, hi);
        } else {
            assert(lo < n);
        }
        assert(false);
    }
    if a < n {
        assert(w1.offset == w2.offset);
    }
}

} // verus!
