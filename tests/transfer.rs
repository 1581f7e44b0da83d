use voidwarp_core::checksum::{calculate_chunk_checksum, calculate_chunk_checksum_raw};
use voidwarp_core::protocol::{
    decode_ack, decode_chunk_header, encode_ack, encode_chunk_frame, folder_transfer_size,
    frame_manifest, total_of, verify_chunk, HandshakeError, HandshakeRequest, TransferType,
    ACK_CHECKSUM_MISMATCH, ACK_OK, MAX_MANIFEST_LEN,
};
use voidwarp_core::receiver::{
    final_verdict, plan_resume, ReceiveSession, ReceiverControl, ReceiverState, WriteMode,
};
use voidwarp_core::sender::{
    ack_confirms, decision_outcome, start_chunk, verdict_outcome, AttemptOutcome, AttemptStep,
    ReadFailure, SendSession, SenderError, SourceScan, TcpFileSender, TransferResult,
};
use voidwarp_core::stream::{chunk_length, Location, StreamLayout};
use voidwarp_core::text::to_slashes;
use voidwarp_core::transfer::{div_ceil, FileMetadata, TransferProgress, TransferState, DEFAULT_CHUNK_SIZE};
use voidwarp_core::transport::{decode_header, Packet, PacketError, PacketType, MAGIC};
use voidwarp_core::writer::{FileOp, FolderWriter, WriterError, WriterPhase};

fn offer(t: TransferType) -> HandshakeRequest {
    HandshakeRequest::new("Alice's phone", "photo ü.jpg", 123456789, 1048576, "0123456789abcdef0123456789abcdef", t)
}

#[test]
fn handshake_round_trip() {
    for t in [TransferType::SingleFile, TransferType::Folder] {
        let h = offer(t);
        let bytes = h.to_bytes();
        let (d, n) = HandshakeRequest::read_from(&bytes).unwrap();
        assert_eq!(n, bytes.len());
        assert_eq!(d.version, 1);
        assert_eq!(d.sender_name, "Alice's phone");
        assert_eq!(d.file_name, "photo ü.jpg");
        assert_eq!(d.file_size, 123456789);
        assert_eq!(d.chunk_size, 1048576);
        assert_eq!(d.file_checksum, "0123456789abcdef0123456789abcdef");
        assert_eq!(d.transfer_type, t);
    }
}

#[test]
fn handshake_layout_is_big_endian() {
    let h = HandshakeRequest::new("A", "b", 0x0102, 0x0304, "c", TransferType::Folder);
    let bytes = h.to_bytes();
    assert_eq!(
        bytes,
        vec![1, 1, b'A', 0, 1, b'b', 0, 0, 0, 0, 0, 0, 1, 2, 0, 0, 3, 4, 1, b'c', 1]
    );
}

#[test]
fn handshake_with_other_version_is_rejected() {
    let mut bytes = offer(TransferType::SingleFile).to_bytes();
    bytes[0] = 2;
    assert_eq!(HandshakeRequest::read_from(&bytes).unwrap_err(), HandshakeError::VersionMismatch(2));
}

#[test]
fn handshake_needs_every_byte() {
    let bytes = offer(TransferType::SingleFile).to_bytes();
    for cut in 0..bytes.len() {
        assert_eq!(HandshakeRequest::read_from(&bytes[..cut]).unwrap_err(), HandshakeError::Incomplete);
    }
    let mut bad = bytes.clone();
    let last = bad.len() - 1;
    bad[last] = 7;
    assert_eq!(HandshakeRequest::read_from(&bad).unwrap_err(), HandshakeError::UnknownTransferType(7));
}

#[test]
fn handshake_clamps_long_names_and_decodes_lossily() {
    let long = "x".repeat(300);
    let h = HandshakeRequest::new(&long, "f", 1, 1, "c", TransferType::SingleFile);
    let bytes = h.to_bytes();
    assert_eq!(bytes[1], 255);
    let (d, _) = HandshakeRequest::read_from(&bytes).unwrap();
    assert_eq!(d.sender_name.len(), 255);

    let raw = vec![1, 2, 0xff, b'a', 0, 0, 0, 0, 0, 0, 0, 0, 0, 0, 0, 0, 0, 0, 0, 0];
    let (d, n) = HandshakeRequest::read_from(&raw).unwrap();
    assert_eq!(n, raw.len());
    assert_eq!(d.sender_name, "\u{fffd}a");
    assert_eq!(d.transfer_type, TransferType::SingleFile);
}

#[test]
fn chunk_frame_round_trip_acks_ok() {
    let data = b"some chunk payload".to_vec();
    let frame = encode_chunk_frame(7, &data);
    assert_eq!(frame.len(), 12 + data.len() + 16);
    let h = decode_chunk_header(&frame[..12]).unwrap();
    assert_eq!(h.index, 7);
    assert_eq!(h.len as usize, data.len());
    let body = &frame[12..12 + data.len()];
    let digest = &frame[12 + data.len()..];
    assert_eq!(body, &data[..]);
    assert_eq!(digest, &calculate_chunk_checksum_raw(&data)[..]);
    assert_eq!(verify_chunk(body, digest), ACK_OK);
}

#[test]
fn flipped_byte_is_nacked_then_retry_succeeds() {
    let data = vec![0x11u8; 64];
    let mut frame = encode_chunk_frame(0, &data);
    frame[12] ^= 0x01;
    let mut rx = ReceiveSession::new(&plan_resume(TransferType::SingleFile, None, 64, 64), 64);
    let h = decode_chunk_header(&frame[..12]).unwrap();
    let v = rx.on_chunk(h, &frame[12..76], &frame[76..92]);
    assert!(!v.commit);
    assert_eq!(decode_ack(&v.ack), Some((0, ACK_CHECKSUM_MISMATCH)));
    assert_eq!(rx.bytes_received(), 0);

    let mut tx = SendSession::begin(0, 64, 64).ok().unwrap();
    assert!(matches!(tx.on_attempt(64, AttemptOutcome::Nacked), AttemptStep::Retry));

    let frame = encode_chunk_frame(0, &data);
    let v = rx.on_chunk(h, &frame[12..76], &frame[76..92]);
    assert!(v.commit);
    assert_eq!(v.ack, encode_ack(0, ACK_OK));
    assert!(rx.is_complete());
    let (idx, status) = decode_ack(&v.ack).unwrap();
    assert!(ack_confirms(0, idx, status));
    assert!(matches!(tx.on_attempt(64, AttemptOutcome::Acked), AttemptStep::Advance));
    assert_eq!(tx.bytes_sent(), 64);
    assert_eq!(tx.chunk_index(), 1);
    assert!(matches!(verdict_outcome(Ok(final_verdict(&calculate_chunk_checksum(&data), &calculate_chunk_checksum(&data)))), TransferResult::Success));
}

#[test]
fn retries_are_limited_to_three_attempts() {
    let mut s = SendSession::begin(0, 10, 100).ok().unwrap();
    assert!(matches!(s.on_attempt(10, AttemptOutcome::Nacked), AttemptStep::Retry));
    assert!(matches!(s.on_attempt(10, AttemptOutcome::AckFailed), AttemptStep::Retry));
    assert!(matches!(s.on_attempt(10, AttemptOutcome::Nacked), AttemptStep::Fail(TransferResult::ChecksumMismatch)));

    let mut s = SendSession::begin(0, 10, 100).ok().unwrap();
    assert!(matches!(s.on_attempt(10, AttemptOutcome::AckFailed), AttemptStep::Retry));
    assert!(matches!(s.on_attempt(10, AttemptOutcome::AckFailed), AttemptStep::Retry));
    assert!(matches!(s.on_attempt(10, AttemptOutcome::AckFailed), AttemptStep::Fail(TransferResult::Timeout)));

    let mut s = SendSession::begin(0, 10, 100).ok().unwrap();
    assert!(matches!(s.on_attempt(10, AttemptOutcome::SendFailed("a".to_string())), AttemptStep::Retry));
    assert!(matches!(s.on_attempt(10, AttemptOutcome::Acked), AttemptStep::Advance));
    assert!(matches!(s.on_attempt(10, AttemptOutcome::SendFailed("b".to_string())), AttemptStep::Retry));
    assert!(matches!(s.on_attempt(10, AttemptOutcome::SendFailed("c".to_string())), AttemptStep::Retry));
    match s.on_attempt(10, AttemptOutcome::SendFailed("broken pipe".to_string())) {
        AttemptStep::Fail(TransferResult::IoError(m)) => assert_eq!(m, "Max retries exceeded: broken pipe"),
        other => panic!("unexpected {:?}", other),
    }
}

#[test]
fn decision_and_verdict_outcomes() {
    assert!(matches!(decision_outcome(Ok(0)), Some(TransferResult::Rejected)));
    assert!(decision_outcome(Ok(1)).is_none());
    assert!(matches!(decision_outcome(Err(ReadFailure::TimedOut)), Some(TransferResult::Timeout)));
    match decision_outcome(Err(ReadFailure::Other("reset".to_string()))) {
        Some(TransferResult::IoError(m)) => assert_eq!(m, "reset"),
        other => panic!("unexpected {:?}", other),
    }
    assert!(matches!(verdict_outcome(Ok(1)), TransferResult::Success));
    assert!(matches!(verdict_outcome(Ok(0)), TransferResult::ChecksumMismatch));
    match verdict_outcome(Err("eof".to_string())) {
        TransferResult::IoError(m) => assert_eq!(m, "Failed to read final result: eof"),
        other => panic!("unexpected {:?}", other),
    }
    assert_eq!(final_verdict("abc", "abc"), 1);
    assert_eq!(final_verdict("abc", "ABC"), 0);
}

#[test]
fn resume_from_receiver_index() {
    let c: u32 = 1000;
    let size = 3 * c as u64 + 100;
    let plan = plan_resume(TransferType::SingleFile, Some(1500), size, c);
    assert_eq!(plan.resume_index, 1);
    assert_eq!(plan.keep_len, 1000);
    assert_eq!(plan.mode, WriteMode::Resume);
    assert_eq!(start_chunk(0, Some(plan.resume_index)), 1);
    assert_eq!(start_chunk(4, Some(1)), 1);
    assert_eq!(start_chunk(4, None), 4);
    assert_eq!(start_chunk(0, None), 0);
    let s = SendSession::begin(1, c as usize, size).ok().unwrap();
    assert_eq!(s.bytes_sent(), 1000);
    assert!(SendSession::begin(5, c as usize, size).is_err());
    let rx = ReceiveSession::new(&plan, size);
    assert_eq!(rx.bytes_received(), 1000);
}

#[test]
fn resume_is_refused_where_it_does_not_apply() {
    let fresh = plan_resume(TransferType::Folder, Some(10), 100, 7);
    assert_eq!((fresh.resume_index, fresh.keep_len, fresh.mode), (0, 0, WriteMode::Create));
    let p = plan_resume(TransferType::SingleFile, None, 100, 7);
    assert_eq!(p.mode, WriteMode::Create);
    let p = plan_resume(TransferType::SingleFile, Some(0), 100, 7);
    assert_eq!(p.mode, WriteMode::Create);
    let p = plan_resume(TransferType::SingleFile, Some(100), 100, 7);
    assert_eq!(p.mode, WriteMode::Create);
    let p = plan_resume(TransferType::SingleFile, Some(50), 100, 0);
    assert_eq!(p.mode, WriteMode::Create);
    let p = plan_resume(TransferType::SingleFile, Some(5), 100, 7);
    assert_eq!((p.resume_index, p.keep_len, p.mode), (0, 0, WriteMode::Resume));
}

#[test]
fn zero_byte_file_transfers() {
    let s = SendSession::begin(0, DEFAULT_CHUNK_SIZE, 0).ok().unwrap();
    assert_eq!(s.bytes_sent(), 0);
    assert_eq!(chunk_length(0, DEFAULT_CHUNK_SIZE as u64, 0), 0);
    let rx = ReceiveSession::new(&plan_resume(TransferType::SingleFile, None, 0, 1024), 0);
    assert!(rx.is_complete());
    let empty_sum = calculate_chunk_checksum(b"");
    assert!(matches!(verdict_outcome(Ok(final_verdict(&empty_sum, &empty_sum))), TransferResult::Success));
}

#[test]
fn whole_chunks_have_no_short_tail() {
    let c = 4096u64;
    for i in 0..5 {
        assert_eq!(chunk_length(5 * c, c, i), c);
    }
    assert_eq!(chunk_length(5 * c, c, 5), 0);
    assert_eq!(chunk_length(5 * c + 1, c, 5), 1);
    assert_eq!(div_ceil(5 * c, c), 5);
    assert_eq!(div_ceil(5 * c + 1, c), 6);
}

#[test]
fn file_metadata_chunks() {
    let m = FileMetadata::new("a.bin".to_string(), 2 * DEFAULT_CHUNK_SIZE as u64 + 100, DEFAULT_CHUNK_SIZE);
    assert_eq!(m.total_chunks, 3);
    let p = TransferProgress::snapshot(&m, m.size, 3, false);
    assert_eq!(p.state, TransferState::Completed);
    assert_eq!(TransferProgress::snapshot(&m, 10, 0, false).state, TransferState::Transferring);
    assert_eq!(TransferProgress::snapshot(&m, m.size, 3, true).state, TransferState::Cancelled);
}

#[test]
fn stream_layout_locates_offsets() {
    let l = StreamLayout::new(4, vec![3, 0, 2]).unwrap();
    assert_eq!(l.total_size(), 9);
    assert_eq!(l.locate(0), Location::Head(0));
    assert_eq!(l.locate(3), Location::Head(3));
    assert_eq!(l.locate(4), Location::File { index: 0, offset: 0 });
    assert_eq!(l.locate(6), Location::File { index: 0, offset: 2 });
    assert_eq!(l.locate(7), Location::File { index: 2, offset: 0 });
    assert_eq!(l.locate(9), Location::End);
    assert_eq!(l.remaining_in_segment(1), 3);
    assert_eq!(l.remaining_in_segment(5), 2);
    assert_eq!(l.seek(9), Some(9));
    assert_eq!(l.seek(10), None);
    assert!(StreamLayout::new(u64::MAX, vec![1]).is_none());
}

#[test]
fn folder_offer_size_and_checksum() {
    let json = br#"{"items":[{"path":"a.txt","size":1,"hash":"x"}],"total_size":1}"#.to_vec();
    let scan = SourceScan::Folder { manifest_json: json.clone(), sizes: vec![1, 2_500_000, 0], files: vec![] };
    let s = TcpFileSender::new("/data/tree", scan).unwrap();
    assert_eq!(s.file_size(), 4 + json.len() as u64 + 2_500_001);
    assert_eq!(s.checksum(), calculate_chunk_checksum(&json));
    assert_eq!(s.manifest_bytes(), &frame_manifest(&json));
    assert_eq!(s.file_name(), "tree");
    assert_eq!(s.transfer_type, TransferType::Folder);
    let h = s.handshake("me");
    assert_eq!(h.file_name, "tree");
    assert_eq!(h.file_size, s.file_size());
    assert!(matches!(TcpFileSender::new("/x", SourceScan::Missing), Err(SenderError::NotFound)));
    let over = SourceScan::Folder { manifest_json: vec![], sizes: vec![u64::MAX], files: vec![] };
    assert!(matches!(TcpFileSender::new("/x", over), Err(SenderError::SizeOverflow)));
    assert_eq!(folder_transfer_size(10, &[1, 2]), Some(17));
    assert_eq!(total_of(&[u64::MAX, 1]), None);
}

#[test]
fn sender_file_name_falls_back_to_unknown() {
    let scan = SourceScan::File { size: 1, checksum: "c".to_string() };
    let mut s = TcpFileSender::new("/", scan).unwrap();
    assert_eq!(s.file_name(), "unknown");
    s.set_chunk_size(512);
    s.set_resume_from(3);
    assert_eq!(s.chunk_size(), 512);
    assert_eq!(s.resume_from(), 3);
    s.cancel();
    assert!(s.is_cancelled());
    assert_eq!(s.handshake("me").chunk_size, 512);
}

fn apply(files: &mut Vec<Option<Vec<u8>>>, ops: &[FileOp], buf: &[u8]) {
    for op in ops {
        let bytes = &buf[op.start..op.end];
        if op.create {
            files[op.item] = Some(bytes.to_vec());
        } else {
            files[op.item].as_mut().unwrap().extend_from_slice(bytes);
        }
    }
}

#[test]
fn folder_stream_is_split_into_files() {
    let json = br#"{"items":[{"path":"a.txt","size":1,"hash":"h"},{"path":"sub/b.bin","size":2500000,"hash":"h"},{"path":"sub/empty.dat","size":0,"hash":"h"}],"total_size":2500001}"#.to_vec();
    let mut stream = frame_manifest(&json);
    stream.push(b'A');
    stream.extend(std::iter::repeat(0u8).take(2_500_000));

    let mut w = FolderWriter::new();
    let mut files: Vec<Option<Vec<u8>>> = vec![None, None, None];
    let chunk = 1 << 20;
    let mut pos = 0;
    while pos < stream.len() {
        let end = (pos + chunk).min(stream.len());
        let buf = &stream[pos..end];
        let mut from = 0;
        while from < buf.len() {
            let res = w.feed(buf, from).unwrap();
            apply(&mut files, &res.ops, buf);
            from = res.consumed_to;
            if w.phase() == WriterPhase::ManifestReady {
                assert_eq!(w.manifest_bytes(), &json);
                let ops = w.install_manifest(vec![1, 2_500_000, 0]);
                apply(&mut files, &ops, &[]);
            }
        }
        pos = end;
    }
    assert_eq!(w.manifest_checksum().unwrap(), calculate_chunk_checksum(&json));
    assert_eq!(files[0].as_deref(), Some(&b"A"[..]));
    assert_eq!(files[1].as_ref().unwrap().len(), 2_500_000);
    assert!(files[1].as_ref().unwrap().iter().all(|b| *b == 0));
    assert_eq!(files[2].as_deref(), Some(&b""[..]));
    let extra = w.feed(b"trailing", 0).unwrap();
    assert!(extra.ops.is_empty());
    assert_eq!(extra.consumed_to, 8);
}

#[test]
fn empty_folder_has_no_files() {
    let json = br#"{"items":[],"total_size":0}"#.to_vec();
    let stream = frame_manifest(&json);
    let mut w = FolderWriter::new();
    let res = w.feed(&stream, 0).unwrap();
    assert_eq!(res.consumed_to, stream.len());
    assert_eq!(w.phase(), WriterPhase::ManifestReady);
    assert!(matches!(w.feed(b"x", 0), Err(WriterError::ManifestPending)));
    let ops = w.install_manifest(vec![]);
    assert!(ops.is_empty());
    assert_eq!(w.phase(), WriterPhase::WritingFiles);
}

#[test]
fn oversized_manifest_is_refused() {
    let mut w = FolderWriter::new();
    let len = (MAX_MANIFEST_LEN + 1).to_be_bytes();
    assert!(matches!(w.feed(&len[..2], 0), Ok(_)));
    assert!(matches!(w.feed(&len, 2), Err(WriterError::ManifestTooLarge)));
    assert!(matches!(w.feed(b"x", 0), Err(WriterError::Stopped)));
}

#[test]
fn receiver_control_states() {
    let mut rc = ReceiverControl::new();
    assert_eq!(rc.state(), ReceiverState::Idle);
    assert!(rc.start());
    assert!(!rc.start());
    assert_eq!(rc.state(), ReceiverState::Listening);
    assert!(rc.accept().is_none());
    rc.stop();
    rc.stop();
    assert_eq!(rc.state(), ReceiverState::Idle);
    assert!(!rc.is_running());
}

#[test]
fn keepalive_packets() {
    let p = Packet::empty(PacketType::Ping);
    let bytes = p.encode();
    assert_eq!(bytes, vec![0xEF, 0xBE, 0xAD, 0xDE, 1, 0, 0, 0, 0]);
    let h = decode_header(&bytes).unwrap();
    assert_eq!(h.packet_type, PacketType::Ping);
    assert_eq!(h.payload_len, 0);
    assert_eq!(PacketType::from_u8(2), Some(PacketType::Pong));
    assert_eq!(PacketType::from_u8(8), None);
    let mut bad = bytes.clone();
    bad[4] = 9;
    assert_eq!(decode_header(&bad), Err(PacketError::InvalidType(9)));
    bad[0] = 0;
    assert_eq!(decode_header(&bad), Err(PacketError::InvalidMagic));
    assert_eq!(decode_header(&bytes[..8]), Err(PacketError::Incomplete));
    let mut big = MAGIC.to_le_bytes().to_vec();
    big.push(6);
    big.extend_from_slice(&(64 * 1024 * 1024 + 1u32).to_le_bytes());
    assert_eq!(decode_header(&big), Err(PacketError::PayloadTooLarge(64 * 1024 * 1024 + 1)));
}

#[test]
fn single_file_happy_path() {
    let content = b"Integration test content for VoidWarp transfer protocol mismatch fix.";
    let checksum = calculate_chunk_checksum(content);
    let scan = SourceScan::File { size: content.len() as u64, checksum: checksum.clone() };
    let mut sender = TcpFileSender::new("/tmp/source.txt", scan).unwrap();
    sender.set_chunk_size(20);

    // Offer travels to the receiver.
    let wire = sender.handshake("TestSender").to_bytes();
    let (offer, _) = HandshakeRequest::read_from(&wire).unwrap();
    assert_eq!(offer.file_size, content.len() as u64);
    let mut control = ReceiverControl::new();
    control.start();
    control.on_offer(voidwarp_core::receiver::IncomingTransfer {
        sender_name: offer.sender_name.clone(),
        sender_addr: voidwarp_core::discovery::SocketAddress {
            ip: voidwarp_core::discovery::IpAddress::V4([127, 0, 0, 1]),
            port: 50000,
        },
        file_name: offer.file_name.clone(),
        file_size: offer.file_size,
        chunk_size: offer.chunk_size,
        file_checksum: offer.file_checksum.clone(),
        transfer_type: offer.transfer_type,
    });
    assert_eq!(control.state(), ReceiverState::AwaitingAccept);
    let info = control.accept().unwrap();
    assert_eq!(control.state(), ReceiverState::Receiving);

    // Accepted, fresh file.
    assert!(decision_outcome(Ok(1)).is_none());
    let plan = plan_resume(info.transfer_type, None, info.file_size, info.chunk_size);
    assert_eq!(plan.resume_index, 0);
    let mut tx = SendSession::begin(start_chunk(0, Some(plan.resume_index)), sender.chunk_size(), sender.file_size()).ok().unwrap();
    let mut rx = ReceiveSession::new(&plan, info.file_size);
    let mut written = Vec::new();
    let mut chunks = 0;
    while !rx.is_complete() {
        let start = tx.bytes_sent() as usize;
        let end = (start + 20).min(content.len());
        let frame = encode_chunk_frame(tx.chunk_index(), &content[start..end]);
        let n = end - start;
        let h = decode_chunk_header(&frame[..12]).unwrap();
        let v = rx.on_chunk(h, &frame[12..12 + n], &frame[12 + n..]);
        assert!(v.commit);
        written.extend_from_slice(&frame[12..12 + n]);
        let (i, s) = decode_ack(&v.ack).unwrap();
        let outcome = if ack_confirms(tx.chunk_index(), i, s) { AttemptOutcome::Acked } else { AttemptOutcome::Nacked };
        assert!(matches!(tx.on_attempt(n, outcome), AttemptStep::Advance));
        chunks += 1;
    }
    assert_eq!(chunks, 4);
    assert!(tx.is_complete());
    assert_eq!(tx.next_len(), 0);
    assert!(matches!(tx.finish(Ok(1)), TransferResult::Success));
    assert_eq!(&written[..], &content[..]);
    let verdict = final_verdict(&calculate_chunk_checksum(&written), &info.file_checksum);
    control.finish(verdict == 1);
    assert_eq!(control.state(), ReceiverState::Completed);
    assert!(matches!(verdict_outcome(Ok(verdict)), TransferResult::Success));
    assert_eq!(calculate_chunk_checksum(&written), checksum);
}

#[test]
fn reject_path() {
    let data = vec![7u8; 1024];
    let scan = SourceScan::File { size: 1024, checksum: calculate_chunk_checksum(&data) };
    let sender = TcpFileSender::new("/tmp/one_kib.bin", scan).unwrap();
    let (offer, _) = HandshakeRequest::read_from(&sender.handshake("S").to_bytes()).unwrap();
    assert_eq!(offer.file_size, 1024);
    let mut control = ReceiverControl::new();
    control.start();
    control.on_offer(voidwarp_core::receiver::IncomingTransfer {
        sender_name: offer.sender_name,
        sender_addr: voidwarp_core::discovery::SocketAddress {
            ip: voidwarp_core::discovery::IpAddress::V4([127, 0, 0, 1]),
            port: 1,
        },
        file_name: offer.file_name,
        file_size: offer.file_size,
        chunk_size: offer.chunk_size,
        file_checksum: offer.file_checksum,
        transfer_type: offer.transfer_type,
    });
    assert!(control.reject().is_some());
    assert_eq!(control.state(), ReceiverState::Listening);
    assert!(control.is_running());
    assert!(matches!(decision_outcome(Ok(0)), Some(TransferResult::Rejected)));
}

#[test]
fn incomplete_send_cannot_succeed() {
    let mut s = SendSession::begin(0, 10, 25).ok().unwrap();
    assert_eq!(s.next_len(), 10);
    assert!(matches!(s.on_attempt(10, AttemptOutcome::Acked), AttemptStep::Advance));
    assert!(!s.is_complete());
    match s.finish(Ok(1)) {
        TransferResult::IoError(m) => assert_eq!(m, "Stream shorter than announced"),
        other => panic!("unexpected {:?}", other),
    }
    assert!(matches!(s.on_attempt(10, AttemptOutcome::Acked), AttemptStep::Advance));
    assert_eq!(s.next_len(), 5);
    assert!(matches!(s.on_attempt(5, AttemptOutcome::Acked), AttemptStep::Advance));
    assert!(s.is_complete());
    assert!(matches!(s.finish(Ok(0)), TransferResult::ChecksumMismatch));
}

#[test]
fn relative_paths_use_forward_slashes() {
    assert_eq!(to_slashes("sub\\dir\\b.bin"), "sub/dir/b.bin");
    assert_eq!(to_slashes("ü/ok"), "ü/ok");
    assert_eq!(to_slashes(""), "");
}

fn run_writer(stream: &[u8], cuts: &[usize], sizes: &[u64]) -> (Vec<Option<Vec<u8>>>, Option<String>) {
    let mut w = FolderWriter::new();
    let mut files: Vec<Option<Vec<u8>>> = vec![None; sizes.len()];
    let mut start = 0;
    for &end in cuts.iter().chain(std::iter::once(&stream.len())) {
        let buf = &stream[start..end];
        let mut from = 0;
        loop {
            let res = w.feed(buf, from).unwrap();
            apply(&mut files, &res.ops, buf);
            from = res.consumed_to;
            if w.phase() == WriterPhase::ManifestReady {
                let ops = w.install_manifest(sizes.to_vec());
                apply(&mut files, &ops, &[]);
            }
            if from == buf.len() {
                break;
            }
        }
        start = end;
    }
    (files, w.manifest_checksum())
}

#[test]
fn folder_stream_split_does_not_matter() {
    let json = br#"{"items":[{"path":"x","size":3,"hash":"h"},{"path":"e","size":0,"hash":"h"},{"path":"y","size":2,"hash":"h"}],"total_size":5}"#.to_vec();
    let mut stream = frame_manifest(&json);
    stream.extend_from_slice(b"abcde");
    let sizes = [3, 0, 2];
    let whole = run_writer(&stream, &[], &sizes);
    let bytewise: Vec<usize> = (1..stream.len()).collect();
    assert_eq!(run_writer(&stream, &bytewise, &sizes), whole);
    assert_eq!(run_writer(&stream, &[2, 4 + json.len(), stream.len() - 1], &sizes), whole);
    assert_eq!(whole.0, vec![Some(b"abc".to_vec()), Some(vec![]), Some(b"de".to_vec())]);
    assert_eq!(whole.1, Some(calculate_chunk_checksum(&json)));
}

#[test]
fn oversized_manifest_leaves_no_checksum() {
    let mut w = FolderWriter::new();
    let len = (MAX_MANIFEST_LEN + 1).to_be_bytes();
    assert!(matches!(w.feed(&len, 0), Err(WriterError::ManifestTooLarge)));
    assert_eq!(w.phase(), WriterPhase::Failed);
    assert!(w.manifest_checksum().is_none());
}
