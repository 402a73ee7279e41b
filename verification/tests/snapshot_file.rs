use quick_resume::restore::reader::{
    check_lengths, deserialize_payload, peek_snapshot_header, read_snapshot,
    read_snapshot_checked, unpack, SnapshotHeader,
};
use quick_resume::snapshot::memory::MemoryRegion;
use quick_resume::snapshot::threads::ThreadSnapshot;
use quick_resume::snapshot::writer::{
    build_payload, can_write, frame, payload_at, write_snapshot, SnapshotPayload, HEADER_SIZE,
};
use quick_resume::util::error::QuickResumeError;

fn sample() -> SnapshotPayload {
    SnapshotPayload {
        process_name: String::from("G\u{E9}.exe"),
        pid: 0x0102_0304,
        is_wow64: true,
        timestamp_ms: 1_700_000_000_123,
        memory_regions: vec![
            MemoryRegion {
                base_address: 0x10_0000,
                size: 4096,
                protect: 4,
                region_type: 0x2_0000,
                data: vec![1, 2, 3],
            },
            MemoryRegion {
                base_address: 0x7FFF_0000_0000,
                size: 5,
                protect: 0x40,
                region_type: 0x100_0000,
                data: vec![],
            },
        ],
        thread_snapshots: vec![ThreadSnapshot { tid: 77, context_bytes: vec![9, 8] }],
    }
}

/// The serialized form of `sample`, field by field.
fn sample_bytes() -> Vec<u8> {
    let mut b: Vec<u8> = Vec::new();
    b.extend(7u64.to_le_bytes());
    b.extend("G\u{E9}.exe".as_bytes());
    b.extend(0x0102_0304u32.to_le_bytes());
    b.push(1);
    b.extend(1_700_000_000_123u64.to_le_bytes());
    b.extend(2u64.to_le_bytes());
    b.extend(0x10_0000u64.to_le_bytes());
    b.extend(4096u64.to_le_bytes());
    b.extend(4u32.to_le_bytes());
    b.extend(0x2_0000u32.to_le_bytes());
    b.extend(3u64.to_le_bytes());
    b.extend([1, 2, 3]);
    b.extend(0x7FFF_0000_0000u64.to_le_bytes());
    b.extend(5u64.to_le_bytes());
    b.extend(0x40u32.to_le_bytes());
    b.extend(0x100_0000u32.to_le_bytes());
    b.extend(0u64.to_le_bytes());
    b.extend(1u64.to_le_bytes());
    b.extend(77u32.to_le_bytes());
    b.extend(2u64.to_le_bytes());
    b.extend([9, 8]);
    b
}

fn assert_same(a: &SnapshotPayload, b: &SnapshotPayload) {
    assert_eq!(format!("{:?}", a), format!("{:?}", b));
}

fn other_text<T: std::fmt::Debug>(r: Result<T, QuickResumeError>) -> String {
    match r {
        Err(QuickResumeError::Other(text)) => text,
        other => panic!("{:?}", other),
    }
}

#[test]
fn file_has_the_documented_layout() {
    let payload = sample();
    assert!(can_write(&payload));
    let file = write_snapshot(&payload).unwrap();
    let raw = sample_bytes();
    assert_eq!(HEADER_SIZE, 24);
    assert_eq!(&file.bytes[0..4], b"QRSV");
    assert_eq!(file.bytes[4..8], 1u32.to_le_bytes());
    assert_eq!(file.bytes[8..16], 1_700_000_000_123u64.to_le_bytes());
    assert_eq!(file.bytes[16..24], (raw.len() as u64).to_le_bytes());
    assert_eq!(file.bytes[24..28], (raw.len() as u32).to_le_bytes());
    assert_eq!(file.raw_size, raw.len() as u64);
    assert_eq!(file.compressed_size, file.bytes.len() as u64 - 24);
    assert_eq!(
        lz4_flex::block::decompress_size_prepended(&file.bytes[24..]).unwrap(),
        raw
    );
}

#[test]
fn reading_gives_back_what_was_written() {
    let payload = sample();
    let file = write_snapshot(&payload).unwrap();
    assert_same(&read_snapshot(&file.bytes).unwrap(), &payload);
    assert_same(&read_snapshot_checked(&file.bytes).unwrap().unwrap(), &payload);
}

#[test]
fn an_empty_payload_comes_back() {
    let payload = payload_at(None, "", 0, false, vec![], vec![]);
    assert_eq!(payload.timestamp_ms, 0);
    let file = write_snapshot(&payload).unwrap();
    assert_eq!(file.raw_size, 37);
    assert_same(&read_snapshot(&file.bytes).unwrap(), &payload);
}

#[test]
fn a_large_compressible_payload_shrinks_and_comes_back() {
    let region = MemoryRegion {
        base_address: 0,
        size: 3_000_000,
        protect: 4,
        region_type: 0x2_0000,
        data: vec![0u8; 3_000_000],
    };
    let payload = payload_at(Some(5), "a.exe", 1, false, vec![region], vec![]);
    let file = write_snapshot(&payload).unwrap();
    assert!(file.compressed_size < 100_000);
    assert_same(&read_snapshot_checked(&file.bytes).unwrap().unwrap(), &payload);
}

#[test]
fn an_incompressible_payload_comes_back() {
    let mut x: u32 = 12345;
    let mut data: Vec<u8> = Vec::new();
    for _ in 0..200_000 {
        x = x.wrapping_mul(1_664_525).wrapping_add(1_013_904_223);
        data.push((x >> 24) as u8);
    }
    let region = MemoryRegion {
        base_address: 4096,
        size: data.len(),
        protect: 4,
        region_type: 0x4_0000,
        data,
    };
    let payload = payload_at(Some(5), "a.exe", 1, false, vec![region], vec![]);
    let file = write_snapshot(&payload).unwrap();
    assert_same(&read_snapshot_checked(&file.bytes).unwrap().unwrap(), &payload);
}

#[test]
fn built_payload_keeps_its_parts_and_is_stamped() {
    let p = build_payload("x.exe", 9, true, sample().memory_regions, sample().thread_snapshots);
    assert_eq!(p.process_name, "x.exe");
    assert_eq!(p.pid, 9);
    assert!(p.is_wow64);
    assert_eq!(p.memory_regions.len(), 2);
    assert_eq!(p.thread_snapshots[0].tid, 77);
    // Later than the start of 2020, sooner than the year 2200.
    assert!(p.timestamp_ms > 1_577_836_800_000 && p.timestamp_ms < 7_258_118_400_000);
}

#[test]
fn timestamp_is_the_low_half_of_the_clock() {
    let p = payload_at(Some((3u128 << 64) + 42), "x", 1, false, vec![], vec![]);
    assert_eq!(p.timestamp_ms, 42);
}

#[test]
fn short_files_end_unexpectedly() {
    let file = write_snapshot(&sample()).unwrap().bytes;
    for n in [0usize, 1, 3, 4, 7, 8, 16, 23] {
        match read_snapshot(&file[..n]) {
            Err(QuickResumeError::Io(text)) => assert_eq!(text, "failed to fill whole buffer"),
            other => panic!("{} {:?}", n, other),
        }
    }
}

#[test]
fn wrong_magic_is_reported() {
    let mut file = write_snapshot(&sample()).unwrap().bytes;
    for i in 0..4 {
        file[i] ^= 1;
        assert!(matches!(
            read_snapshot(&file),
            Err(QuickResumeError::InvalidSnapshotMagic)
        ));
        assert!(matches!(
            peek_snapshot_header(&file, file.len() as u64),
            Err(QuickResumeError::InvalidSnapshotMagic)
        ));
        file[i] ^= 1;
    }
    assert!(matches!(
        read_snapshot(b"QRSW"),
        Err(QuickResumeError::InvalidSnapshotMagic)
    ));
}

#[test]
fn another_version_is_reported() {
    let mut file = write_snapshot(&sample()).unwrap().bytes;
    file[4] = 2;
    assert!(matches!(
        read_snapshot(&file),
        Err(QuickResumeError::UnsupportedVersion(2))
    ));
    assert!(matches!(
        read_snapshot(&file[..8]),
        Err(QuickResumeError::UnsupportedVersion(2))
    ));
    assert_eq!(peek_snapshot_header(&file, 100).unwrap().version, 2);
}

#[test]
fn a_wrong_size_is_reported() {
    let mut file = write_snapshot(&sample()).unwrap().bytes;
    let n = sample_bytes().len();
    file[16..24].copy_from_slice(&((n + 24) as u64).to_le_bytes());
    assert_eq!(
        other_text(read_snapshot(&file)),
        format!("Size mismatch: expected {} bytes, got {}", n + 24, n)
    );
}

#[test]
fn a_promise_beyond_32_bits_is_refused() {
    let mut file = write_snapshot(&sample()).unwrap().bytes;
    let n = sample_bytes().len() as u64;
    let promised = n + (1u64 << 32);
    file[16..24].copy_from_slice(&promised.to_le_bytes());
    assert_eq!(file[24..28], (promised as u32).to_le_bytes());
    assert_eq!(
        other_text(read_snapshot(&file)),
        format!("Size mismatch: expected {} bytes, got {}", promised, n)
    );
    assert_eq!(
        other_text(read_snapshot_checked(&file).unwrap()),
        format!("Size mismatch: expected {} bytes, got {}", promised, n)
    );
}

#[test]
fn a_damaged_block_is_reported_in_the_decoders_words() {
    let mut file = write_snapshot(&sample()).unwrap().bytes;
    file[24] = file[24] - 24;
    let words = lz4_flex::block::decompress_size_prepended(&file[24..])
        .unwrap_err()
        .to_string();
    assert_eq!(
        other_text(read_snapshot(&file)),
        format!("LZ4 decompress failed: {}", words)
    );
    assert_eq!(
        other_text(unpack(Err(String::from("broken")), 5)),
        "LZ4 decompress failed: broken"
    );
}

#[test]
fn unpacking_checks_the_size_first() {
    assert_eq!(
        other_text(unpack(Ok(vec![0, 0]), 3)),
        "Size mismatch: expected 3 bytes, got 2"
    );
    assert!(matches!(
        unpack(Ok(vec![0, 0]), 2),
        Err(QuickResumeError::Serialize(_))
    ));
    assert_same(&unpack(Ok(sample_bytes()), sample_bytes().len()).unwrap(), &sample());
}

#[test]
fn bytes_that_begin_with_no_payload_are_refused() {
    let raw = sample_bytes();
    assert!(matches!(
        deserialize_payload(&raw[..raw.len() - 1]),
        Err(QuickResumeError::Serialize(_))
    ));
    let mut bad_flag = raw.clone();
    bad_flag[8 + 7 + 4] = 2;
    assert!(matches!(
        deserialize_payload(&bad_flag),
        Err(QuickResumeError::Serialize(_))
    ));
    let mut bad_name = raw.clone();
    bad_name[9] = 0xFF;
    assert!(matches!(
        deserialize_payload(&bad_name),
        Err(QuickResumeError::Serialize(_))
    ));
    let file = frame(0, &bad_name);
    assert!(matches!(
        read_snapshot(&file.bytes),
        Err(QuickResumeError::Serialize(_))
    ));
}

#[test]
fn bytes_behind_the_payload_are_ignored() {
    let mut raw = sample_bytes();
    raw.extend([5, 5, 5]);
    assert_same(&deserialize_payload(&raw).unwrap(), &sample());
}

#[test]
fn header_can_be_shown_alone() {
    let file = write_snapshot(&sample()).unwrap();
    let header = peek_snapshot_header(&file.bytes[..24], file.bytes.len() as u64).unwrap();
    assert_eq!(
        header,
        SnapshotHeader {
            version: 1,
            timestamp_ms: 1_700_000_000_123,
            uncompressed_size: file.raw_size,
            compressed_size: file.compressed_size,
        }
    );
    for n in [0usize, 3, 4, 23] {
        assert!(matches!(
            peek_snapshot_header(&file.bytes[..n], n as u64),
            Err(QuickResumeError::Io(_))
        ));
    }
}

#[test]
fn lengths_beyond_the_decoder_are_found() {
    // Literals whose length takes 17 million bytes to write.
    let mut long = vec![1u8, 0, 0, 0, 0xF0];
    long.resize(17_000_000, 255);
    assert!(!check_lengths(&long));
    let mut file = write_snapshot(&sample()).unwrap().bytes;
    file.truncate(24);
    file.extend(&long);
    assert!(read_snapshot_checked(&file).is_none());

    // A match whose length does.
    let mut repeat = vec![1u8, 0, 0, 0, 0x1F, 65, 1, 0];
    repeat.resize(17_000_000, 255);
    assert!(!check_lengths(&repeat));

    // The same bytes as literals are harmless.
    let mut literal = vec![1u8, 0, 0, 0, 0xF0];
    let n: usize = 17_000_000;
    literal.resize(5 + (n - 15) / 255, 255);
    literal.push(((n - 15) % 255) as u8);
    literal.resize(literal.len() + n, 255);
    assert!(check_lengths(&literal));

    assert!(check_lengths(&[]));
    assert!(check_lengths(&[0, 0, 0]));
    assert!(check_lengths(&[0, 0, 0, 0, 0xFF]));
}

/// A file with a sound header and this block behind the size of its output.
fn file_with_block(size: u32, block: &[u8]) -> Vec<u8> {
    let mut file = write_snapshot(&sample()).unwrap().bytes;
    file.truncate(24);
    file.extend(size.to_le_bytes());
    file.extend(block);
    file
}

#[test]
fn long_lengths_behind_the_decoders_stop_do_not_matter() {
    let tail = {
        let mut tail = vec![0xF0u8];
        tail.resize(17_000_000, 255);
        tail
    };
    // The decoder stops before the tail: at an offset of 0, at an offset before
    // the output, at literals or at a match that the output has no room for.
    let stops: Vec<(u32, Vec<u8>, &str)> = vec![
        (100, vec![0x10, 65, 0, 0], "0 is not a valid match offset"),
        (
            100,
            vec![0x10, 65, 2, 0],
            "the offset to copy is not contained in the decompressed buffer",
        ),
        (
            1,
            vec![0x20, 65, 65, 1, 0],
            "provided output is too small for the decompressed data, actual 1, expected 2",
        ),
        (
            3,
            vec![0x10, 65, 1, 0],
            "provided output is too small for the decompressed data, actual 3, expected 5",
        ),
    ];
    for (size, mut block, words) in stops {
        block.extend(&tail);
        let file = file_with_block(size, &block);
        assert_eq!(
            other_text(read_snapshot_checked(&file).unwrap()),
            format!("LZ4 decompress failed: {}", words)
        );
        assert_eq!(
            other_text(read_snapshot(&file)),
            format!("LZ4 decompress failed: {}", words)
        );
    }
    // Without a stop the decoder comes to the tail.
    let mut block = vec![0x10, 65, 1, 0];
    block.extend(&tail);
    assert!(read_snapshot_checked(&file_with_block(100, &block)).is_none());
}

#[test]
fn the_longest_length_is_still_read() {
    // 16,843,009 bytes 255 and a byte 0 add up to 2^32 - 1.
    let mut block = vec![0xF0u8];
    block.resize(1 + 16_843_009, 255);
    block.push(0);
    let file = file_with_block(1, &block);
    assert_eq!(
        other_text(read_snapshot_checked(&file).unwrap()),
        "LZ4 decompress failed: literal is out of bounds of the input"
    );
    block.pop();
    block.push(1);
    assert!(read_snapshot_checked(&file_with_block(1, &block)).is_none());
}

#[test]
fn a_block_without_its_size_is_reported() {
    let mut file = write_snapshot(&sample()).unwrap().bytes;
    file.truncate(27);
    assert_eq!(
        other_text(read_snapshot(&file)),
        "LZ4 decompress failed: expected another byte, found none"
    );
}

#[test]
fn files_of_one_payload_are_alike() {
    let a = write_snapshot(&sample()).unwrap();
    let b = write_snapshot(&sample()).unwrap();
    assert_eq!(a.bytes[..24], b.bytes[..24]);
    assert_eq!(a.raw_size, b.raw_size);
    assert_same(&read_snapshot(&a.bytes).unwrap(), &read_snapshot(&b.bytes).unwrap());
    let mut later = b.bytes;
    later[8..16].copy_from_slice(&u64::MAX.to_le_bytes());
    assert_same(&read_snapshot(&a.bytes).unwrap(), &read_snapshot(&later).unwrap());
}

#[test]
fn damaged_files_are_refused_as_the_decoder_refuses_them() {
    let file = write_snapshot(&sample()).unwrap().bytes;
    for i in 24..file.len() {
        let mut damaged = file.clone();
        damaged[i] ^= 0x55;
        let expected = lz4_flex::block::decompress_size_prepended(&damaged[24..]);
        match (read_snapshot_checked(&damaged).unwrap(), expected) {
            (Err(QuickResumeError::Other(text)), Err(e)) => {
                assert_eq!(text, format!("LZ4 decompress failed: {}", e))
            }
            (_, Ok(_)) => {}
            (other, Err(e)) => panic!("{:?} {:?}", other, e),
        }
    }
}
