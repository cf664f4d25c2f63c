use oxidize::errors::{BootError, ValidationFault};
use oxidize::image::{read_image, SegmentDescriptor, LOADABLE_TAG};
use oxidize::loader::{load_kernel_image, load_segments, page_count, LoadRegion, PAGE_SIZE};

const HEADER_LEN: usize = 64;
const ENTRY_LEN: usize = 56;

/// A 64-byte header with the expected identity tag and the given fields.
fn build_header(entry: u64, table_offset: u64, entry_size: u16, count: u16) -> Vec<u8> {
    let mut h = vec![0u8; HEADER_LEN];
    let ident: [u8; 16] = [0x7f, 0x45, 0x4c, 0x46, 2, 1, 1, 0, 0, 0, 0, 0, 0, 0, 0, 0];
    h[..16].copy_from_slice(&ident);
    h[24..32].copy_from_slice(&entry.to_le_bytes());
    h[32..40].copy_from_slice(&table_offset.to_le_bytes());
    h[54..56].copy_from_slice(&entry_size.to_le_bytes());
    h[56..58].copy_from_slice(&count.to_le_bytes());
    h
}

/// One 56-byte segment-table entry.
fn entry_bytes(
    seg_type: u32,
    flags: u32,
    file_offset: u64,
    vaddr: u64,
    file_size: u64,
    memory_size: u64,
) -> Vec<u8> {
    let mut e = vec![0u8; ENTRY_LEN];
    e[0..4].copy_from_slice(&seg_type.to_le_bytes());
    e[4..8].copy_from_slice(&flags.to_le_bytes());
    e[8..16].copy_from_slice(&file_offset.to_le_bytes());
    e[16..24].copy_from_slice(&vaddr.to_le_bytes());
    e[32..40].copy_from_slice(&file_size.to_le_bytes());
    e[40..48].copy_from_slice(&memory_size.to_le_bytes());
    e
}

fn unwrap_region(r: Result<LoadRegion, BootError>) -> LoadRegion {
    match r {
        Ok(region) => region,
        Err(e) => panic!("expected a region, got {:?}", e),
    }
}

#[test]
fn short_stream_fails_format() {
    for len in [0usize, 1, 15, 16, 63] {
        let stream = vec![0x7fu8; len];
        let r = read_image(&stream);
        assert_eq!(r.err(), Some(BootError::FormatError));
    }
}

#[test]
fn bad_magic_fails_validation() {
    // A correct header, then each identity byte broken in turn: the rest of
    // the content never matters.
    for i in 0..16 {
        let mut stream = build_header(0, 64, 56, 0);
        stream[i] ^= 0xff;
        let r = read_image(&stream);
        assert_eq!(
            r.err(),
            Some(BootError::ValidationError(ValidationFault::InvalidMagic))
        );
    }
}

#[test]
fn header_fields_parsed() {
    let stream = build_header(0x1122_3344_5566_7788, 64, 56, 0);
    let (header, segments) = read_image(&stream).expect("a segment-free image parses");
    assert_eq!(header.entry, 0x1122_3344_5566_7788);
    assert_eq!(header.segment_table_offset, 64);
    assert_eq!(header.segment_entry_size, 56);
    assert_eq!(header.segment_count, 0);
    assert!(segments.is_empty());
}

#[test]
fn segment_fields_parsed() {
    let mut stream = build_header(0, 64, 56, 1);
    stream.extend_from_slice(&entry_bytes(LOADABLE_TAG, 5, 120, 16, 3, 8));
    let (_, segments) = read_image(&stream).expect("a well-formed table parses");
    assert_eq!(segments.len(), 1);
    let seg = segments[0];
    assert_eq!(seg.seg_type, LOADABLE_TAG);
    assert_eq!(seg.flags, 5);
    assert_eq!(seg.file_offset, 120);
    assert_eq!(seg.virtual_address, 16);
    assert_eq!(seg.file_size, 3);
    assert_eq!(seg.memory_size, 8);
}

#[test]
fn table_past_stream_end_fails_format() {
    // The header promises one entry but the stream ends with the header.
    let stream = build_header(0, 64, 56, 1);
    assert_eq!(read_image(&stream).err(), Some(BootError::FormatError));
}

#[test]
fn undersized_table_entries_fail_format() {
    let mut stream = build_header(0, 64, 8, 1);
    stream.extend_from_slice(&[0u8; 8]);
    assert_eq!(read_image(&stream).err(), Some(BootError::FormatError));
}

#[test]
fn single_segment_loaded_and_zero_filled() {
    // One loadable segment: file size 5, memory size 9, placed at offset 3.
    let pattern: [u8; 5] = [0xde, 0xad, 0xbe, 0xef, 0x99];
    let mut stream = build_header(0, 64, 56, 1);
    stream.extend_from_slice(&entry_bytes(LOADABLE_TAG, 0, 120, 3, 5, 9));
    stream.extend_from_slice(&pattern);
    let (_, segments) = read_image(&stream).expect("image parses");
    let region = unwrap_region(load_segments(&stream, &segments));
    assert_eq!(region.data.len(), PAGE_SIZE as usize);
    assert_eq!(&region.data[3..8], &pattern);
    assert_eq!(&region.data[8..12], &[0, 0, 0, 0]);
    assert!(region.data[..3].iter().all(|&b| b == 0));
    assert!(region.data[12..].iter().all(|&b| b == 0));
}

#[test]
fn no_loadable_segments_fails() {
    let mut stream = build_header(0, 64, 56, 2);
    stream.extend_from_slice(&entry_bytes(2, 0, 0, 0, 0, 16));
    stream.extend_from_slice(&entry_bytes(7, 0, 0, 0, 0, 16));
    let (_, segments) = read_image(&stream).expect("image parses");
    let r = load_segments(&stream, &segments);
    assert_eq!(r.err(), Some(BootError::NoLoadableSegments));
}

#[test]
fn zero_sized_loadable_segment_fails() {
    let mut stream = build_header(0, 64, 56, 1);
    stream.extend_from_slice(&entry_bytes(LOADABLE_TAG, 0, 0, 0, 0, 0));
    let (_, segments) = read_image(&stream).expect("image parses");
    let r = load_segments(&stream, &segments);
    assert_eq!(r.err(), Some(BootError::EmptyLoadSize));
}

#[test]
fn truncated_segment_fails() {
    // The descriptor claims 100 file bytes; the stream holds 4.
    let mut stream = build_header(0, 64, 56, 1);
    stream.extend_from_slice(&entry_bytes(LOADABLE_TAG, 0, 120, 0, 100, 100));
    stream.extend_from_slice(&[1, 2, 3, 4]);
    let (_, segments) = read_image(&stream).expect("image parses");
    let r = load_segments(&stream, &segments);
    assert_eq!(r.err(), Some(BootError::TruncatedSegment));
}

#[test]
fn two_segments_order_independent() {
    // Two non-overlapping loadable segments; swapping their table entries
    // must leave the loaded region byte-identical.
    let pat_a: [u8; 4] = [0x11, 0x22, 0x33, 0x44];
    let pat_b: [u8; 3] = [0xaa, 0xbb, 0xcc];
    let entry_a = entry_bytes(LOADABLE_TAG, 0, 176, 0, 4, 8);
    let entry_b = entry_bytes(LOADABLE_TAG, 0, 180, 100, 3, 3);

    let mut first = build_header(0, 64, 56, 2);
    first.extend_from_slice(&entry_a);
    first.extend_from_slice(&entry_b);
    first.extend_from_slice(&pat_a);
    first.extend_from_slice(&pat_b);

    let mut second = build_header(0, 64, 56, 2);
    second.extend_from_slice(&entry_b);
    second.extend_from_slice(&entry_a);
    second.extend_from_slice(&pat_a);
    second.extend_from_slice(&pat_b);

    let (_, segs_first) = read_image(&first).expect("image parses");
    let (_, segs_second) = read_image(&second).expect("image parses");
    let region_first = unwrap_region(load_segments(&first, &segs_first));
    let region_second = unwrap_region(load_segments(&second, &segs_second));

    assert_eq!(region_first.data, region_second.data);
    assert_eq!(&region_first.data[0..4], &pat_a);
    assert!(region_first.data[4..8].iter().all(|&b| b == 0));
    assert_eq!(&region_first.data[100..103], &pat_b);
    assert_eq!(region_first.data.len(), PAGE_SIZE as usize);
}

#[test]
fn page_count_is_exact() {
    assert_eq!(page_count(0), 0);
    assert_eq!(page_count(1), 1);
    assert_eq!(page_count(4095), 1);
    assert_eq!(page_count(4096), 1);
    assert_eq!(page_count(4097), 2);
    assert_eq!(page_count(3 * 4096 + 1), 4);
}

#[test]
fn multi_page_region() {
    // A segment of one page plus one byte needs two pages.
    let mut stream = build_header(0, 64, 56, 1);
    stream.extend_from_slice(&entry_bytes(LOADABLE_TAG, 0, 120, 0, 1, 4097));
    stream.push(0x42);
    let (_, segments) = read_image(&stream).expect("image parses");
    let region = unwrap_region(load_segments(&stream, &segments));
    assert_eq!(region.data.len(), 2 * PAGE_SIZE as usize);
    assert_eq!(region.data[0], 0x42);
    assert!(region.data[1..].iter().all(|&b| b == 0));
}

#[test]
fn descriptors_built_by_hand_load_alike() {
    // load_segments judges descriptors, not provenance: a table built in
    // memory behaves as one parsed from a stream.
    let mut stream = vec![0u8; 16];
    stream[8..12].copy_from_slice(&[9, 8, 7, 6]);
    let segments = vec![SegmentDescriptor {
        seg_type: LOADABLE_TAG,
        flags: 0,
        file_offset: 8,
        virtual_address: 0,
        file_size: 4,
        memory_size: 4,
    }];
    let region = unwrap_region(load_segments(&stream, &segments));
    assert_eq!(&region.data[0..4], &[9, 8, 7, 6]);
}

#[test]
fn load_kernel_image_reports_entry() {
    let pattern: [u8; 2] = [0xf4, 0xeb];
    let mut stream = build_header(0x40, 64, 56, 1);
    stream.extend_from_slice(&entry_bytes(LOADABLE_TAG, 0, 120, 0x40, 2, 2));
    stream.extend_from_slice(&pattern);
    let (region, entry) = match load_kernel_image(&stream) {
        Ok(out) => out,
        Err(e) => panic!("expected a loaded image, got {:?}", e),
    };
    assert_eq!(entry, 0x40);
    assert_eq!(&region.data[0x40..0x42], &pattern);
}

#[test]
fn load_kernel_image_passes_reader_errors_through() {
    let r = load_kernel_image(&vec![0u8; 32]);
    assert!(matches!(r, Err(BootError::FormatError)));
    let mut bad = build_header(0, 64, 56, 0);
    bad[0] = 0;
    let r = load_kernel_image(&bad);
    assert!(matches!(
        r,
        Err(BootError::ValidationError(ValidationFault::InvalidMagic))
    ));
}
