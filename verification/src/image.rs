//! The image reader: parses and validates an executable image's header and
//! segment table out of a raw byte stream.
//!
//! Every multi-byte field is read little-endian through bounds-checked
//! accessors; nothing is ever reinterpreted from unchecked bytes.

use vstd::prelude::*;

use crate::errors::{BootError, ValidationFault};

verus! {

/// Size in bytes of the fixed image header at offset 0 of the stream.
pub const HEADER_LEN: usize = 64;

/// Length of the identity tag that opens the header.
pub const IDENT_LEN: usize = 16;

/// Number of bytes of a segment-table entry that carry the fields this
/// loader consumes; entries shorter than this cannot be parsed.
pub const SEGMENT_FIELDS_LEN: usize = 56;

/// The type tag that marks a segment as loadable; all other tags are
/// skipped without error.
pub const LOADABLE_TAG: u32 = 1;

/// The fields of the image header that the loader consumes.
#[derive(Clone, Copy, Debug, PartialEq, Eq, Structural)]
pub struct ImageHeader {
    /// Entry virtual address, treated as an offset into the load region.
    pub entry: u64,
    /// File offset of the segment table.
    pub segment_table_offset: u64,
    /// Size in bytes of one segment-table entry.
    pub segment_entry_size: u16,
    /// Number of entries in the segment table.
    pub segment_count: u16,
}

/// One entry of the segment table, in file order.
#[derive(Clone, Copy, Debug, PartialEq, Eq, Structural)]
pub struct SegmentDescriptor {
    /// Type tag; only `LOADABLE_TAG` is acted upon.
    pub seg_type: u32,
    /// Permission flags; carried through but not enforced by this loader.
    pub flags: u32,
    /// Offset of the segment's data in the byte stream.
    pub file_offset: u64,
    /// Placement of the segment, treated as an offset into the load region.
    pub virtual_address: u64,
    /// Number of bytes of the segment present in the file.
    pub file_size: u64,
    /// Total size of the segment in memory; the tail past `file_size` is
    /// zero-filled.
    pub memory_size: u64,
}

/// Whether a descriptor carries the loadable tag.
pub open spec fn is_loadable(seg: SegmentDescriptor) -> bool {
    seg.seg_type == LOADABLE_TAG
}

/// The little-endian value of the two bytes of `s` starting at `off`.
pub open spec fn le16(s: Seq<u8>, off: int) -> int {
    (s[off] as int) + 0x100 * (s[off + 1] as int)
}

/// The little-endian value of the four bytes of `s` starting at `off`.
pub open spec fn le32(s: Seq<u8>, off: int) -> int {
    (s[off] as int) + 0x100 * (s[off + 1] as int) + 0x1_0000 * (s[off + 2] as int) + 0x100_0000
        * (s[off + 3] as int)
}

/// The little-endian value of the eight bytes of `s` starting at `off`.
pub open spec fn le64(s: Seq<u8>, off: int) -> int {
    le32(s, off) + 0x1_0000_0000 * le32(s, off + 4)
}

/// Whether the first 16 bytes of `s` are the expected identity tag:
/// the format magic, a 64-bit word width, little-endian data, version 1,
/// and a zeroed ABI/padding tail.
pub open spec fn ident_matches(s: Seq<u8>) -> bool {
    &&& s[0] == 0x7fu8
    &&& s[1] == 0x45u8
    &&& s[2] == 0x4cu8
    &&& s[3] == 0x46u8
    &&& s[4] == 0x02u8
    &&& s[5] == 0x01u8
    &&& s[6] == 0x01u8
    &&& s[7] == 0x00u8
    &&& s[8] == 0x00u8
    &&& s[9] == 0x00u8
    &&& s[10] == 0x00u8
    &&& s[11] == 0x00u8
    &&& s[12] == 0x00u8
    &&& s[13] == 0x00u8
    &&& s[14] == 0x00u8
    &&& s[15] == 0x00u8
}

/// The header fields encoded in the first `HEADER_LEN` bytes of `s`.
pub open spec fn header_of(s: Seq<u8>) -> ImageHeader {
    ImageHeader {
        entry: le64(s, 24) as u64,
        segment_table_offset: le64(s, 32) as u64,
        segment_entry_size: le16(s, 54) as u16,
        segment_count: le16(s, 56) as u16,
    }
}

/// The segment descriptor encoded at offset `base` of `s`.
pub open spec fn segment_at(s: Seq<u8>, base: int) -> SegmentDescriptor {
    SegmentDescriptor {
        seg_type: le32(s, base) as u32,
        flags: le32(s, base + 4) as u32,
        file_offset: le64(s, base + 8) as u64,
        virtual_address: le64(s, base + 16) as u64,
        file_size: le64(s, base + 32) as u64,
        memory_size: le64(s, base + 40) as u64,
    }
}

/// Whether the header's segment table can be read in full from `s`: each
/// entry is large enough to carry the consumed fields, and the whole table
/// lies within the stream.
pub open spec fn table_well_formed(s: Seq<u8>) -> bool {
    let h = header_of(s);
    &&& (h.segment_count > 0 ==> h.segment_entry_size >= SEGMENT_FIELDS_LEN)
    &&& h.segment_table_offset + h.segment_count * h.segment_entry_size <= s.len()
}

/// The sequence of segment descriptors encoded by the stream `s`, in file
/// order.
pub open spec fn segments_of(s: Seq<u8>) -> Seq<SegmentDescriptor> {
    let h = header_of(s);
    Seq::new(
        h.segment_count as nat,
        |i: int| segment_at(s, h.segment_table_offset + i * h.segment_entry_size),
    )
}

/// Reads the little-endian 16-bit field of `stream` at `off`.
fn read_u16_le(stream: &Vec<u8>, off: usize) -> (r: u16)
    requires
        off + 2 <= stream@.len(),
    ensures
        r as int == le16(stream@, off as int),
{
    proof {
        assert(stream@.len() == stream.len());
    }
    let b0: u16 = stream[off] as u16;
    let b1: u16 = stream[off + 1] as u16;
    b0 + b1 * 0x100
}

/// Reads the little-endian 32-bit field of `stream` at `off`.
fn read_u32_le(stream: &Vec<u8>, off: usize) -> (r: u32)
    requires
        off + 4 <= stream@.len(),
    ensures
        r as int == le32(stream@, off as int),
{
    proof {
        assert(stream@.len() == stream.len());
    }
    let b0: u32 = stream[off] as u32;
    let b1: u32 = stream[off + 1] as u32;
    let b2: u32 = stream[off + 2] as u32;
    let b3: u32 = stream[off + 3] as u32;
    b0 + b1 * 0x100 + b2 * 0x1_0000 + b3 * 0x100_0000
}

/// Reads the little-endian 64-bit field of `stream` at `off`.
fn read_u64_le(stream: &Vec<u8>, off: usize) -> (r: u64)
    requires
        off + 8 <= stream@.len(),
    ensures
        r as int == le64(stream@, off as int),
{
    proof {
        assert(stream@.len() == stream.len());
    }
    let lo: u64 = read_u32_le(stream, off) as u64;
    let hi: u64 = read_u32_le(stream, off + 4) as u64;
    lo + hi * 0x1_0000_0000
}

/// Compares the stream's first 16 bytes with the expected identity tag.
fn check_ident(stream: &Vec<u8>) -> (r: bool)
    requires
        stream@.len() >= IDENT_LEN,
    ensures
        r == ident_matches(stream@),
{
    stream[0] == 0x7f && stream[1] == 0x45 && stream[2] == 0x4c && stream[3] == 0x46
        && stream[4] == 0x02 && stream[5] == 0x01 && stream[6] == 0x01 && stream[7] == 0x00
        && stream[8] == 0x00 && stream[9] == 0x00 && stream[10] == 0x00 && stream[11] == 0x00
        && stream[12] == 0x00 && stream[13] == 0x00 && stream[14] == 0x00 && stream[15] == 0x00
}

/// Parses the image header and segment table out of `stream`.
///
/// Fails with `FormatError` when the stream is shorter than a header, or the
/// header describes a segment table that cannot be read in full; fails with
/// `ValidationError(InvalidMagic)` when the identity tag does not match.
/// On success the descriptors come back in file order, with no further
/// semantic validation.
pub fn read_image(stream: &Vec<u8>) -> (r: Result<(ImageHeader, Vec<SegmentDescriptor>), BootError>)
    ensures
        stream@.len() < HEADER_LEN ==> r == Err::<(ImageHeader, Vec<SegmentDescriptor>), BootError>(
            BootError::FormatError,
        ),
        stream@.len() >= HEADER_LEN && !ident_matches(stream@) ==> r == Err::<
            (ImageHeader, Vec<SegmentDescriptor>),
            BootError,
        >(BootError::ValidationError(ValidationFault::InvalidMagic)),
        stream@.len() >= HEADER_LEN && ident_matches(stream@) && !table_well_formed(stream@)
            ==> r == Err::<(ImageHeader, Vec<SegmentDescriptor>), BootError>(
            BootError::FormatError,
        ),
        stream@.len() >= HEADER_LEN && ident_matches(stream@) && table_well_formed(stream@) ==> ({
            &&& r matches Ok(out)
            &&& out.0 == header_of(stream@)
            &&& out.1@ == segments_of(stream@)
        }),
{
    if stream.len() < HEADER_LEN {
        return Err(BootError::FormatError);
    }
    if !check_ident(stream) {
        return Err(BootError::ValidationError(ValidationFault::InvalidMagic));
    }
    let entry: u64 = read_u64_le(stream, 24);
    let table_offset: u64 = read_u64_le(stream, 32);
    let entry_size: u16 = read_u16_le(stream, 54);
    let count: u16 = read_u16_le(stream, 56);
    let header = ImageHeader {
        entry,
        segment_table_offset: table_offset,
        segment_entry_size: entry_size,
        segment_count: count,
    };
    assert(header == header_of(stream@));

    if count > 0 && (entry_size as usize) < SEGMENT_FIELDS_LEN {
        return Err(BootError::FormatError);
    }
    proof {
        assert((count as int) * (entry_size as int) <= 0xffff * 0xffff) by (nonlinear_arith)
            requires
                count as int <= 0xffff,
                entry_size as int <= 0xffff,
                count as int >= 0,
                entry_size as int >= 0,
        ;
    }
    let table_len: u64 = (count as u64) * (entry_size as u64);
    let stream_len: u64 = stream.len() as u64;
    if table_offset > stream_len || table_len > stream_len - table_offset {
        return Err(BootError::FormatError);
    }
    assert(table_well_formed(stream@));

    let mut segments: Vec<SegmentDescriptor> = Vec::new();
    let mut i: usize = 0;
    while i < count as usize
        invariant
            i <= count as usize,
            stream@.len() >= HEADER_LEN,
            header == header_of(stream@),
            header.segment_table_offset == table_offset,
            header.segment_entry_size == entry_size,
            header.segment_count == count,
            count > 0 ==> entry_size as usize >= SEGMENT_FIELDS_LEN,
            table_offset + count * entry_size <= stream@.len(),
            segments@ == segments_of(stream@).take(i as int),
        decreases count as usize - i,
    {
        proof {
            assert(0 <= i * (entry_size as int) && i * (entry_size as int) + (entry_size as int)
                <= (count as int) * (entry_size as int)) by (nonlinear_arith)
                requires
                    0 <= i < count as int,
                    entry_size as int >= 0,
            ;
            assert(stream@.len() == stream.len());
        }
        let base64: u64 = table_offset + (i as u64) * (entry_size as u64);
        assert(base64 + SEGMENT_FIELDS_LEN <= stream@.len());
        let base: usize = base64 as usize;
        let seg = SegmentDescriptor {
            seg_type: read_u32_le(stream, base),
            flags: read_u32_le(stream, base + 4),
            file_offset: read_u64_le(stream, base + 8),
            virtual_address: read_u64_le(stream, base + 16),
            file_size: read_u64_le(stream, base + 32),
            memory_size: read_u64_le(stream, base + 40),
        };
        assert(seg == segments_of(stream@)[i as int]);
        segments.push(seg);
        proof {
            assert(segments@ =~= segments_of(stream@).take(i + 1));
        }
        i = i + 1;
    }
    proof {
        assert(segments@ =~= segments_of(stream@));
    }
    Ok((header, segments))
}

} // verus!
