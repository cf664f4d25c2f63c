//! The segment loader: computes the memory footprint of an image's loadable
//! segments and materializes them into a page-granular region.
//!
//! The region is modeled as the byte vector the loader fills: a segment's
//! virtual address is treated as an offset into the freshly allocated region,
//! not as an absolute address to be mapped. This is a deliberate simplifying
//! policy of the loader; it only produces the intended layout when segments
//! do not expect large, sparse virtual-address gaps.

use vstd::prelude::*;
use vstd::arithmetic::div_mod::lemma_fundamental_div_mod;
use vstd::arithmetic::div_mod::lemma_fundamental_div_mod_converse;

use crate::errors::BootError;
use crate::image::{
    header_of, ident_matches, is_loadable, read_image, segments_of, table_well_formed,
    SegmentDescriptor, HEADER_LEN, LOADABLE_TAG,
};

verus! {

/// Size in bytes of one physical page of the load region.
pub const PAGE_SIZE: u64 = 4096;

/// The contiguous, page-granular block of memory the loadable segments are
/// materialized into. Its length is always a whole number of pages.
pub struct LoadRegion {
    /// The region's bytes: segment data at each segment's virtual-address
    /// offset, zero everywhere else.
    pub data: Vec<u8>,
}

/// The number of whole pages needed to hold `total` bytes.
pub open spec fn spec_page_count(total: int) -> int {
    (total + PAGE_SIZE - 1) / (PAGE_SIZE as int)
}

/// The sum of the memory sizes of the loadable segments of `segs`.
pub open spec fn spec_total_load_size(segs: Seq<SegmentDescriptor>) -> int
    decreases segs.len(),
{
    if segs.len() == 0 {
        0
    } else {
        spec_total_load_size(segs.drop_last()) + if is_loadable(segs.last()) {
            segs.last().memory_size as int
        } else {
            0
        }
    }
}

/// Whether any segment of `segs` carries the loadable tag.
pub open spec fn has_loadable(segs: Seq<SegmentDescriptor>) -> bool {
    exists|i: int| 0 <= i < segs.len() && is_loadable(segs[i])
}

/// Length in bytes of the region allocated for `segs`: the total loadable
/// size rounded up to whole pages.
pub open spec fn spec_region_len(segs: Seq<SegmentDescriptor>) -> int {
    spec_page_count(spec_total_load_size(segs)) * (PAGE_SIZE as int)
}

/// A region of `len` bytes as a fresh allocation leaves it: all zero.
pub open spec fn zero_region(len: int) -> Seq<u8> {
    Seq::new(len as nat, |i: int| 0u8)
}

/// `region` after one segment is placed: the segment's file bytes land at
/// its virtual-address offset, the tail up to its memory size is
/// zero-filled, and every other byte keeps its old value.
pub open spec fn place_segment(region: Seq<u8>, stream: Seq<u8>, seg: SegmentDescriptor) -> Seq<
    u8,
> {
    Seq::new(
        region.len(),
        |i: int|
            if seg.virtual_address <= i < seg.virtual_address + seg.file_size {
                stream[seg.file_offset + (i - seg.virtual_address)]
            } else if seg.virtual_address + seg.file_size <= i < seg.virtual_address
                + seg.memory_size {
                0u8
            } else {
                region[i]
            },
    )
}

/// `region` after the loadable segments of `segs` are placed, in table
/// order; non-loadable segments leave it unchanged.
pub open spec fn place_all(region: Seq<u8>, stream: Seq<u8>, segs: Seq<SegmentDescriptor>) -> Seq<
    u8,
>
    decreases segs.len(),
{
    if segs.len() == 0 {
        region
    } else {
        let prev = place_all(region, stream, segs.drop_last());
        if is_loadable(segs.last()) {
            place_segment(prev, stream, segs.last())
        } else {
            prev
        }
    }
}

/// The bytes of the finished load region for the image `stream` and the
/// segment table `segs`: a zeroed page-granular allocation with every
/// loadable segment placed in table order.
pub open spec fn spec_loaded_region(stream: Seq<u8>, segs: Seq<SegmentDescriptor>) -> Seq<u8> {
    place_all(zero_region(spec_region_len(segs)), stream, segs)
}

/// Whether the stream holds every loadable segment's file bytes in full; a
/// segment that extends past the stream's end can only be read short.
pub open spec fn stream_covers(stream: Seq<u8>, segs: Seq<SegmentDescriptor>) -> bool {
    forall|i: int|
        0 <= i < segs.len() && is_loadable(segs[i]) ==> segs[i].file_offset + segs[i].file_size
            <= stream.len()
}

/// Whether the segment table describes a layout this loader can realize on
/// this machine: the region fits in an allocation, and every loadable
/// segment lies within the region with its memory size covering its file
/// size.
pub open spec fn valid_layout(segs: Seq<SegmentDescriptor>) -> bool {
    &&& spec_region_len(segs) <= usize::MAX
    &&& forall|i: int|
        0 <= i < segs.len() && is_loadable(segs[i]) ==> (segs[i].memory_size
            >= segs[i].file_size) && (segs[i].virtual_address + segs[i].memory_size
            <= spec_region_len(segs))
}

/// The total loadable size is never negative.
proof fn lemma_total_load_size_nonneg(segs: Seq<SegmentDescriptor>)
    ensures
        spec_total_load_size(segs) >= 0,
    decreases segs.len(),
{
    if segs.len() > 0 {
        lemma_total_load_size_nonneg(segs.drop_last());
    }
}

/// The loadable size of a prefix never exceeds that of the whole table.
proof fn lemma_total_load_size_prefix(segs: Seq<SegmentDescriptor>, i: int)
    requires
        0 <= i <= segs.len(),
    ensures
        spec_total_load_size(segs.take(i)) <= spec_total_load_size(segs),
    decreases segs.len() - i,
{
    if i < segs.len() {
        lemma_total_load_size_prefix(segs.drop_last(), i);
        assert(segs.drop_last().take(i) =~= segs.take(i));
    } else {
        assert(segs.take(i) =~= segs);
    }
}

/// Rounding up to pages never rounds below the total: `total` bytes fit in
/// `spec_page_count(total)` pages, with less than one spare page.
pub proof fn lemma_page_count_covers(total: int)
    requires
        total >= 0,
    ensures
        total <= spec_page_count(total) * (PAGE_SIZE as int),
        spec_page_count(total) * (PAGE_SIZE as int) < total + PAGE_SIZE,
{
    lemma_fundamental_div_mod(total + (PAGE_SIZE as int) - 1, PAGE_SIZE as int);
}

/// Computes how many whole pages are needed for `total_size` bytes.
///
/// The count is exactly the ceiling of `total_size / PAGE_SIZE`: zero bytes
/// need no page, and a positive total fits the counted pages but not one
/// page fewer.
pub fn page_count(total_size: u64) -> (r: u64)
    ensures
        r as int == spec_page_count(total_size as int),
        total_size == 0 ==> r == 0,
        total_size > 0 ==> (r as int - 1) * (PAGE_SIZE as int) < total_size as int <= (r as int)
            * (PAGE_SIZE as int),
{
    let q: u64 = total_size / PAGE_SIZE;
    let rem: u64 = total_size % PAGE_SIZE;
    proof {
        let t: int = total_size as int;
        let p: int = PAGE_SIZE as int;
        lemma_fundamental_div_mod(t, p);
        if rem == 0 {
            lemma_fundamental_div_mod_converse(t + p - 1, p, q as int, p - 1);
        } else {
            lemma_fundamental_div_mod_converse(t + p - 1, p, q as int + 1, rem as int - 1);
        }
    }
    if rem == 0 {
        q
    } else {
        q + 1
    }
}

/// Copies one loadable segment's file bytes into the region at its
/// virtual-address offset and zero-fills the tail up to its memory size.
fn place_one(region: &mut Vec<u8>, stream: &Vec<u8>, seg: &SegmentDescriptor)
    requires
        seg.memory_size >= seg.file_size,
        seg.virtual_address + seg.memory_size <= old(region)@.len(),
        seg.file_offset + seg.file_size <= stream@.len(),
    ensures
        final(region)@ == place_segment(old(region)@, stream@, *seg),
{
    proof {
        assert(old(region)@.len() == old(region).len());
        assert(stream@.len() == stream.len());
    }
    let vaddr: usize = seg.virtual_address as usize;
    let off: usize = seg.file_offset as usize;
    let fsz: usize = seg.file_size as usize;
    let msz: usize = seg.memory_size as usize;
    let ghost init = region@;

    let mut j: usize = 0;
    while j < fsz
        invariant
            j <= fsz,
            region@.len() == init.len(),
            vaddr == seg.virtual_address,
            off == seg.file_offset,
            fsz == seg.file_size,
            vaddr + fsz <= init.len(),
            off + fsz <= stream@.len(),
            init.len() <= usize::MAX,
            stream@.len() <= usize::MAX,
            forall|k: int|
                vaddr <= k < vaddr + j ==> #[trigger] region@[k] == stream@[off + (k - vaddr)],
            forall|k: int|
                0 <= k < init.len() && !(vaddr <= k < vaddr + j) ==> #[trigger] region@[k]
                    == init[k],
        decreases fsz - j,
    {
        let b: u8 = stream[off + j];
        region.set(vaddr + j, b);
        j = j + 1;
    }

    let mut j: usize = fsz;
    while j < msz
        invariant
            fsz <= j <= msz,
            region@.len() == init.len(),
            vaddr == seg.virtual_address,
            off == seg.file_offset,
            fsz == seg.file_size,
            msz == seg.memory_size,
            vaddr + msz <= init.len(),
            init.len() <= usize::MAX,
            forall|k: int|
                vaddr <= k < vaddr + fsz ==> #[trigger] region@[k] == stream@[off + (k - vaddr)],
            forall|k: int| vaddr + fsz <= k < vaddr + j ==> #[trigger] region@[k] == 0u8,
            forall|k: int|
                0 <= k < init.len() && !(vaddr <= k < vaddr + j) ==> #[trigger] region@[k]
                    == init[k],
        decreases msz - j,
    {
        region.set(vaddr + j, 0u8);
        j = j + 1;
    }

    proof {
        assert(region@ =~= place_segment(init, stream@, *seg));
    }
}

/// Materializes the loadable segments of `segments` from the image `stream`
/// into a freshly allocated, page-granular region.
///
/// Fails with `NoLoadableSegments` when no descriptor carries the loadable
/// tag, with `EmptyLoadSize` when loadable segments exist but their memory
/// sizes sum to zero, and with `TruncatedSegment` when any loadable
/// segment's file bytes extend past the stream's end; otherwise it returns
/// the finished region, sized to `spec_page_count` pages of the total.
pub fn load_segments(stream: &Vec<u8>, segments: &Vec<SegmentDescriptor>) -> (r: Result<
    LoadRegion,
    BootError,
>)
    requires
        valid_layout(segments@),
    ensures
        !has_loadable(segments@) ==> r == Err::<LoadRegion, BootError>(
            BootError::NoLoadableSegments,
        ),
        has_loadable(segments@) && spec_total_load_size(segments@) == 0 ==> r == Err::<
            LoadRegion,
            BootError,
        >(BootError::EmptyLoadSize),
        has_loadable(segments@) && spec_total_load_size(segments@) > 0 && !stream_covers(
            stream@,
            segments@,
        ) ==> r == Err::<LoadRegion, BootError>(BootError::TruncatedSegment),
        has_loadable(segments@) && spec_total_load_size(segments@) > 0 && stream_covers(
            stream@,
            segments@,
        ) ==> ({
            &&& r matches Ok(region)
            &&& region.data@ == spec_loaded_region(stream@, segments@)
            &&& region.data@.len() == spec_region_len(segments@)
        }),
{
    let n: usize = segments.len();
    proof {
        lemma_total_load_size_nonneg(segments@);
        lemma_page_count_covers(spec_total_load_size(segments@));
    }

    // Pass 1: does any segment carry the loadable tag, and how many bytes
    // of memory do the loadable ones need in total?
    let mut total: u64 = 0;
    let mut found: bool = false;
    let mut i: usize = 0;
    while i < n
        invariant
            i <= n,
            n == segments@.len(),
            valid_layout(segments@),
            total as int == spec_total_load_size(segments@.take(i as int)),
            found == has_loadable(segments@.take(i as int)),
        decreases n - i,
    {
        let seg = segments[i];
        proof {
            assert(segments@.take(i + 1).drop_last() =~= segments@.take(i as int));
            assert(segments@.take(i + 1).last() == segments@[i as int]);
            lemma_total_load_size_prefix(segments@, i + 1);
            lemma_page_count_covers(spec_total_load_size(segments@));
            if is_loadable(segments@[i as int]) {
                assert(has_loadable(segments@.take(i + 1)));
            } else {
                assert(has_loadable(segments@.take(i + 1)) == has_loadable(
                    segments@.take(i as int),
                ));
            }
        }
        if seg.seg_type == LOADABLE_TAG {
            total = total + seg.memory_size;
            found = true;
        }
        i = i + 1;
    }
    proof {
        assert(segments@.take(n as int) =~= segments@);
    }

    if !found {
        return Err(BootError::NoLoadableSegments);
    }
    if total == 0 {
        return Err(BootError::EmptyLoadSize);
    }

    // Pass 2: every loadable segment's file bytes must be present in full;
    // a short read would leave partial data in place undetectably.
    let mut i: usize = 0;
    while i < n
        invariant
            i <= n,
            n == segments@.len(),
            has_loadable(segments@),
            spec_total_load_size(segments@) > 0,
            forall|k: int|
                0 <= k < i && is_loadable(segments@[k]) ==> segments@[k].file_offset
                    + segments@[k].file_size <= stream@.len(),
        decreases n - i,
    {
        let seg = segments[i];
        proof {
            assert(stream@.len() == stream.len());
        }
        if seg.seg_type == LOADABLE_TAG {
            let stream_len: u64 = stream.len() as u64;
            if seg.file_size > stream_len || seg.file_offset > stream_len - seg.file_size {
                assert(!stream_covers(stream@, segments@));
                return Err(BootError::TruncatedSegment);
            }
        }
        i = i + 1;
    }
    assert(stream_covers(stream@, segments@));

    // Acquire the region: a fresh allocation of whole pages, all zero.
    let pages: u64 = page_count(total);
    let region_len64: u64 = pages * PAGE_SIZE;
    assert(region_len64 as int == spec_region_len(segments@));
    let region_len: usize = region_len64 as usize;
    let mut data: Vec<u8> = Vec::new();
    let mut j: usize = 0;
    while j < region_len
        invariant
            j <= region_len,
            data@.len() == j,
            forall|k: int| 0 <= k < j ==> data@[k] == 0u8,
        decreases region_len - j,
    {
        data.push(0u8);
        j = j + 1;
    }
    proof {
        assert(data@ =~= zero_region(spec_region_len(segments@)));
    }

    // Pass 3: place each loadable segment, in table order.
    let ghost zeroed = zero_region(spec_region_len(segments@));
    let mut s: usize = 0;
    while s < n
        invariant
            s <= n,
            n == segments@.len(),
            valid_layout(segments@),
            stream_covers(stream@, segments@),
            data@.len() == spec_region_len(segments@),
            data@ == place_all(zeroed, stream@, segments@.take(s as int)),
            zeroed == zero_region(spec_region_len(segments@)),
        decreases n - s,
    {
        let seg = segments[s];
        proof {
            assert(segments@.take(s + 1).drop_last() =~= segments@.take(s as int));
            assert(segments@.take(s + 1).last() == segments@[s as int]);
        }
        if seg.seg_type == LOADABLE_TAG {
            place_one(&mut data, stream, &seg);
        }
        s = s + 1;
    }
    proof {
        assert(segments@.take(n as int) =~= segments@);
    }
    Ok(LoadRegion { data })
}

/// Whether the byte stream parses as a well-formed image: long enough for a
/// header, carrying the expected identity tag, with a fully readable
/// segment table.
pub open spec fn parses(stream: Seq<u8>) -> bool {
    &&& stream.len() >= HEADER_LEN
    &&& ident_matches(stream)
    &&& table_well_formed(stream)
}

/// The error `read_image` reports for a stream it rejects, `None` where it
/// accepts the stream.
pub open spec fn read_image_error(stream: Seq<u8>) -> Option<BootError> {
    if stream.len() < HEADER_LEN {
        Some(BootError::FormatError)
    } else if !ident_matches(stream) {
        Some(BootError::ValidationError(crate::errors::ValidationFault::InvalidMagic))
    } else if !table_well_formed(stream) {
        Some(BootError::FormatError)
    } else {
        None
    }
}

/// Reads the image from `stream` and materializes its loadable segments,
/// returning the finished region together with the header's entry address,
/// an offset into that region.
///
/// The reader's and the loader's failures pass through unchanged, in that
/// order; every one of them is reported before anything irreversible has
/// happened.
pub fn load_kernel_image(stream: &Vec<u8>) -> (r: Result<(LoadRegion, u64), BootError>)
    requires
        parses(stream@) ==> valid_layout(segments_of(stream@)),
    ensures
        !parses(stream@) ==> ({
            &&& r matches Err(e)
            &&& read_image_error(stream@) == Some(e)
        }),
        parses(stream@) && !has_loadable(segments_of(stream@)) ==> r == Err::<
            (LoadRegion, u64),
            BootError,
        >(BootError::NoLoadableSegments),
        parses(stream@) && has_loadable(segments_of(stream@)) && spec_total_load_size(
            segments_of(stream@),
        ) == 0 ==> r == Err::<(LoadRegion, u64), BootError>(BootError::EmptyLoadSize),
        parses(stream@) && has_loadable(segments_of(stream@)) && spec_total_load_size(
            segments_of(stream@),
        ) > 0 && !stream_covers(stream@, segments_of(stream@)) ==> r == Err::<
            (LoadRegion, u64),
            BootError,
        >(BootError::TruncatedSegment),
        parses(stream@) && has_loadable(segments_of(stream@)) && spec_total_load_size(
            segments_of(stream@),
        ) > 0 && stream_covers(stream@, segments_of(stream@)) ==> ({
            &&& r matches Ok(out)
            &&& out.0.data@ == spec_loaded_region(stream@, segments_of(stream@))
            &&& out.1 == header_of(stream@).entry
        }),
{
    let (header, segments) = match read_image(stream) {
        Ok(parsed) => parsed,
        Err(e) => {
            return Err(e);
        },
    };
    let region = match load_segments(stream, &segments) {
        Ok(region) => region,
        Err(e) => {
            return Err(e);
        },
    };
    Ok((region, header.entry))
}

/// The region loaded from an image with a single loadable segment of file
/// size F and memory size M >= F is exactly `ceil(M / PAGE_SIZE)` pages
/// long; its F bytes at the segment's virtual-address offset are the
/// segment's file bytes, the M - F bytes after them are zero, and so is
/// every byte outside the segment's span.
pub proof fn lemma_single_segment_region(stream: Seq<u8>, seg: SegmentDescriptor)
    requires
        is_loadable(seg),
        seg.memory_size >= seg.file_size,
        seg.virtual_address + seg.memory_size <= spec_region_len(seq![seg]),
    ensures
        spec_total_load_size(seq![seg]) == seg.memory_size,
        spec_loaded_region(stream, seq![seg]).len() == spec_page_count(seg.memory_size as int) * (
        PAGE_SIZE as int),
        ({
            let region = spec_loaded_region(stream, seq![seg]);
            &&& forall|k: int|
                seg.virtual_address <= k < seg.virtual_address + seg.file_size
                    ==> #[trigger] region[k] == stream[seg.file_offset + (k - seg.virtual_address)]
            &&& forall|k: int|
                seg.virtual_address + seg.file_size <= k < seg.virtual_address + seg.memory_size
                    ==> #[trigger] region[k] == 0u8
            &&& forall|k: int|
                0 <= k < region.len() && !(seg.virtual_address <= k < seg.virtual_address
                    + seg.memory_size) ==> #[trigger] region[k] == 0u8
        }),
{
    let segs = seq![seg];
    assert(segs.drop_last() =~= Seq::<SegmentDescriptor>::empty());
    assert(segs.last() == seg);
    assert(spec_total_load_size(Seq::<SegmentDescriptor>::empty()) == 0);
    assert(spec_total_load_size(segs) == seg.memory_size);
    let zeros = zero_region(spec_region_len(segs));
    assert(place_all(zeros, stream, Seq::<SegmentDescriptor>::empty()) == zeros);
    assert(spec_loaded_region(stream, segs) == place_segment(zeros, stream, seg));
}

/// Loading two loadable segments whose memory spans do not overlap yields
/// byte-identical regions in either table order, each segment's file bytes
/// and zero-filled tail standing at its own virtual-address offset.
pub proof fn lemma_order_independent(stream: Seq<u8>, a: SegmentDescriptor, b: SegmentDescriptor)
    requires
        is_loadable(a),
        is_loadable(b),
        a.memory_size >= a.file_size,
        b.memory_size >= b.file_size,
        a.virtual_address + a.memory_size <= b.virtual_address || b.virtual_address
            + b.memory_size <= a.virtual_address,
        a.virtual_address + a.memory_size <= spec_region_len(seq![a, b]),
        b.virtual_address + b.memory_size <= spec_region_len(seq![a, b]),
    ensures
        spec_loaded_region(stream, seq![a, b]) == spec_loaded_region(stream, seq![b, a]),
        ({
            let region = spec_loaded_region(stream, seq![a, b]);
            &&& forall|k: int|
                a.virtual_address <= k < a.virtual_address + a.file_size
                    ==> #[trigger] region[k] == stream[a.file_offset + (k - a.virtual_address)]
            &&& forall|k: int|
                a.virtual_address + a.file_size <= k < a.virtual_address + a.memory_size
                    ==> #[trigger] region[k] == 0u8
            &&& forall|k: int|
                b.virtual_address <= k < b.virtual_address + b.file_size
                    ==> #[trigger] region[k] == stream[b.file_offset + (k - b.virtual_address)]
            &&& forall|k: int|
                b.virtual_address + b.file_size <= k < b.virtual_address + b.memory_size
                    ==> #[trigger] region[k] == 0u8
        }),
{
    let ab = seq![a, b];
    let ba = seq![b, a];
    assert(ab.drop_last() =~= seq![a]);
    assert(ba.drop_last() =~= seq![b]);
    assert(seq![a].drop_last() =~= Seq::<SegmentDescriptor>::empty());
    assert(seq![b].drop_last() =~= Seq::<SegmentDescriptor>::empty());
    assert(ab.last() == b);
    assert(ba.last() == a);
    assert(seq![a].last() == a);
    assert(seq![b].last() == b);
    assert(spec_total_load_size(Seq::<SegmentDescriptor>::empty()) == 0);
    assert(spec_total_load_size(seq![a]) == a.memory_size);
    assert(spec_total_load_size(seq![b]) == b.memory_size);
    assert(spec_total_load_size(ab) == a.memory_size + b.memory_size);
    assert(spec_total_load_size(ba) == a.memory_size + b.memory_size);
    let len: int = spec_region_len(ab);
    assert(spec_region_len(ba) == len);
    let zeros = zero_region(len);
    assert(place_all(zeros, stream, Seq::<SegmentDescriptor>::empty()) == zeros);
    assert(place_all(zeros, stream, seq![a]) == place_segment(zeros, stream, a));
    assert(place_all(zeros, stream, seq![b]) == place_segment(zeros, stream, b));
    assert(spec_loaded_region(stream, ab) == place_segment(
        place_segment(zeros, stream, a),
        stream,
        b,
    ));
    assert(spec_loaded_region(stream, ba) == place_segment(
        place_segment(zeros, stream, b),
        stream,
        a,
    ));
    assert(spec_loaded_region(stream, ab) =~= spec_loaded_region(stream, ba));
}

} // verus!
