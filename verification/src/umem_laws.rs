//! What packet memory gives back of what was put in.

use crate::umem::{
    frame_in_bounds, other_frames_unchanged, written_frame_reads_back, PacketRef, UMem,
    UMemError, UMemLayout,
};
use vstd::arithmetic::power2::is_pow2;
use vstd::prelude::*;

verus! {

/// A frame that exists takes as much of the data as it has room for, and gives exactly that
/// back; a frame that does not exist takes nothing, and nothing changes.
pub proof fn frames_give_back_what_was_written(
    umem: &mut UMem,
    frame_idx: usize,
    data: &[u8],
    written: usize,
    frames: usize,
    frame_size: usize,
    packet: PacketRef<'_>,
)
    requires
        call_ensures(UMem::num_frames, (&*old(umem),), frames),
        call_ensures(UMem::frame_size, (&*old(umem),), frame_size),
        call_ensures(UMem::write_frame, (umem, frame_idx, data), written),
        frame_idx < frames ==> call_ensures(
            UMem::get_frame,
            (&*final(umem), frame_idx, written),
            packet,
        ),
    ensures
        frame_idx < frames && data@.len() <= frame_size ==> written == data@.len() && packet@
            == data@,
        frame_idx < frames && data@.len() > frame_size ==> written == frame_size && packet@
            == data@.take(frame_size as int),
        frame_idx >= frames ==> written == 0 && final(umem)@.memory == old(umem)@.memory,
{
    if frame_idx < frames {
        written_frame_reads_back(old(umem)@, frame_idx as int, data@);
        if data@.len() <= frame_size {
            assert(packet@ =~= data@);
        } else {
            assert(packet@ =~= data@.take(frame_size as int));
        }
    }
}

/// Writing to a frame, or clearing it, leaves every other frame and the size of the region.
pub proof fn other_frames_give_back_the_same(
    umem: &mut UMem,
    frame_idx: usize,
    data: &[u8],
    written: usize,
    cleared: bool,
    other: usize,
    len: usize,
    before: PacketRef<'_>,
    after: PacketRef<'_>,
)
    requires
        other != frame_idx,
        old(umem)@.frame_size > 0,
        frame_idx < old(umem)@.num_frames(),
        other < old(umem)@.num_frames(),
        call_ensures(UMem::get_frame, (&*old(umem), other, len), before),
        cleared ==> call_ensures(UMem::clear_frame, (umem, frame_idx), ()),
        !cleared ==> call_ensures(UMem::write_frame, (umem, frame_idx, data), written),
        call_ensures(UMem::get_frame, (&*final(umem), other, len), after),
    ensures
        after@ == before@,
        final(umem)@.memory.len() == old(umem)@.memory.len(),
        final(umem)@.frame_size == old(umem)@.frame_size,
{
    let content = if cleared {
        crate::umem::zeros(old(umem)@.frame_size as nat)
    } else {
        data@
    };
    other_frames_unchanged(old(umem)@, frame_idx as int, content, other as int);
    crate::umem::writing_keeps_the_layout(old(umem)@, frame_idx as int, content);
}

/// A frame that was cleared gives back zeros.
pub proof fn cleared_frames_give_back_zeros(
    umem: &mut UMem,
    frame_idx: usize,
    len: usize,
    packet: PacketRef<'_>,
)
    requires
        old(umem)@.frame_size > 0,
        frame_idx < old(umem)@.num_frames(),
        len <= old(umem)@.frame_size,
        call_ensures(UMem::clear_frame, (umem, frame_idx), ()),
        call_ensures(UMem::get_frame, (&*final(umem), frame_idx, len), packet),
    ensures
        packet@.len() == len,
        forall|i: int| 0 <= i < len ==> #[trigger] packet@[i] == 0,
{
    crate::umem::cleared_frame_is_zero(old(umem)@, frame_idx as int);
}

/// Frame number `i` starts `i` frames into the region, and a packet is the bytes of the
/// region from its offset on.
pub proof fn packets_lie_in_the_region(
    umem: UMem,
    frame_idx: usize,
    offset: usize,
    len: usize,
    memory: &[u8],
    at_frame: PacketRef<'_>,
    at_offset: PacketRef<'_>,
)
    requires
        umem@.frame_size > 0,
        call_ensures(UMem::as_slice, (&umem,), memory),
        frame_idx < umem@.num_frames(),
        len <= umem@.frame_size,
        offset + len <= memory@.len(),
        call_ensures(UMem::get_frame, (&umem, frame_idx, len), at_frame),
        call_ensures(UMem::get_packet, (&umem, offset, len), at_offset),
    ensures
        at_frame@ == memory@.subrange(
            frame_idx * umem@.frame_size,
            frame_idx * umem@.frame_size + len,
        ),
        at_offset@ == memory@.subrange(offset as int, offset + len),
        offset == frame_idx * umem@.frame_size ==> at_frame@ == at_offset@,
{
    frame_in_bounds(memory@.len() as int, umem@.frame_size, frame_idx as int);
    assert(at_frame@ =~= memory@.subrange(
        frame_idx * umem@.frame_size,
        frame_idx * umem@.frame_size + len,
    ));
}

/// Packet memory is made of a power of two of bytes, 1 MB or more, in frames of 64 to 65536
/// bytes, all zero; anything else is refused, with the first thing that is wrong.
pub proof fn memory_is_made_as_asked(
    size: usize,
    frame_size: usize,
    umem: Result<UMem, UMemError>,
    layout: Result<UMemLayout, UMemError>,
)
    requires
        call_ensures(UMem::new, (size, frame_size), umem),
        call_ensures(UMemLayout::new, (size, frame_size), layout),
    ensures
        match umem {
            Ok(umem) => {
                &&& is_pow2(size as int)
                &&& size >= 1024 * 1024
                &&& 64 <= frame_size <= 65536
                &&& umem@.memory.len() == size
                &&& umem@.frame_size == frame_size
                &&& forall|i: int| 0 <= i < size ==> #[trigger] umem@.memory[i] == 0
            },
            Err(UMemError::InvalidSize(text)) => {
                ||| !is_pow2(size as int) && text@ == "Size must be a power of 2"@
                ||| is_pow2(size as int) && size < 1024 * 1024 && text@
                    == "Size must be at least 1 MB"@
            },
            Err(UMemError::InvalidFrameSize(text)) => is_pow2(size as int) && size >= 1024 * 1024
                && !(64 <= frame_size <= 65536) && text@
                == "Frame size must be between 64 and 65536 bytes"@,
            Err(UMemError::MmapFailed(code)) => is_pow2(size as int) && size >= 1024 * 1024 && 64
                <= frame_size <= 65536 && code == 12,
            Err(UMemError::OutOfBounds(_, _, _)) => false,
        },
        layout is Ok <==> is_pow2(size as int) && size >= 1024 * 1024 && 64 <= frame_size <= 65536,
        layout matches Ok(layout) ==> layout.spec_size() == size && layout.spec_frame_size()
            == frame_size,
{
}

/// A region has as many frames as fit, and they lie one behind the other.
pub proof fn frames_fill_the_region(
    layout: UMemLayout,
    size: usize,
    frame_size: usize,
    frames: usize,
    frame_idx: usize,
    offset: usize,
)
    requires
        call_ensures(UMemLayout::size, (&layout,), size),
        call_ensures(UMemLayout::frame_size, (&layout,), frame_size),
        call_ensures(UMemLayout::num_frames, (&layout,), frames),
        call_ensures(UMemLayout::frame_offset, (&layout, frame_idx), offset),
        frame_idx < frames,
    ensures
        0 <= size - frames * frame_size < frame_size,
        offset == frame_idx * frame_size,
        offset + frame_size <= size,
{
    vstd::arithmetic::div_mod::lemma_fundamental_div_mod(size as int, frame_size as int);
    vstd::arithmetic::div_mod::lemma_mod_bound(size as int, frame_size as int);
    assert(frames * frame_size == frame_size * frames) by (nonlinear_arith);
}

/// A packet is its bytes: split anywhere, the two parts make it up.
pub proof fn packets_are_their_bytes<'a>(
    data: &'a [u8],
    packet: PacketRef<'a>,
    slice: &'a [u8],
    len: usize,
    empty: bool,
    n: usize,
    bytes: Option<&'a [u8]>,
    parts: (&'a [u8], &'a [u8]),
)
    requires
        call_ensures(PacketRef::from_slice, (data,), packet),
        call_ensures(PacketRef::as_slice, (&packet,), slice),
        call_ensures(PacketRef::len, (&packet,), len),
        call_ensures(PacketRef::is_empty, (&packet,), empty),
        call_ensures(PacketRef::get_bytes, (&packet, n), bytes),
        n <= data@.len() ==> call_ensures(PacketRef::split_at, (&packet, n), parts),
    ensures
        slice@ == data@,
        len == data@.len(),
        empty <==> data@.len() == 0,
        bytes is Some <==> n <= data@.len(),
        n <= data@.len() ==> {
            &&& parts.0@.len() == n
            &&& parts.0@ + parts.1@ == data@
            &&& bytes matches Some(first) && first@ == parts.0@
        },
{
    if n <= data@.len() {
        assert(parts.0@ + parts.1@ =~= data@);
    }
}

/// Memory that exists already is taken as it is, in frames of the size given.
pub proof fn existing_memory_is_taken_as_it_is(
    bytes: Vec<u8>,
    frame_size: usize,
    umem: UMem,
    memory: &[u8],
    size: usize,
    region: UMemLayout,
    region_size: usize,
    region_frame: usize,
)
    requires
        frame_size > 0,
        call_ensures(UMem::from_memory, (bytes, frame_size), umem),
        call_ensures(UMem::as_slice, (&umem,), memory),
        call_ensures(UMem::size, (&umem,), size),
        call_ensures(UMemLayout::of_region, (size, frame_size), region),
        call_ensures(UMemLayout::size, (&region,), region_size),
        call_ensures(UMemLayout::frame_size, (&region,), region_frame),
    ensures
        memory@ == bytes@,
        size == bytes@.len(),
        umem@.frame_size == frame_size,
        region_size == size,
        region_frame == frame_size,
{
}

} // verus!
