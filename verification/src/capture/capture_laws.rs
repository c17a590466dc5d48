//! What becomes of received frames: what is counted, recorded and emitted of each, and which
//! bytes of the shared memory they are.

use crate::bytes::{u32_at, ByteOrder};
use crate::capture::af_xdp::{
    descs_written, power_has_one_bit, ring_place, ring_place_in_bounds, rx_frames, XdpDesc,
    XdpEngine, XdpOption, XdpRing,
};
use crate::capture::tpacket::{
    slot_cleared, walk_block, walk_blocks, walk_slots, PacketReq3, TpacketEngine,
};
use crate::capture::{
    frames_received, packets_in, parsed_packets_are_emitted, receive_frame, CaptureConfig,
    CaptureError, CaptureStats, Received,
};
use crate::output::OutputBackend;
use crate::parser::header_laws::network_bytes;
use crate::parser::packet::packet_of;
use crate::parser::{PacketParser, ParseResult, ParsedPacket};
use crate::stats::StatsCollector;
use crate::umem::UMemLayout;
use vstd::arithmetic::power2::is_pow2;
use vstd::prelude::*;

verus! {

/// A frame that is received is counted, and where it parses its packet is handed on, its
/// bytes are counted, and it is recorded as any packet of that length is.
pub proof fn received_frames_are_recorded<'a>(
    parser: &mut PacketParser,
    frame: &'a [u8],
    collector: &mut StatsCollector,
    stats: &mut CaptureStats,
    now_ns: u64,
    packet: Option<ParsedPacket<'a>>,
    other_parser: &mut PacketParser,
    parsed: ParseResult<ParsedPacket<'a>>,
    other: &mut StatsCollector,
)
    requires
        call_ensures(receive_frame, (parser, frame, collector, stats, now_ns), packet),
        call_ensures(PacketParser::parse, (other_parser, frame), parsed),
        parsed matches Ok(parsed) ==> call_ensures(
            StatsCollector::record_packet_at,
            (other, &parsed, frame@.len() as usize, now_ns),
            (),
        ),
        old(other)@ == old(collector)@,
        old(stats).packets_received < u64::MAX,
        old(stats).bytes_received + frame@.len() <= u64::MAX,
    ensures
        final(stats).packets_received == old(stats).packets_received + 1,
        final(stats).packets_dropped == old(stats).packets_dropped,
        match parsed {
            Ok(parsed) => {
                &&& packet matches Some(packet) && packet@ == parsed@
                &&& final(stats).bytes_received == old(stats).bytes_received + frame@.len()
                &&& final(collector)@ == final(other)@
            },
            Err(_) => {
                &&& packet is None
                &&& final(stats).bytes_received == old(stats).bytes_received
                &&& final(collector)@ == old(collector)@
            },
        },
{
    assert(frame.len() == frame@.len());
}

/// The bytes of those of `frames` that can be parsed.
pub open spec fn parsed_bytes(frames: Seq<Seq<u8>>) -> nat
    decreases frames.len(),
{
    if frames.len() == 0 {
        0
    } else {
        parsed_bytes(frames.drop_last()) + if packet_of(frames.last()) is Ok {
            frames.last().len()
        } else {
            0
        }
    }
}

/// Over any frames, the bytes received are those of the frames that parse, and nothing is
/// counted as dropped.
pub proof fn bytes_of_parsed_frames_are_counted(
    before: Received,
    frames: Seq<Seq<u8>>,
    times: Seq<u64>,
)
    requires
        before.stats.bytes_received + parsed_bytes(frames) <= u64::MAX,
        forall|i: int| 0 <= i < frames.len() ==> (#[trigger] frames[i]).len() <= usize::MAX,
    ensures
        frames_received(before, frames, times).stats.bytes_received == before.stats.bytes_received
            + parsed_bytes(frames),
        frames_received(before, frames, times).stats.packets_dropped
            == before.stats.packets_dropped,
    decreases frames.len(),
{
    reveal(crate::capture::frame_received);
    if frames.len() > 0 {
        assert forall|i: int| 0 <= i < frames.len() - 1 implies (
        #[trigger] frames.drop_last()[i]).len() <= usize::MAX by {
            assert(frames.drop_last()[i] == frames[i]);
        }
        assert(frames[frames.len() - 1].len() <= usize::MAX);
        bytes_of_parsed_frames_are_counted(before, frames.drop_last(), times.drop_last());
    }
}

/// Frames give no more packets than they are; where they give as many, each packet is that
/// of its own frame, in order.
#[verifier::rlimit(40)]
pub proof fn packets_follow_their_frames(frames: Seq<Seq<u8>>, i: int)
    ensures
        packets_in(frames).len() <= frames.len(),
        packets_in(frames).len() == frames.len() && 0 <= i < frames.len() ==> packet_of(frames[i])
            == Ok::<_, crate::parser::ParseError>(packets_in(frames)[i]),
    decreases frames.len(),
{
    if frames.len() > 0 {
        let rest = frames.drop_last();
        packets_follow_their_frames(rest, i);
        if 0 <= i < rest.len() {
            assert(rest[i] == frames[i]);
        }
    }
}

/// A frame that parses gives one packet more, its own.
pub proof fn frames_that_parse_give_their_packet(before: Seq<Seq<u8>>, frame: Seq<u8>)
    requires
        packet_of(frame) is Ok,
    ensures
        packets_in(before.push(frame)).len() == packets_in(before).len() + 1,
        packets_in(before.push(frame)).last() == packet_of(frame)->Ok_0,
{
    assert(before.push(frame).drop_last() =~= before);
}

/// Frames that do not parse give no packet: with or without them, the packets are the same.
pub proof fn frames_that_do_not_parse_give_nothing(
    before: Seq<Seq<u8>>,
    frame: Seq<u8>,
    behind: Seq<Seq<u8>>,
)
    requires
        packet_of(frame) is Err,
    ensures
        packets_in(before.push(frame) + behind) == packets_in(before + behind),
    decreases behind.len(),
{
    if behind.len() == 0 {
        assert(before.push(frame) + behind =~= before.push(frame));
        assert(before.push(frame).drop_last() =~= before);
        assert(before + behind =~= before);
    } else {
        let rest = behind.drop_last();
        frames_that_do_not_parse_give_nothing(before, frame, rest);
        assert((before.push(frame) + behind).drop_last() =~= before.push(frame) + rest);
        assert((before + behind).drop_last() =~= before + rest);
    }
}

/// A new ring has no descriptors to consume, and room for all places but one.
pub proof fn new_rings_are_empty(size: u32, ring: XdpRing, available: u32, room: u32)
    requires
        size >= 1,
        call_ensures(XdpRing::new, (size,), ring),
        call_ensures(XdpRing::available, (&ring,), available),
        call_ensures(XdpRing::room, (&ring,), room),
    ensures
        available == 0,
        room == size - 1,
        ring.producer == 0 && ring.consumer == 0,
        ring.descriptors@.len() == size,
        forall|i: int| 0 <= i < size ==> (#[trigger] ring.descriptors@[i]).len == 0,
{
    let mask = ring.mask as u64;
    assert(0u64 & mask == 0) by (bit_vector);
}

/// What can be consumed and what can be produced make up the places of a ring but one.
pub proof fn rings_are_filled_or_free(ring: XdpRing, available: u32, room: u32)
    requires
        ring.well_formed(),
        call_ensures(XdpRing::available, (&ring,), available),
        call_ensures(XdpRing::room, (&ring,), room),
    ensures
        available + room == ring.size - 1,
{
}

/// Submitting moves the producer on by as many descriptors, and touches nothing else.
pub proof fn submitting_moves_the_producer(ring: &mut XdpRing, n: u32)
    requires
        call_ensures(XdpRing::submit, (ring, n), ()),
        old(ring).producer + n <= u64::MAX,
    ensures
        final(ring).producer == old(ring).producer + n,
        final(ring).consumer == old(ring).consumer,
        final(ring).descriptors@ == old(ring).descriptors@,
        final(ring).size == old(ring).size,
{
}

/// Positions that are less than the size of a ring apart have places of their own.
proof fn places_differ(a: u64, b: u64, size: u32)
    requires
        is_pow2(size as int),
        a < b,
        b - a < size,
    ensures
        ring_place(a, (size - 1) as u32) != ring_place(b, (size - 1) as u32),
{
    power_has_one_bit(size);
    let mask = (size - 1) as u32;
    let wide_size = size as u64;
    let wide_mask = mask as u64;
    assert((size as u64) & (mask as u64) == (size & mask) as u64) by (bit_vector);
    let d = (b - a) as u64;
    assert(a & wide_mask != b & wide_mask) by (bit_vector)
        requires
            wide_size & wide_mask == 0,
            wide_mask == wide_size - 1,
            wide_size >= 1,
            d == b - a,
            a < b,
            d < wide_size,
    ;
}

proof fn written_descriptors(ring: XdpRing, n: int, frame_size: usize, j: int)
    requires
        ring.well_formed(),
        is_pow2(ring.size as int),
        0 <= j < n < ring.size,
        ring.producer + n <= u64::MAX,
    ensures
        descs_written(ring, n, frame_size).len() == ring.size,
        descs_written(ring, n, frame_size)[ring_place((ring.producer + j) as u64, ring.mask)] == (
        XdpDesc {
            addr: (j as u64).wrapping_mul(frame_size as u64),
            len: frame_size as u32,
            options: 0,
        }),
    decreases n,
{
    let before = descs_written(ring, n - 1, frame_size);
    let last = (ring.producer + n - 1) as u64;
    let position = (ring.producer + j) as u64;
    ring_place_in_bounds(last, ring.mask);
    ring_place_in_bounds(position, ring.mask);
    written_keeps_the_length(ring, n - 1, frame_size);
    if j < n - 1 {
        written_descriptors(ring, n - 1, frame_size, j);
        places_differ(position, last, ring.size);
    }
}

proof fn written_keeps_the_length(ring: XdpRing, n: int, frame_size: usize)
    requires
        ring.well_formed(),
    ensures
        descs_written(ring, n, frame_size).len() == ring.descriptors@.len(),
    decreases n,
{
    if n > 0 {
        written_keeps_the_length(ring, n - 1, frame_size);
        ring_place_in_bounds(ring.producer.wrapping_add((n - 1) as u64), ring.mask);
    }
}

/// Filling a ring offers frames one behind the other, from the start of the memory on: as
/// many as were asked for, or as the ring has room for. Descriptor `j` of them is that of
/// frame `j`, with its whole size.
pub proof fn frames_are_offered_one_by_one(
    engine: &mut XdpEngine,
    num_frames: usize,
    result: Result<(), CaptureError>,
    room: u32,
    j: int,
)
    requires
        old(engine).well_formed(),
        call_ensures(XdpEngine::populate_fill_ring, (engine, num_frames), result),
        old(engine).fill_ring matches Some(ring) && is_pow2(ring.size as int) && ring.producer
            + ring.size <= u64::MAX && call_ensures(XdpRing::room, (&ring,), room),
    ensures
        result is Ok <==> old(engine).umem is Some,
        result is Ok ==> {
            let before = old(engine).fill_ring->Some_0;
            let after = final(engine).fill_ring->Some_0;
            let n = if room < num_frames {
                room as int
            } else {
                num_frames as int
            };
            &&& final(engine).fill_ring is Some
            &&& after.producer == before.producer + n
            &&& after.consumer == before.consumer
            &&& 0 <= j < n && j * old(engine).config.frame_size <= u64::MAX ==> {
                let desc = after.desc_at((before.producer + j) as u64);
                &&& desc.addr == j * old(engine).config.frame_size
                &&& desc.len == old(engine).config.frame_size as u32
                &&& desc.options == 0
            }
        },
{
    if result is Ok {
        let before = old(engine).fill_ring->Some_0;
        let n = if room < num_frames {
            room as int
        } else {
            num_frames as int
        };
        if 0 <= j < n {
            written_descriptors(before, n, old(engine).config.frame_size, j);
        }
    }
}

/// Refilling gives back as many descriptors as asked, or as there is room for.
pub proof fn refilling_moves_the_producer(engine: &mut XdpEngine, n: usize, room: u32)
    requires
        call_ensures(XdpEngine::refill_fill_ring, (engine, n), ()),
        old(engine).fill_ring matches Some(ring) && ring.producer + room <= u64::MAX
            && call_ensures(XdpRing::room, (&ring,), room),
    ensures
        final(engine).fill_ring matches Some(ring) && ring.producer
            == old(engine).fill_ring->Some_0.producer + (if room < n {
            room as int
        } else {
            n as int
        }) && ring.consumer == old(engine).fill_ring->Some_0.consumer,
        final(engine).rx_ring == old(engine).rx_ring,
        final(engine).stats == old(engine).stats,
{
}

/// Where every descriptor holds data, the frames are the bytes that the descriptors point
/// at, one for each, in order.
pub proof fn frames_are_where_the_descriptors_point(
    ring: XdpRing,
    memory: Seq<u8>,
    k: int,
    i: int,
)
    requires
        0 <= i < k,
        forall|j: int| #![trigger ring.consumer.wrapping_add(j as u64)]
            0 <= j < k ==> ring.desc_at(ring.consumer.wrapping_add(j as u64)).len > 0,
    ensures
        rx_frames(ring, memory, k).len() == k,
        ({
            let desc = ring.desc_at(ring.consumer.wrapping_add(i as u64));
            rx_frames(ring, memory, k)[i] == memory.subrange(
                desc.addr as int,
                desc.addr + desc.len,
            )
        }),
    decreases k,
{
    reveal_with_fuel(rx_frames, 2);
    let last = ring.desc_at(ring.consumer.wrapping_add((k - 1) as u64));
    assert(last.len > 0);
    if k > 1 {
        frames_are_where_the_descriptors_point(
            ring,
            memory,
            k - 1,
            if i < k - 1 {
                i
            } else {
                0
            },
        );
    }
}

/// A descriptor without data gives no frame.
pub proof fn empty_descriptors_give_no_frame(ring: XdpRing, memory: Seq<u8>, k: int)
    requires
        0 <= k,
        ring.desc_at(ring.consumer.wrapping_add(k as u64)).len == 0,
    ensures
        rx_frames(ring, memory, k + 1) == rx_frames(ring, memory, k),
{
}

/// A batch takes in the frames of the descriptors that are there, up to its size, and emits
/// the packets in them behind what was emitted before. It returns how many they are and
/// moves the consumer on by that number; every frame counts as received.
pub proof fn batches_emit_their_packets<O: OutputBackend>(
    engine: &mut XdpEngine,
    memory: &[u8],
    collector: &mut StatsCollector,
    output: &mut O,
    count: u32,
    processed: usize,
    available: u32,
)
    requires
        call_ensures(
            XdpEngine::process_descriptors::<O>,
            (engine, memory, collector, output, count),
            processed,
        ),
        old(engine).umem is Some,
        old(engine).rx_ring matches Some(ring) && call_ensures(
            XdpRing::available,
            (&ring,),
            available,
        ),
        old(engine).stats.packets_received + u32::MAX <= u64::MAX,
    ensures
        ({
            let ring = old(engine).rx_ring->Some_0;
            let k = if count < available {
                count as int
            } else {
                available as int
            };
            let frames = rx_frames(ring, memory@, k);
            &&& final(output).emitted() == old(output).emitted() + packets_in(frames)
            &&& processed == packets_in(frames).len()
            &&& final(engine).rx_ring matches Some(after) && after.consumer
                == ring.consumer.wrapping_add(processed as u64) && after.producer == ring.producer
            &&& final(engine).stats.packets_received == old(engine).stats.packets_received
                + frames.len()
            &&& final(engine).fill_ring == old(engine).fill_ring
        }),
{
    let ring = old(engine).rx_ring->Some_0;
    let k = if count < available {
        count as int
    } else {
        available as int
    };
    let frames = rx_frames(ring, memory@, k);
    let before = Received {
        collector: old(collector)@,
        stats: old(engine).stats,
        emitted: old(output).emitted(),
    };
    let after = Received {
        collector: final(collector)@,
        stats: final(engine).stats,
        emitted: final(output).emitted(),
    };
    let times = choose|times: Seq<u64>|
        times.len() == frames.len() && after == #[trigger] frames_received(before, frames, times);
    parsed_packets_are_emitted(before, frames, times);
    no_more_frames_than_descriptors(ring, memory@, k);
    crate::capture::every_frame_is_counted(before, frames, times);
}

proof fn no_more_frames_than_descriptors(ring: XdpRing, memory: Seq<u8>, k: int)
    requires
        0 <= k,
    ensures
        rx_frames(ring, memory, k).len() <= k,
    decreases k,
{
    if k > 0 {
        no_more_frames_than_descriptors(ring, memory, k - 1);
    }
}

/// A round of the capture loop gives the fill ring back as many descriptors as it processed
/// packets, or as it has room for.
pub proof fn rounds_refill_the_ring<O: OutputBackend>(
    engine: &mut XdpEngine,
    memory: &[u8],
    collector: &mut StatsCollector,
    output: &mut O,
    count: u32,
    processed: usize,
    room: u32,
)
    requires
        call_ensures(
            XdpEngine::poll_descriptors::<O>,
            (engine, memory, collector, output, count),
            processed,
        ),
        old(engine).umem is Some,
        old(engine).rx_ring is Some,
        old(engine).fill_ring matches Some(ring) && ring.producer + room <= u64::MAX
            && call_ensures(XdpRing::room, (&ring,), room),
    ensures
        final(engine).fill_ring matches Some(ring) && ring.producer
            == old(engine).fill_ring->Some_0.producer + (if room < processed {
            room as int
        } else {
            processed as int
        }),
        final(output).emitted().len() == old(output).emitted().len() + processed,
        final(engine).rx_ring matches Some(ring) && ring.consumer
            == old(engine).rx_ring->Some_0.consumer.wrapping_add(processed as u64),
{
    let ring = old(engine).rx_ring->Some_0;
    let k = if count < ring.spec_available() {
        count as int
    } else {
        ring.spec_available()
    };
    let frames = rx_frames(ring, memory@, k);
    let before = Received {
        collector: old(collector)@,
        stats: old(engine).stats,
        emitted: old(output).emitted(),
    };
    let after = Received {
        collector: final(collector)@,
        stats: final(engine).stats,
        emitted: final(output).emitted(),
    };
    let times = choose|times: Seq<u64>|
        times.len() == frames.len() && after == #[trigger] frames_received(before, frames, times);
    parsed_packets_are_emitted(before, frames, times);
}

/// The options of a socket: zero copy, then the memory with its address, its size and the
/// size of its frames, then the fill ring and the receive ring with their size.
pub proof fn sockets_are_set_up_as_configured(
    engine: XdpEngine,
    addr: u64,
    options: Vec<XdpOption>,
    i: int,
    number: i32,
)
    requires
        call_ensures(XdpEngine::socket_options, (&engine, addr), options),
        0 <= i < 4,
        call_ensures(XdpOption::number, (&options@[i],), number),
    ensures
        options@.len() == 4,
        options@[0] == XdpOption::Options(1),
        options@[1] matches XdpOption::UmemReg(umem) && umem.addr == addr && umem.len
            == engine.config.umem_size && umem.chunk_size == engine.config.frame_size as u32
            && umem.headroom == 0 && umem.flags == 0,
        options@[2] == XdpOption::FillRing(engine.config.fill_ring_size),
        options@[3] == XdpOption::RxRing(engine.config.fill_ring_size),
        i == 0 ==> number == 7,
        i == 1 ==> number == 1,
        i == 2 ==> number == 2,
        i == 3 ==> number == 4,
{
}

/// An engine that is attached to memory has it, and two empty rings of the configured size;
/// its counters stay.
pub proof fn attached_engines_have_rings(engine: &mut XdpEngine, umem: UMemLayout)
    requires
        old(engine).config.fill_ring_size >= 1,
        call_ensures(XdpEngine::attach, (engine, umem), ()),
    ensures
        final(engine).umem == Some(umem),
        final(engine).stats == old(engine).stats,
        final(engine).config == old(engine).config,
        final(engine).fill_ring matches Some(ring) && ring.size == old(engine).config.fill_ring_size
            && ring.producer == 0 && ring.consumer == 0,
        final(engine).rx_ring matches Some(ring) && ring.size == old(engine).config.fill_ring_size
            && ring.producer == 0 && ring.consumer == 0,
{
}

/// An engine is made for its configuration, with nothing received yet.
pub proof fn new_engines_have_received_nothing(
    config: CaptureConfig,
    xdp: Result<XdpEngine, CaptureError>,
    tpacket: Result<TpacketEngine, CaptureError>,
    valid: Result<(), CaptureError>,
)
    requires
        call_ensures(XdpEngine::new, (config,), xdp),
        call_ensures(TpacketEngine::new, (config,), tpacket),
        call_ensures(CaptureConfig::validate, (&config,), valid),
    ensures
        xdp is Ok <==> valid is Ok,
        tpacket is Ok <==> valid is Ok,
        xdp matches Ok(engine) ==> engine.config == config && engine.rx_ring is None
            && engine.stats.packets_received == 0 && engine.stats.bytes_received == 0,
        tpacket matches Ok(engine) ==> engine.config == config && engine.stats.packets_received
            == 0 && engine.stats.bytes_received == 0,
{
}

/// The ring that is asked of the kernel: the blocks as configured, or 64 of 4 MB, each cut
/// into frames of the configured size; the memory is that of the blocks.
pub proof fn rings_are_asked_as_configured(engine: TpacketEngine, ring: (PacketReq3, usize))
    requires
        call_ensures(TpacketEngine::setup_ring, (&engine,), ring),
        1 <= engine.config.frame_size <= u32::MAX,
    ensures
        ring.0.block_size == if engine.config.block_size == 0 {
            4_194_304
        } else {
            engine.config.block_size
        },
        ring.0.block_nr == if engine.config.num_blocks == 0 {
            64
        } else {
            engine.config.num_blocks
        },
        ring.0.frame_size == engine.config.frame_size,
        ring.0.retire_blk_tov == 10,
        ring.1 == ring.0.block_size * ring.0.block_nr,
        ring.0.frame_nr == (ring.0.block_size / ring.0.frame_size) * ring.0.block_nr,
{
}

/// A word in memory is its four bytes, the highest first or last.
pub proof fn words_are_their_bytes(data: Seq<u8>, at: int)
    requires
        0 <= at,
        at + 4 <= data.len(),
    ensures
        network_bytes(u32_at(data, at, ByteOrder::Big) as nat, 4) == data.subrange(at, at + 4),
        network_bytes(u32_at(data, at, ByteOrder::Little) as nat, 4) == seq![
            data[at + 3],
            data[at + 2],
            data[at + 1],
            data[at],
        ],
{
    crate::parser::header_laws::four_bytes(data, at);
    let reversed = seq![data[at + 3], data[at + 2], data[at + 1], data[at]];
    crate::parser::header_laws::four_bytes(reversed, 0);
    assert(reversed.subrange(0, 4) =~= reversed);
}

/// Whether the slot at `slot` is ready, with data that lie in the memory.
pub open spec fn is_ready(memory: Seq<u8>, slot: int, data: int, order: ByteOrder) -> bool {
    &&& 0 <= slot
    &&& slot + 8 <= memory.len()
    &&& u32_at(memory, slot, order) % 2 == 1
    &&& u32_at(memory, slot + 4, order) > 0
    &&& slot + data + u32_at(memory, slot + 4, order) <= memory.len()
}

proof fn clearing_leaves_what_is_behind(
    memory: Seq<u8>,
    slot: int,
    later: int,
    data: int,
    order: ByteOrder,
)
    requires
        0 <= slot,
        slot + 8 <= memory.len(),
        slot + 4 <= later,
        data >= 0,
    ensures
        ({
            let cleared = slot_cleared(memory, slot);
            &&& cleared.len() == memory.len()
            &&& later + 8 <= memory.len() ==> u32_at(cleared, later, order) == u32_at(
                memory,
                later,
                order,
            ) && u32_at(cleared, later + 4, order) == u32_at(memory, later + 4, order)
            &&& is_ready(cleared, later, data, order) == is_ready(memory, later, data, order)
            &&& is_ready(memory, later, data, order) ==> cleared.subrange(
                later + data,
                later + data + u32_at(memory, later + 4, order),
            ) == memory.subrange(later + data, later + data + u32_at(memory, later + 4, order))
        }),
{
    let cleared = slot_cleared(memory, slot);
    assert forall|i: int| later <= i < memory.len() implies #[trigger] cleared[i] == memory[i] by {}
    if is_ready(memory, later, data, order) {
        let len = u32_at(memory, later + 4, order);
        assert(cleared.subrange(later + data, later + data + len) =~= memory.subrange(
            later + data,
            later + data + len,
        ));
    }
}

/// The place of slot number `j`, where the first one is at `first` and each lies `next`
/// bytes behind the one before.
pub open spec fn nth_slot(first: int, next: int, j: int) -> int {
    first + j * next
}

proof fn slots_follow(first: int, next: int, j: int)
    requires
        0 <= j,
        4 <= next,
    ensures
        nth_slot(first + next, next, j) == nth_slot(first, next, j + 1),
        nth_slot(first, next, j + 1) >= first + 4,
        nth_slot(first, next, 0) == first,
{
    assert((j + 1) * next == j * next + next) by (nonlinear_arith);
    assert(j * next >= 0) by (nonlinear_arith)
        requires
            j >= 0,
            next >= 4,
    ;
}

/// Slots that are ready, each a fixed distance behind the one before, are all walked up to
/// the first that is not, or to the end of the block; each gives its own data.
proof fn ready_slots_are_walked(
    memory: Seq<u8>,
    base: int,
    size: int,
    data: int,
    next: int,
    at: int,
    order: ByteOrder,
    k: int,
    i: int,
)
    requires
        0 <= base,
        0 <= at,
        0 <= data,
        4 <= next,
        0 <= k,
        forall|j: int|
            0 <= j < k ==> (#[trigger] nth_slot(base + at, next, j)) < base + size && is_ready(
                memory,
                nth_slot(base + at, next, j),
                data,
                order,
            ),
        nth_slot(base + at, next, k) >= base + size || nth_slot(base + at, next, k) + 8
            > memory.len() || u32_at(memory, nth_slot(base + at, next, k), order) % 2 == 0,
        0 <= i < k || k == 0,
    ensures
        ({
            let walk = walk_slots(memory, base, size, data, next, at, order);
            &&& walk.frames.len() == k
            &&& k > 0 ==> {
                let slot = nth_slot(base + at, next, i);
                walk.frames[i] == memory.subrange(
                    slot + data,
                    slot + data + u32_at(memory, slot + 4, order),
                )
            }
        }),
    decreases k,
{
    let walk = walk_slots(memory, base, size, data, next, at, order);
    let slot = base + at;
    slots_follow(slot, next, 0);
    if k > 0 {
        assert(nth_slot(slot, next, 0) < base + size);
        let cleared = slot_cleared(memory, slot);
        assert forall|j: int| 0 <= j < k - 1 implies (#[trigger] nth_slot(
            base + (at + next),
            next,
            j,
        )) < base + size && is_ready(
            cleared,
            nth_slot(base + (at + next), next, j),
            data,
            order,
        ) by {
            slots_follow(slot, next, j);
            assert(is_ready(memory, nth_slot(slot, next, j + 1), data, order));
            clearing_leaves_what_is_behind(memory, slot, nth_slot(slot, next, j + 1), data, order);
        }
        slots_follow(slot, next, k - 1);
        clearing_leaves_what_is_behind(memory, slot, nth_slot(slot, next, k), data, order);
        if i == 0 {
            ready_slots_are_walked(cleared, base, size, data, next, at + next, order, k - 1, 0);
        } else {
            ready_slots_are_walked(cleared, base, size, data, next, at + next, order, k - 1, i - 1);
            slots_follow(slot, next, i - 1);
            assert(is_ready(memory, nth_slot(slot, next, i), data, order));
            clearing_leaves_what_is_behind(memory, slot, nth_slot(slot, next, i), data, order);
        }
    }
}

/// A block says in its header where its first slot is (word at 28), where in a slot the data
/// are (word at 32) and how far apart the slots lie (word at 44). Its slots are walked in
/// that order up to the first that is not ready, and each gives its own data as a frame.
pub proof fn blocks_give_the_data_of_their_slots(
    memory: Seq<u8>,
    base: int,
    size: int,
    order: ByteOrder,
    k: int,
    i: int,
)
    requires
        0 <= base,
        48 <= size,
        base + size <= memory.len(),
        u32_at(memory, base + 8, order) > 0,
        u32_at(memory, base + 44, order) >= 4,
        ({
            let first = base + u32_at(memory, base + 28, order);
            let data = u32_at(memory, base + 32, order) as int;
            let next = u32_at(memory, base + 44, order) as int;
            &&& forall|j: int|
                0 <= j < k ==> (#[trigger] nth_slot(first, next, j)) < base + size && is_ready(
                    memory,
                    nth_slot(first, next, j),
                    data,
                    order,
                )
            &&& nth_slot(first, next, k) >= base + size || nth_slot(first, next, k) + 8
                > memory.len() || u32_at(memory, nth_slot(first, next, k), order) % 2 == 0
        }),
        0 <= i < k,
    ensures
        ({
            let first = base + u32_at(memory, base + 28, order);
            let data = u32_at(memory, base + 32, order) as int;
            let next = u32_at(memory, base + 44, order) as int;
            let slot = nth_slot(first, next, i);
            &&& walk_block(memory, base, size, order).frames.len() == k
            &&& walk_block(memory, base, size, order).frames[i] == memory.subrange(
                slot + data,
                slot + data + u32_at(memory, slot + 4, order),
            )
        }),
{
    let first = u32_at(memory, base + 28, order) as int;
    let data = u32_at(memory, base + 32, order) as int;
    let next = u32_at(memory, base + 44, order) as int;
    ready_slots_are_walked(memory, base, size, data, next, first, order, k, i);
}

/// A block without a size, or without room for a header, gives nothing.
pub proof fn blocks_without_a_size_give_nothing(
    memory: Seq<u8>,
    base: int,
    size: int,
    order: ByteOrder,
)
    requires
        size < 48 || u32_at(memory, base + 8, order) == 0,
    ensures
        walk_block(memory, base, size, order).frames.len() == 0,
        walk_block(memory, base, size, order).memory == memory,
{
}

/// A slot that was walked is given back: its status is 0, and it is not found again.
pub proof fn walked_slots_are_given_back(
    memory: Seq<u8>,
    base: int,
    size: int,
    data: int,
    next: int,
    at: int,
    order: ByteOrder,
)
    requires
        0 <= base,
        0 <= at < size,
        0 <= data,
        4 <= next,
        is_ready(memory, base + at, data, order),
    ensures
        ({
            let after = walk_slots(memory, base, size, data, next, at, order).memory;
            &&& after.len() == memory.len()
            &&& after[base + at] == 0 && after[base + at + 1] == 0 && after[base + at + 2] == 0
                && after[base + at + 3] == 0
        }),
{
    let cleared = slot_cleared(memory, base + at);
    assert(cleared[base + at] == 0 && cleared[base + at + 1] == 0 && cleared[base + at + 2] == 0
        && cleared[base + at + 3] == 0);
    crate::capture::tpacket::walk_slots_only_clears(
        cleared,
        base,
        size,
        data,
        next,
        at + next,
        order,
    );
    let after = walk_slots(cleared, base, size, data, next, at + next, order).memory;
    assert(crate::capture::tpacket::only_cleared(cleared, after));
    assert(after[base + at] == 0 && after[base + at + 1] == 0 && after[base + at + 2] == 0
        && after[base + at + 3] == 0);
}

/// Blocks lie one behind the other, as far as the memory holds them, and give their frames
/// in that order.
pub proof fn blocks_are_walked_in_order(memory: Seq<u8>, size: int, n: int, order: ByteOrder)
    requires
        0 <= n,
        48 <= size,
        (n + 1) * size <= memory.len(),
    ensures
        ({
            let before = walk_blocks(memory, size, n, order);
            let after = walk_blocks(memory, size, n + 1, order);
            let block = walk_block(before.memory, n * size, size, order);
            &&& after.frames == before.frames + block.frames
            &&& after.memory == block.memory
            &&& before.memory.len() == memory.len()
        }),
{
    crate::capture::tpacket::walk_only_clears(memory, size, n, order);
    assert((n + 1) * size == n * size + size) by (nonlinear_arith);
}

/// Processing blocks takes in the frames that the blocks give, as many blocks as asked for
/// or as configured, and emits the packets in them behind what was emitted before; it
/// returns how many they are.
pub proof fn blocks_emit_their_packets<O: OutputBackend>(
    engine: &mut TpacketEngine,
    memory: &mut [u8],
    collector: &mut StatsCollector,
    output: &mut O,
    blocks: u32,
    processed: usize,
)
    requires
        call_ensures(
            TpacketEngine::process_blocks::<O>,
            (engine, memory, collector, output, blocks),
            processed,
        ),
        old(engine).config.block_size > 0,
        old(engine).config.num_blocks > 0,
    ensures
        ({
            let n = if blocks < old(engine).config.num_blocks {
                blocks as int
            } else {
                old(engine).config.num_blocks as int
            };
            let walk = walk_blocks(
                old(memory)@,
                old(engine).config.block_size as int,
                n,
                old(engine).order,
            );
            &&& final(output).emitted() == old(output).emitted() + packets_in(walk.frames)
            &&& processed == packets_in(walk.frames).len()
            &&& final(memory)@ == walk.memory
            &&& old(engine).stats.packets_received + walk.frames.len() <= u64::MAX
                ==> final(engine).stats.packets_received == old(engine).stats.packets_received
                + walk.frames.len()
        }),
{
    let n = if blocks < old(engine).config.num_blocks {
        blocks as int
    } else {
        old(engine).config.num_blocks as int
    };
    let frames = walk_blocks(
        old(memory)@,
        old(engine).config.block_size as int,
        n,
        old(engine).order,
    ).frames;
    let before = Received {
        collector: old(collector)@,
        stats: old(engine).stats,
        emitted: old(output).emitted(),
    };
    let after = Received {
        collector: final(collector)@,
        stats: final(engine).stats,
        emitted: final(output).emitted(),
    };
    let times = choose|times: Seq<u64>|
        times.len() == frames.len() && after == #[trigger] frames_received(before, frames, times);
    parsed_packets_are_emitted(before, frames, times);
    if old(engine).stats.packets_received + frames.len() <= u64::MAX {
        crate::capture::every_frame_is_counted(before, frames, times);
    }
}

/// A position has its place in a ring by what is left when whole turns are taken off.
pub proof fn places_go_round(ring: XdpRing, idx: u32, desc: &XdpDesc)
    requires
        ring.well_formed(),
        is_pow2(ring.size as int),
        call_ensures(XdpRing::get_desc, (&ring, idx), desc),
    ensures
        *desc == ring.descriptors@[idx as int % ring.size as int],
{
    rest_by_mask(idx as u64, ring.size);
}

proof fn rest_by_mask(position: u64, size: u32)
    requires
        is_pow2(size as int),
    ensures
        ring_place(position, (size - 1) as u32) == position as int % size as int,
    decreases size,
{
    let mask = (size - 1) as u32;
    let wide_mask = mask as u64;
    reveal(is_pow2);
    if size == 1 {
        assert(position & 0u64 == 0) by (bit_vector);
    } else {
        let half = (size / 2) as u32;
        let half_mask = (half - 1) as u32;
        rest_by_mask(position / 2, half);
        let wide_half_mask = half_mask as u64;
        assert(position & wide_mask == 2 * ((position / 2) & wide_half_mask) + position % 2)
            by (bit_vector)
            requires
                wide_mask == 2 * wide_half_mask + 1,
                wide_half_mask < 0x8000_0000,
        ;
        rest_by_half(position as int, half as int);
        assert(size == 2 * half);
    }
}

/// What is left by an even number, from what is left of half by half of it.
proof fn rest_by_half(p: int, h: int)
    requires
        0 <= p,
        0 < h,
    ensures
        p % (2 * h) == 2 * ((p / 2) % h) + p % 2,
{
    let q = (p / 2) / h;
    let r = (p / 2) % h;
    let size = 2 * h;
    let rest = 2 * r + p % 2;
    vstd::arithmetic::div_mod::lemma_fundamental_div_mod(p / 2, h);
    vstd::arithmetic::div_mod::lemma_mod_bound(p / 2, h);
    assert(0 <= r < h);
    assert(0 <= rest < size);
    assert(q * size == 2 * (h * q)) by (nonlinear_arith)
        requires
            size == 2 * h,
    ;
    assert(p == q * size + rest);
    vstd::arithmetic::div_mod::lemma_fundamental_div_mod_converse(p, size, q, rest);
}

/// What was produced and not consumed is there to consume.
pub proof fn what_is_produced_can_be_consumed(ring: XdpRing, available: u32)
    requires
        ring.well_formed(),
        is_pow2(ring.size as int),
        ring.consumer <= ring.producer,
        ring.producer - ring.consumer < ring.size,
        call_ensures(XdpRing::available, (&ring,), available),
    ensures
        available == ring.producer - ring.consumer,
{
    let left = (ring.producer - ring.consumer) as u64;
    rest_by_mask(left, ring.size);
    vstd::arithmetic::div_mod::lemma_small_mod(left as nat, ring.size as nat);
}

/// However early a capture is told to stop, what it emits are the packets of the first
/// descriptors, in order, behind what was emitted before; it returns how many they are.
pub proof fn stopped_batches_emit_the_first_packets<O: OutputBackend>(
    engine: &mut XdpEngine,
    memory: &[u8],
    collector: &mut StatsCollector,
    output: &mut O,
    shutdown: &std::sync::atomic::AtomicBool,
    processed: usize,
)
    requires
        call_ensures(
            XdpEngine::process_packets::<O>,
            (engine, memory, collector, output, shutdown),
            processed,
        ) || call_ensures(
            XdpEngine::poll::<O>,
            (engine, memory, collector, output, shutdown),
            processed,
        ),
        old(engine).umem is Some,
        old(engine).rx_ring is Some,
    ensures
        exists|k: int|
            {
                &&& 0 <= k <= old(engine).rx_ring->Some_0.spec_available()
                &&& processed == packets_in(
                    #[trigger] rx_frames(old(engine).rx_ring->Some_0, memory@, k),
                ).len()
                &&& final(output).emitted() == old(output).emitted() + packets_in(
                    rx_frames(old(engine).rx_ring->Some_0, memory@, k),
                )
            },
        final(engine).rx_ring matches Some(ring) && ring.consumer
            == old(engine).rx_ring->Some_0.consumer.wrapping_add(processed as u64),
{
    let ring = old(engine).rx_ring->Some_0;
    let k = choose|k: int|
        0 <= k <= crate::capture::af_xdp::batch_size(*old(engine), u32::MAX)
            && #[trigger] crate::capture::af_xdp::batch_processed(
            *old(engine),
            *final(engine),
            memory@,
            (old(collector)@, old(output).emitted()),
            (final(collector)@, final(output).emitted()),
            processed as int,
            k,
        );
    let frames = rx_frames(ring, memory@, k);
    let before = Received {
        collector: old(collector)@,
        stats: old(engine).stats,
        emitted: old(output).emitted(),
    };
    let after = Received {
        collector: final(collector)@,
        stats: final(engine).stats,
        emitted: final(output).emitted(),
    };
    let times = choose|times: Seq<u64>|
        times.len() == frames.len() && after == #[trigger] frames_received(before, frames, times);
    parsed_packets_are_emitted(before, frames, times);
}

/// Descriptors are in bounds where each that holds data ends within the memory.
pub proof fn descriptors_end_within_the_memory(
    engine: XdpEngine,
    size: usize,
    in_bounds: bool,
    i: int,
)
    requires
        engine.well_formed(),
        call_ensures(XdpEngine::descriptors_in_bounds, (&engine, size), in_bounds),
        in_bounds,
        engine.rx_ring matches Some(ring) && 0 <= i < ring.spec_available(),
    ensures
        ({
            let ring = engine.rx_ring->Some_0;
            let desc = ring.desc_at(ring.consumer.wrapping_add(i as u64));
            desc.len > 0 ==> desc.addr + desc.len <= size
        }),
{
}

/// However early a walk over the blocks is told to stop, what it emits are the packets of
/// the first blocks, in order, behind what was emitted before.
pub proof fn stopped_walks_emit_the_first_packets<O: OutputBackend>(
    engine: &mut TpacketEngine,
    memory: &mut [u8],
    collector: &mut StatsCollector,
    output: &mut O,
    shutdown: &std::sync::atomic::AtomicBool,
    processed: usize,
)
    requires
        call_ensures(
            TpacketEngine::process_packets::<O>,
            (engine, memory, collector, output, shutdown),
            processed,
        ),
        old(engine).config.block_size > 0,
        old(engine).config.num_blocks > 0,
    ensures
        final(output).emitted().len() == old(output).emitted().len() + processed,
        exists|n: int|
            {
                &&& 0 <= n <= old(engine).config.num_blocks
                &&& final(memory)@ == (#[trigger] walk_blocks(
                    old(memory)@,
                    old(engine).config.block_size as int,
                    n,
                    old(engine).order,
                )).memory
                &&& final(output).emitted() == old(output).emitted() + packets_in(
                    walk_blocks(
                        old(memory)@,
                        old(engine).config.block_size as int,
                        n,
                        old(engine).order,
                    ).frames,
                )
            },
{
    let before = Received {
        collector: old(collector)@,
        stats: old(engine).stats,
        emitted: old(output).emitted(),
    };
    let after = Received {
        collector: final(collector)@,
        stats: final(engine).stats,
        emitted: final(output).emitted(),
    };
    let n = choose|n: int|
        0 <= n <= crate::capture::tpacket::walked_blocks(old(engine).config)
            && #[trigger] crate::capture::tpacket::blocks_processed(
            before,
            after,
            old(memory)@,
            final(memory)@,
            crate::capture::tpacket::walked_block_size(old(engine).config),
            old(engine).order,
            n,
        );
    let frames = walk_blocks(
        old(memory)@,
        old(engine).config.block_size as int,
        n,
        old(engine).order,
    ).frames;
    let times = choose|times: Seq<u64>|
        times.len() == frames.len() && after == #[trigger] frames_received(before, frames, times);
    parsed_packets_are_emitted(before, frames, times);
}

} // verus!
