//! The AF_XDP backend: descriptor rings over packet memory.

use crate::bytes::smaller;
use crate::capture::{
    config_message, config_problem, frames_received, frames_taken, is_invalid_config, packets_in,
    parsed_packets_are_emitted, stop_requested, take_frame, CaptureConfig, CaptureError,
    CaptureStats, Received,
};
use crate::output::OutputBackend;
use crate::parser::packet::PacketModel;
use crate::parser::PacketParser;
use crate::stats::{CollectorModel, StatsCollector};
use crate::umem::UMemLayout;
use vstd::arithmetic::power2::is_pow2;
use vstd::prelude::*;

verus! {

/// Default number of descriptors in the rings that are produced to
pub const XSK_RING_PROD__DEFAULT_NUM_DESCS: u32 = 2048;

/// Default number of descriptors in the rings that are consumed from
pub const XSK_RING_CONS__DEFAULT_NUM_DESCS: u32 = 2048;

/// A descriptor of packet data.
#[derive(Debug, Clone, Copy, PartialEq, Eq, Structural)]
pub struct XdpDesc {
    /// Address offset into UMEM
    pub addr: u64,
    /// Length of packet data
    pub len: u32,
    /// Options
    pub options: u32,
}

impl Default for XdpDesc {
    fn default() -> (desc: XdpDesc)
        ensures
            desc == (XdpDesc { addr: 0, len: 0, options: 0 }),
    {
        XdpDesc { addr: 0, len: 0, options: 0 }
    }
}

/// The place in a ring of the descriptor at a position that only ever grows.
pub open spec fn ring_place(position: u64, mask: u32) -> int {
    (position & (mask as u64)) as int
}

pub(crate) proof fn ring_place_in_bounds(position: u64, mask: u32)
    ensures
        0 <= ring_place(position, mask) <= mask,
{
    let wide_mask = mask as u64;
    assert(position & wide_mask <= wide_mask) by (bit_vector);
}

/// A ring of descriptors between a producer and a consumer.
#[derive(Debug)]
pub struct XdpRing {
    /// Position after the last descriptor produced
    pub producer: u64,
    /// Position of the next descriptor to consume
    pub consumer: u64,
    /// The descriptors
    pub descriptors: Vec<XdpDesc>,
    /// Mask that turns a position into a place
    pub mask: u32,
    /// Ring size
    pub size: u32,
}

impl XdpRing {
    /// Whether every place that the mask yields has a descriptor.
    pub open spec fn well_formed(self) -> bool {
        &&& self.size >= 1
        &&& self.mask == self.size - 1
        &&& self.descriptors@.len() == self.size
    }

    /// The number of descriptors to consume: what was produced and not consumed, as far
    /// as the mask shows.
    pub open spec fn spec_available(self) -> int {
        ring_place(self.producer.wrapping_sub(self.consumer), self.mask)
    }

    /// The number of descriptors that can still be produced. One place stays free, since
    /// the mask cannot tell a full ring from an empty one.
    pub open spec fn spec_room(self) -> int {
        self.mask - self.spec_available()
    }

    /// The ring once `k` more descriptors are consumed.
    pub open spec fn consumed(self, k: int) -> XdpRing {
        XdpRing { consumer: self.consumer.wrapping_add(k as u64), ..self }
    }

    /// The descriptor at a position.
    pub open spec fn desc_at(self, position: u64) -> XdpDesc {
        self.descriptors@[ring_place(position, self.mask)]
    }

    /// An empty ring of `size` descriptors.
    pub fn new(size: u32) -> (ring: XdpRing)
        requires
            size >= 1,
        ensures
            is_new_ring(ring, size),
    {
        let mut descriptors: Vec<XdpDesc> = Vec::new();
        let mut i: u32 = 0;
        while i < size
            invariant
                i <= size,
                descriptors@.len() == i,
                forall|j: int|
                    0 <= j < i ==> descriptors@[j] == (XdpDesc { addr: 0, len: 0, options: 0 }),
            decreases size - i,
        {
            descriptors.push(XdpDesc::default());
            i = i + 1;
        }
        XdpRing { producer: 0, consumer: 0, descriptors, mask: size - 1, size }
    }

    /// The number of descriptors to consume.
    pub fn available(&self) -> (count: u32)
        ensures
            count == self.spec_available(),
            count <= self.mask,
    {
        proof {
            ring_place_in_bounds(self.producer.wrapping_sub(self.consumer), self.mask);
        }
        (self.producer.wrapping_sub(self.consumer) & (self.mask as u64)) as u32
    }

    /// The number of descriptors that can still be produced.
    pub fn room(&self) -> (count: u32)
        ensures
            count == self.spec_room(),
            count <= self.mask,
    {
        self.mask - self.available()
    }

    /// The descriptor at a position.
    pub fn get_desc(&self, idx: u32) -> (desc: &XdpDesc)
        requires
            self.well_formed(),
        ensures
            *desc == self.desc_at(idx as u64),
    {
        proof {
            ring_place_in_bounds(idx as u64, self.mask);
            let mask = self.mask;
            assert((idx & mask) as u64 == (idx as u64) & (mask as u64)) by (bit_vector);
        }
        &self.descriptors[(idx & self.mask) as usize]
    }

    /// Hands `num_entries` descriptors over to the consumer.
    pub fn submit(&mut self, num_entries: u32)
        ensures
            *final(self) == (XdpRing {
                producer: old(self).producer.wrapping_add(num_entries as u64),
                ..*old(self)
            }),
    {
        self.producer = self.producer.wrapping_add(num_entries as u64);
    }
}

/// Whether `ring` is a ring of `size` empty descriptors, none of them produced.
pub open spec fn is_new_ring(ring: XdpRing, size: u32) -> bool {
    &&& ring.well_formed()
    &&& ring.size == size
    &&& ring.producer == 0
    &&& ring.consumer == 0
    &&& forall|i: int|
        0 <= i < size ==> ring.descriptors@[i] == (XdpDesc { addr: 0, len: 0, options: 0 })
}

/// The descriptor of frame `i` of packet memory in frames of `frame_size`.
pub open spec fn frame_desc(i: int, frame_size: usize) -> XdpDesc {
    XdpDesc { addr: (i as u64).wrapping_mul(frame_size as u64), len: frame_size as u32, options: 0 }
}

/// Whether `after` is `before` with the descriptors of the first `n` frames written
/// after the producer's position.
pub open spec fn frames_offered(
    before: XdpRing,
    after: XdpRing,
    n: int,
    frame_size: usize,
) -> bool {
    &&& after.producer == before.producer.wrapping_add(n as u64)
    &&& after.consumer == before.consumer
    &&& after.mask == before.mask
    &&& after.size == before.size
    &&& after.descriptors@ == descs_written(before, n, frame_size)
}

/// The descriptors of `ring` with those of the first `n` frames written after the
/// producer's position.
pub open spec fn descs_written(ring: XdpRing, n: int, frame_size: usize) -> Seq<XdpDesc>
    decreases n,
{
    if n <= 0 {
        ring.descriptors@
    } else {
        descs_written(ring, n - 1, frame_size).update(
            ring_place(ring.producer.wrapping_add((n - 1) as u64), ring.mask),
            frame_desc(n - 1, frame_size),
        )
    }
}

/// The frames that the first `k` descriptors to consume point at. Descriptors without
/// data are passed over.
pub open spec fn rx_frames(ring: XdpRing, memory: Seq<u8>, k: int) -> Seq<Seq<u8>>
    decreases k,
{
    if k <= 0 {
        Seq::empty()
    } else {
        let before = rx_frames(ring, memory, k - 1);
        let desc = ring.desc_at(ring.consumer.wrapping_add((k - 1) as u64));
        if desc.len == 0 {
            before
        } else {
            before.push(memory.subrange(desc.addr as int, desc.addr + desc.len))
        }
    }
}

/// Whether the descriptors to consume point into `size` bytes of memory.
pub open spec fn rx_in_bounds(ring: XdpRing, size: int) -> bool {
    forall|i: int| #![trigger ring.consumer.wrapping_add(i as u64)]
        0 <= i < ring.spec_available() ==> {
            let desc = ring.desc_at(ring.consumer.wrapping_add(i as u64));
            desc.len == 0 || desc.addr + desc.len <= size
        }
}

/// The registration of packet memory with a socket.
#[derive(Debug, Clone, Copy, PartialEq, Eq, Structural)]
pub struct XdpUmemReg {
    /// Address of the memory
    pub addr: u64,
    /// Size of the memory in bytes
    pub len: u64,
    /// Size of a frame in bytes
    pub chunk_size: u32,
    /// Bytes kept free at the start of a frame
    pub headroom: u32,
    /// Flags
    pub flags: u32,
}

/// An option that is set on an AF_XDP socket, with its value.
#[derive(Debug, Clone, Copy, PartialEq, Eq, Structural)]
pub enum XdpOption {
    /// Socket flags
    Options(u32),
    /// Packet memory
    UmemReg(XdpUmemReg),
    /// Size of the fill ring
    FillRing(u32),
    /// Size of the receive ring
    RxRing(u32),
}

impl XdpOption {
    /// The number of the option.
    pub fn number(&self) -> (number: i32)
        ensures
            number == (match self {
                XdpOption::Options(_) => 7i32,
                XdpOption::UmemReg(_) => 1,
                XdpOption::FillRing(_) => 2,
                XdpOption::RxRing(_) => 4,
            }),
    {
        match self {
            XdpOption::Options(_) => 7,
            XdpOption::UmemReg(_) => 1,
            XdpOption::FillRing(_) => 2,
            XdpOption::RxRing(_) => 4,
        }
    }
}

/// The options to set, in order, for a capture by `config` into the memory at `umem_addr`:
/// zero copy, the memory, and the two rings, which are of the same size.
pub open spec fn options_for(config: CaptureConfig, umem_addr: u64) -> Seq<XdpOption> {
    seq![
        XdpOption::Options(1),
        XdpOption::UmemReg(
            XdpUmemReg {
                addr: umem_addr,
                len: config.umem_size as u64,
                chunk_size: config.frame_size as u32,
                headroom: 0,
                flags: 0,
            },
        ),
        XdpOption::FillRing(config.fill_ring_size),
        XdpOption::RxRing(config.fill_ring_size),
    ]
}

/// The AF_XDP engine: its rings, and what went through them. The memory that its
/// descriptors point into is handed to it.
#[derive(Debug)]
pub struct XdpEngine {
    /// Configuration
    pub config: CaptureConfig,
    /// Layout of the packet memory, once there is one
    pub umem: Option<UMemLayout>,
    /// Fill ring, once there is one
    pub fill_ring: Option<XdpRing>,
    /// Receive ring, once there is one
    pub rx_ring: Option<XdpRing>,
    /// Counters
    pub stats: CaptureStats,
}

/// Takes in the frames of up to `count` descriptors that `ring` offers; fewer only where
/// there is a flag and it tells to stop. Returns how many descriptors were taken, and how
/// many of their frames could be parsed.
#[verifier::rlimit(40)]
fn take_frames<O: OutputBackend>(
    ring: &XdpRing,
    memory: &[u8],
    count: u32,
    collector: &mut StatsCollector,
    stats: &mut CaptureStats,
    output: &mut O,
    shutdown: Option<&std::sync::atomic::AtomicBool>,
) -> (taken: (u32, usize))
    requires
        ring.well_formed(),
        rx_in_bounds(*ring, memory@.len() as int),
    ensures
        taken.0 <= smaller(count as int, ring.spec_available()),
        shutdown is None ==> taken.0 == smaller(count as int, ring.spec_available()),
        taken.1 == packets_in(rx_frames(*ring, memory@, taken.0 as int)).len(),
        frames_taken(
            Received {
                collector: old(collector)@,
                stats: *old(stats),
                emitted: old(output).emitted(),
            },
            Received {
                collector: final(collector)@,
                stats: *final(stats),
                emitted: final(output).emitted(),
            },
            rx_frames(*ring, memory@, taken.0 as int),
        ),
{
    let mut parser = PacketParser::new();
    let available: u32 = ring.available();
    let wanted: u32 = if count < available {
        count
    } else {
        available
    };
    let mut processed: usize = 0;
    let mut i: u32 = 0;
    let mut stop = false;
    let ghost start = Received {
        collector: collector@,
        stats: *stats,
        emitted: output.emitted(),
    };
    let ghost mut times: Seq<u64> = Seq::empty();
    while i < wanted && !stop
        invariant
            i <= wanted <= ring.spec_available(),
            stop ==> shutdown is Some,
            ring.well_formed(),
            rx_in_bounds(*ring, memory@.len() as int),
            processed <= i,
            processed == output.emitted().len() - start.emitted.len(),
            times.len() == rx_frames(*ring, memory@, i as int).len(),
            (Received { collector: collector@, stats: *stats, emitted: output.emitted() })
                == frames_received(start, rx_frames(*ring, memory@, i as int), times),
        decreases
            wanted - i,
            (if stop {
                0int
            } else {
                1
            }),
    {
        if let Some(flag) = shutdown {
            stop = stop_requested(flag);
        }
        if !stop {
            let position: u64 = ring.consumer.wrapping_add(i as u64);
            proof {
                ring_place_in_bounds(position, ring.mask);
            }
            let desc = ring.descriptors[(position & (ring.mask as u64)) as usize];
            assert(desc == ring.desc_at(ring.consumer.wrapping_add(i as u64)));
            let ghost frames = rx_frames(*ring, memory@, i as int);
            if desc.len != 0 {
                assert(memory.len() == memory@.len());
                let from: usize = desc.addr as usize;
                let to: usize = from + desc.len as usize;
                let (parsed, Ghost(now_ns)) = take_frame(
                    &mut parser,
                    &memory[from..to],
                    collector,
                    stats,
                    output,
                );
                proof {
                    let frame = memory@.subrange(from as int, to as int);
                    assert(frames.push(frame).drop_last() =~= frames);
                    assert(times.push(now_ns).drop_last() =~= times);
                    times = times.push(now_ns);
                }
                if parsed {
                    processed = processed + 1;
                }
            }
            i = i + 1;
        }
    }
    proof {
        parsed_packets_are_emitted(start, rx_frames(*ring, memory@, i as int), times);
    }
    (i, processed)
}

impl XdpEngine {
    /// Whether the rings, as far as there are any, are well-formed.
    pub open spec fn well_formed(self) -> bool {
        &&& self.fill_ring matches Some(ring) ==> ring.well_formed()
        &&& self.rx_ring matches Some(ring) ==> ring.well_formed()
    }

    /// An engine without memory and rings, if the configuration is valid.
    pub fn new(config: CaptureConfig) -> (engine: Result<XdpEngine, CaptureError>)
        ensures
            match engine {
                Ok(engine) => {
                    &&& config_problem(config) is None
                    &&& engine.well_formed()
                    &&& engine.config == config
                    &&& engine.umem is None
                    &&& engine.fill_ring is None
                    &&& engine.rx_ring is None
                    &&& engine.stats == (CaptureStats {
                        packets_received: 0,
                        packets_dropped: 0,
                        bytes_received: 0,
                        packets_in_flight: 0,
                    })
                },
                Err(error) => match config_problem(config) {
                    Some(problem) => is_invalid_config(error, config_message(problem)),
                    None => false,
                },
            },
    {
        match config.validate() {
            Ok(()) => {},
            Err(error) => return Err(error),
        }
        Ok(
            XdpEngine {
                config,
                umem: None,
                fill_ring: None,
                rx_ring: None,
                stats: CaptureStats::default(),
            },
        )
    }

    /// The options to set on the socket, in order, before it is bound.
    pub fn socket_options(&self, umem_addr: u64) -> (options: Vec<XdpOption>)
        ensures
            options@ == options_for(self.config, umem_addr),
    {
        let registration = XdpUmemReg {
            addr: umem_addr,
            len: self.config.umem_size as u64,
            chunk_size: self.config.chunk_size() as u32,
            headroom: 0,
            flags: 0,
        };
        let mut options: Vec<XdpOption> = Vec::new();
        options.push(XdpOption::Options(1));
        options.push(XdpOption::UmemReg(registration));
        options.push(XdpOption::FillRing(self.config.fill_ring_size));
        options.push(XdpOption::RxRing(self.config.fill_ring_size));
        assert(options@ =~= options_for(self.config, umem_addr));
        options
    }

    /// Gives the engine packet memory of the layout `umem`, and empty rings of the
    /// configured size.
    pub fn attach(&mut self, umem: UMemLayout)
        requires
            old(self).config.fill_ring_size >= 1,
        ensures
            final(self).well_formed(),
            final(self).config == old(self).config,
            final(self).stats == old(self).stats,
            final(self).umem == Some(umem),
            final(self).fill_ring matches Some(ring) && is_new_ring(
                ring,
                old(self).config.fill_ring_size,
            ),
            final(self).rx_ring matches Some(ring) && is_new_ring(
                ring,
                old(self).config.fill_ring_size,
            ),
    {
        self.umem = Some(umem);
        self.fill_ring = Some(XdpRing::new(self.config.fill_ring_size));
        self.rx_ring = Some(XdpRing::new(self.config.fill_ring_size));
    }

    /// Writes the descriptors of up to `num_frames` frames into the fill ring, as many as
    /// it has room for, and submits them.
    pub fn populate_fill_ring(&mut self, num_frames: usize) -> (result: Result<(), CaptureError>)
        requires
            old(self).well_formed(),
        ensures
            final(self).well_formed(),
            final(self).config == old(self).config,
            final(self).umem == old(self).umem,
            final(self).rx_ring == old(self).rx_ring,
            final(self).stats == old(self).stats,
            match result {
                Ok(()) => match (old(self).fill_ring, final(self).fill_ring) {
                    (Some(before), Some(after)) => old(self).umem is Some && frames_offered(
                        before,
                        after,
                        smaller(before.spec_room(), num_frames as int),
                        old(self).config.frame_size,
                    ),
                    _ => false,
                },
                Err(error) => final(self).fill_ring == old(self).fill_ring && (if old(self).fill_ring is None {
                    is_invalid_config(error, "Fill ring not initialized"@)
                } else {
                    old(self).umem is None && is_invalid_config(error, "UMEM not initialized"@)
                }),
            },
    {
        let frame_size: usize = self.config.frame_size;
        match &mut self.fill_ring {
            Some(ring) => {
                if self.umem.is_none() {
                    return Err(CaptureError::InvalidConfig("UMEM not initialized".to_string()));
                }
                offer_frames(ring, num_frames, frame_size);
                Ok(())
            },
            None => Err(CaptureError::InvalidConfig("Fill ring not initialized".to_string())),
        }
    }

    /// Whether the descriptors to consume point into `size` bytes of memory.
    pub fn descriptors_in_bounds(&self, size: usize) -> (in_bounds: bool)
        requires
            self.well_formed(),
        ensures
            in_bounds == (self.rx_ring matches Some(ring) ==> rx_in_bounds(ring, size as int)),
    {
        match &self.rx_ring {
            Some(ring) => ring_in_bounds(ring, size),
            None => true,
        }
    }

    /// Takes in the frames of up to `count` descriptors of the receive ring, as many as it
    /// offers, and emits the packets in them. Consumes as many descriptors as frames could
    /// be parsed, and returns that number.
    pub fn process_descriptors<O: OutputBackend>(
        &mut self,
        memory: &[u8],
        collector: &mut StatsCollector,
        output: &mut O,
        count: u32,
    ) -> (processed: usize)
        requires
            old(self).well_formed(),
            old(self).rx_ring matches Some(ring) ==> rx_in_bounds(ring, memory@.len() as int),
        ensures
            final(self).well_formed(),
            final(self).config == old(self).config,
            final(self).umem == old(self).umem,
            final(self).fill_ring == old(self).fill_ring,
            batch_processed(
                *old(self),
                *final(self),
                memory@,
                (old(collector)@, old(output).emitted()),
                (final(collector)@, final(output).emitted()),
                processed as int,
                batch_size(*old(self), count),
            ),
    {
        self.process_batch(memory, count, collector, output, None).1
    }

    /// Takes in the frames that the receive ring offers, until it is told to stop, and
    /// emits the packets in them. Consumes as many descriptors as frames could be parsed,
    /// and returns that number.
    pub fn process_packets<O: OutputBackend>(
        &mut self,
        memory: &[u8],
        collector: &mut StatsCollector,
        output: &mut O,
        shutdown: &std::sync::atomic::AtomicBool,
    ) -> (processed: usize)
        requires
            old(self).well_formed(),
            old(self).rx_ring matches Some(ring) ==> rx_in_bounds(ring, memory@.len() as int),
        ensures
            final(self).well_formed(),
            final(self).config == old(self).config,
            final(self).umem == old(self).umem,
            final(self).fill_ring == old(self).fill_ring,
            exists|k: int|
                0 <= k <= batch_size(*old(self), u32::MAX) && #[trigger] batch_processed(
                    *old(self),
                    *final(self),
                    memory@,
                    (old(collector)@, old(output).emitted()),
                    (final(collector)@, final(output).emitted()),
                    processed as int,
                    k,
                ),
    {
        self.process_batch(memory, u32::MAX, collector, output, Some(shutdown)).1
    }

    /// Takes in the frames of up to `count` descriptors; fewer only where there is a flag
    /// and it tells to stop. Returns how many descriptors were looked at, and how many of
    /// their frames could be parsed; as many descriptors are consumed.
    fn process_batch<O: OutputBackend>(
        &mut self,
        memory: &[u8],
        count: u32,
        collector: &mut StatsCollector,
        output: &mut O,
        shutdown: Option<&std::sync::atomic::AtomicBool>,
    ) -> (taken: (u32, usize))
        requires
            old(self).well_formed(),
            old(self).rx_ring matches Some(ring) ==> rx_in_bounds(ring, memory@.len() as int),
        ensures
            final(self).well_formed(),
            final(self).config == old(self).config,
            final(self).umem == old(self).umem,
            final(self).fill_ring == old(self).fill_ring,
            taken.0 <= batch_size(*old(self), count),
            shutdown is None ==> taken.0 == batch_size(*old(self), count),
            batch_processed(
                *old(self),
                *final(self),
                memory@,
                (old(collector)@, old(output).emitted()),
                (final(collector)@, final(output).emitted()),
                taken.1 as int,
                taken.0 as int,
            ),
    {
        if self.umem.is_none() {
            return (0, 0);
        }
        match &mut self.rx_ring {
            Some(ring) => {
                let taken: (u32, usize) = take_frames(
                    ring,
                    memory,
                    count,
                    collector,
                    &mut self.stats,
                    output,
                    shutdown,
                );
                ring.consumer = ring.consumer.wrapping_add(taken.1 as u64);
                taken
            },
            None => (0, 0),
        }
    }

    /// Gives up to `num_descriptors` descriptors back to the fill ring, as many as it has
    /// room for.
    pub fn refill_fill_ring(&mut self, num_descriptors: usize)
        ensures
            *final(self) == (XdpEngine {
                fill_ring: refilled(old(self).fill_ring, num_descriptors as int),
                ..*old(self)
            }),
    {
        if let Some(ring) = &mut self.fill_ring {
            let room: u32 = ring.room();
            let to_refill: u32 = if (room as usize) < num_descriptors {
                room
            } else {
                num_descriptors as u32
            };
            if to_refill > 0 {
                ring.submit(to_refill);
            }
        }
    }

    /// One round of the capture loop: takes in what was received, until it is told to
    /// stop, and gives the fill ring as many descriptors back as packets were processed.
    /// Returns that number.
    pub fn poll<O: OutputBackend>(
        &mut self,
        memory: &[u8],
        collector: &mut StatsCollector,
        output: &mut O,
        shutdown: &std::sync::atomic::AtomicBool,
    ) -> (processed: usize)
        requires
            old(self).well_formed(),
            old(self).rx_ring matches Some(ring) ==> rx_in_bounds(ring, memory@.len() as int),
        ensures
            final(self).well_formed(),
            final(self).config == old(self).config,
            final(self).umem == old(self).umem,
            exists|k: int|
                {
                    &&& 0 <= k <= batch_size(*old(self), u32::MAX)
                    &&& final(self).fill_ring == refilled(
                        old(self).fill_ring,
                        processed as int,
                    )
                    &&& #[trigger] batch_processed(
                        *old(self),
                        *final(self),
                        memory@,
                        (old(collector)@, old(output).emitted()),
                        (final(collector)@, final(output).emitted()),
                        processed as int,
                        k,
                    )
                },
    {
        let taken: (u32, usize) = self.process_batch(
            memory,
            u32::MAX,
            collector,
            output,
            Some(shutdown),
        );
        self.refill_fill_ring(taken.1);
        assert(batch_processed(
            *old(self),
            *self,
            memory@,
            (old(collector)@, old(output).emitted()),
            (collector@, output.emitted()),
            taken.1 as int,
            taken.0 as int,
        ));
        taken.1
    }

    /// One round of the capture loop over up to `count` descriptors, as many as the receive
    /// ring offers.
    pub fn poll_descriptors<O: OutputBackend>(
        &mut self,
        memory: &[u8],
        collector: &mut StatsCollector,
        output: &mut O,
        count: u32,
    ) -> (processed: usize)
        requires
            old(self).well_formed(),
            old(self).rx_ring matches Some(ring) ==> rx_in_bounds(ring, memory@.len() as int),
        ensures
            final(self).well_formed(),
            final(self).config == old(self).config,
            final(self).umem == old(self).umem,
            final(self).fill_ring == refilled(old(self).fill_ring, processed as int),
            batch_processed(
                *old(self),
                *final(self),
                memory@,
                (old(collector)@, old(output).emitted()),
                (final(collector)@, final(output).emitted()),
                processed as int,
                batch_size(*old(self), count),
            ),
    {
        let taken: (u32, usize) = self.process_batch(memory, count, collector, output, None);
        self.refill_fill_ring(taken.1);
        taken.1
    }
}

/// `ring` with up to `n` descriptors more handed over, as many as it has room for.
pub open spec fn refilled(ring: Option<XdpRing>, n: int) -> Option<XdpRing> {
    match ring {
        Some(ring) => Some(
            XdpRing {
                producer: ring.producer.wrapping_add(smaller(ring.spec_room(), n) as u64),
                ..ring
            },
        ),
        None => None,
    }
}

/// How many of `count` descriptors the receive ring of `engine` offers: none without
/// memory or ring.
pub open spec fn batch_size(engine: XdpEngine, count: u32) -> int {
    match (engine.umem, engine.rx_ring) {
        (Some(_), Some(ring)) => smaller(count as int, ring.spec_available()),
        _ => 0,
    }
}

/// Whether the engine `before`, and the statistics and emitted packets `sinks`, become
/// `after` and `sinks_after` when the frames of the first `k` descriptors in the receive
/// ring are taken in, of which `processed` can be parsed. The consumer moves on by that
/// number, so descriptors that are empty or hold no packet leave as many of the last ones
/// to be offered again. Without memory or ring, nothing changes.
pub open spec fn batch_processed(
    before: XdpEngine,
    after: XdpEngine,
    memory: Seq<u8>,
    sinks: (CollectorModel, Seq<PacketModel>),
    sinks_after: (CollectorModel, Seq<PacketModel>),
    processed: int,
    k: int,
) -> bool {
    match (before.umem, before.rx_ring) {
        (Some(_), Some(ring)) => {
            &&& processed == packets_in(rx_frames(ring, memory, k)).len()
            &&& after.rx_ring == Some(ring.consumed(processed))
            &&& frames_taken(
                Received { collector: sinks.0, stats: before.stats, emitted: sinks.1 },
                Received { collector: sinks_after.0, stats: after.stats, emitted: sinks_after.1 },
                rx_frames(ring, memory, k),
            )
        },
        _ => {
            &&& processed == 0
            &&& after.rx_ring == before.rx_ring
            &&& after.stats == before.stats
            &&& sinks_after == sinks
        },
    }
}

/// Where every frame of a batch can be parsed, it and the next batch take in the frames
/// that one batch of both sizes would: no descriptor is taken twice, and none is left out.
pub proof fn batches_continue(ring: XdpRing, memory: Seq<u8>, j: int, k: int)
    requires
        0 <= j,
        0 <= k,
        j + k <= u32::MAX,
        packets_in(rx_frames(ring, memory, j)).len() == j,
    ensures
        rx_frames(ring, memory, j + k) == rx_frames(ring, memory, j) + rx_frames(
            ring.consumed(packets_in(rx_frames(ring, memory, j)).len() as int),
            memory,
            k,
        ),
{
    frames_continue(ring, memory, j, k);
}

/// The frames behind the first `j` descriptors are those of the ring with `j` consumed.
proof fn frames_continue(ring: XdpRing, memory: Seq<u8>, j: int, k: int)
    requires
        0 <= j,
        0 <= k,
        j + k <= u32::MAX,
    ensures
        rx_frames(ring, memory, j + k) == rx_frames(ring, memory, j) + rx_frames(
            ring.consumed(j),
            memory,
            k,
        ),
    decreases k,
{
    if k == 0 {
        assert(rx_frames(ring, memory, j) + Seq::<Seq<u8>>::empty() =~= rx_frames(
            ring,
            memory,
            j,
        ));
    } else {
        frames_continue(ring, memory, j, k - 1);
        assert(ring.consumer.wrapping_add((j + k - 1) as u64) == ring.consumed(
            j,
        ).consumer.wrapping_add((k - 1) as u64));
        assert(rx_frames(ring, memory, j + k) =~= rx_frames(ring, memory, j) + rx_frames(
            ring.consumed(j),
            memory,
            k,
        ));
    }
}

/// Descriptors that are consumed are no longer offered; those behind them still are, where
/// the size of the ring is a power of two.
pub proof fn consumed_are_gone(ring: XdpRing, k: u32)
    requires
        ring.well_formed(),
        is_pow2(ring.size as int),
        k <= ring.spec_available(),
    ensures
        ring.consumed(k as int).spec_available() == ring.spec_available() - k,
{
    let size = ring.size;
    let mask = ring.mask as u64;
    let left = ring.producer.wrapping_sub(ring.consumer);
    let wide_size = size as u64;
    let wide_k = k as u64;
    let fewer = left.wrapping_sub(wide_k);
    power_has_one_bit(size);
    let small_mask = ring.mask;
    assert(wide_size & mask == 0) by {
        assert((size as u64) & (small_mask as u64) == (size & small_mask) as u64) by (bit_vector);
    }
    assert(ring.producer.wrapping_sub(ring.consumer.wrapping_add(wide_k)) == fewer);
    assert(left & mask <= left) by (bit_vector);
    assert(fewer == left - wide_k);
    assert(fewer & mask == (left & mask) - wide_k) by (bit_vector)
        requires
            wide_size & mask == 0,
            mask == wide_size - 1,
            wide_size >= 1,
            wide_k <= left & mask,
            fewer == left - wide_k,
    ;
}

/// Whether the descriptors to consume point into `size` bytes of memory.
fn ring_in_bounds(ring: &XdpRing, size: usize) -> (in_bounds: bool)
    requires
        ring.well_formed(),
    ensures
        in_bounds == rx_in_bounds(*ring, size as int),
{
    let available: u32 = ring.available();
    let mut i: u32 = 0;
    while i < available
        invariant
            i <= available,
            available == ring.spec_available(),
            ring.well_formed(),
            forall|j: int| #![trigger ring.consumer.wrapping_add(j as u64)]
                0 <= j < i ==> {
                    let desc = ring.desc_at(ring.consumer.wrapping_add(j as u64));
                    desc.len == 0 || desc.addr + desc.len <= size
                },
        decreases available - i,
    {
        let position: u64 = ring.consumer.wrapping_add(i as u64);
        proof {
            ring_place_in_bounds(position, ring.mask);
        }
        let desc = ring.descriptors[(position & (ring.mask as u64)) as usize];
        assert(desc == ring.desc_at(ring.consumer.wrapping_add((i as int) as u64)));
        if desc.len != 0 && (desc.addr > size as u64 || (size as u64) - desc.addr < desc.len as u64) {
            return false;
        }
        i = i + 1;
    }
    true
}

/// A power of two has no bit in common with the number below it.
pub(crate) proof fn power_has_one_bit(size: u32)
    requires
        is_pow2(size as int),
    ensures
        size > 0,
        size & ((size - 1) as u32) == 0,
    decreases size,
{
    reveal(is_pow2);
    if size == 1 {
        assert(1u32 & 0u32 == 0) by (bit_vector);
    } else {
        let half = (size / 2) as u32;
        power_has_one_bit(half);
        let below = (size - 1) as u32;
        let half_below = (half - 1) as u32;
        assert(size & below == 0) by (bit_vector)
            requires
                half & half_below == 0,
                half_below == half - 1,
                below == size - 1,
                size == half * 2,
                half > 0,
        ;
    }
}

/// Descriptors that are submitted to a ring without any become available, as many as
/// they are, where the ring has room for them and its size is a power of two.
pub proof fn submitted_is_available(ring: XdpRing, n: u32)
    requires
        ring.well_formed(),
        is_pow2(ring.size as int),
        ring.producer == ring.consumer,
        n < ring.size,
    ensures
        (XdpRing { producer: ring.producer.wrapping_add(n as u64), ..ring }).spec_available() == n,
{
    let size = ring.size;
    let mask = ring.mask;
    let wide_n = n as u64;
    let wide_mask = mask as u64;
    assert(ring.producer.wrapping_add(wide_n).wrapping_sub(ring.consumer) == wide_n);
    power_has_one_bit(size);
    assert(n & mask == n) by (bit_vector)
        requires
            size & mask == 0,
            mask == size - 1,
            n < size,
    ;
    assert((n as u64) & (mask as u64) == (n & mask) as u64) by (bit_vector);
}

/// Writes the descriptors of up to `num_frames` frames into `ring` and submits them.
fn offer_frames(ring: &mut XdpRing, num_frames: usize, frame_size: usize)
    requires
        old(ring).well_formed(),
    ensures
        final(ring).well_formed(),
        frames_offered(
            *old(ring),
            *final(ring),
            smaller(old(ring).spec_room(), num_frames as int),
            frame_size,
        ),
{
    let room: u32 = ring.room();
    let to_submit: u32 = if (room as usize) < num_frames {
        room
    } else {
        num_frames as u32
    };
    let mut i: u32 = 0;
    while i < to_submit
        invariant
            i <= to_submit,
            ring.well_formed(),
            ring.producer == old(ring).producer,
            ring.consumer == old(ring).consumer,
            ring.mask == old(ring).mask,
            ring.size == old(ring).size,
            ring.descriptors@ == descs_written(*old(ring), i as int, frame_size),
        decreases to_submit - i,
    {
        let position: u64 = ring.producer.wrapping_add(i as u64);
        proof {
            ring_place_in_bounds(position, ring.mask);
        }
        let place: usize = (position & (ring.mask as u64)) as usize;
        let desc = XdpDesc {
            addr: (i as u64).wrapping_mul(frame_size as u64),
            len: frame_size as u32,
            options: 0,
        };
        ring.descriptors.set(place, desc);
        i = i + 1;
    }
    ring.submit(to_submit);
}

} // verus!
