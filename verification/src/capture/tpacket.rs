//! The TPACKET_V3 backend: blocks of slots in memory that is shared with the kernel.

use crate::bytes::{native_order, read_u32_at, smaller, u32_at, ByteOrder};
use crate::capture::{
    config_message, config_problem, frame_received, frames_received, frames_taken, is_invalid_config, stop_requested, take_frame,
    CaptureConfig, CaptureError, CaptureStats, Received,
};
use crate::output::OutputBackend;
use crate::parser::packet::PacketModel;
use crate::parser::PacketParser;
use crate::stats::{CollectorModel, StatsCollector};
use crate::umem::{overwritten, zeros};
use vstd::prelude::*;

verus! {

/// Default block size: 4 MB
pub const DEFAULT_BLOCK_SIZE: u32 = 0x40_0000;

/// Default number of blocks
pub const DEFAULT_NUM_BLOCKS: u32 = 64;

/// The ring that is asked of the kernel.
#[derive(Debug, Clone, Copy, PartialEq, Eq, Structural)]
pub struct PacketReq3 {
    /// Bytes in a block
    pub block_size: u32,
    /// Number of blocks
    pub block_nr: u32,
    /// Bytes in a frame
    pub frame_size: u32,
    /// Number of frames
    pub frame_nr: u32,
    /// Milliseconds after which a block is handed over
    pub retire_blk_tov: u32,
    /// Bytes of private data in a block
    pub size_of_priv: u32,
    /// Features asked for
    pub feature_req_word: u32,
}

/// `n`, or `default` where it is 0.
pub open spec fn or_default(n: u32, default: u32) -> u32 {
    if n > 0 {
        n
    } else {
        default
    }
}

/// The ring that `config` asks for: its blocks, or the default ones, filled with frames.
pub open spec fn ring_asked(config: CaptureConfig) -> PacketReq3 {
    let block_size = or_default(config.block_size, DEFAULT_BLOCK_SIZE);
    let block_nr = or_default(config.num_blocks, DEFAULT_NUM_BLOCKS);
    let frame_size = config.frame_size as u32;
    PacketReq3 {
        block_size,
        block_nr,
        frame_size,
        frame_nr: ((block_size / frame_size) * block_nr) as u32,
        retire_blk_tov: 10,
        size_of_priv: 0,
        feature_req_word: 0,
    }
}

/// What is found in the blocks: the frames, in order, and the memory once the slots they
/// were in are given back.
#[verifier::ext_equal]
pub struct Walk {
    pub memory: Seq<u8>,
    pub frames: Seq<Seq<u8>>,
}

/// What the slot at `slot` holds: its frame, or nothing where its data is empty; none at
/// all where it is not ready, or where it or its data would leave the memory. A slot
/// starts with its status, of which the lowest bit says that it is ready, and the length
/// of its data, which lies at offset `data` of the slot.
pub open spec fn slot_found(
    memory: Seq<u8>,
    slot: int,
    data: int,
    order: ByteOrder,
) -> Option<Seq<Seq<u8>>> {
    let len = u32_at(memory, slot + 4, order) as int;
    if slot + 8 > memory.len() || u32_at(memory, slot, order) % 2 == 0 {
        None
    } else if len == 0 {
        Some(Seq::empty())
    } else if slot + data + len > memory.len() {
        None
    } else {
        Some(seq![memory.subrange(slot + data, slot + data + len)])
    }
}

/// `memory` with the slot at `slot` given back: its status is cleared.
pub open spec fn slot_cleared(memory: Seq<u8>, slot: int) -> Seq<u8> {
    overwritten(memory, slot, zeros(4))
}

/// Walks the slots of the block at `base`, from the one at offset `at` on, each `next`
/// bytes after the one before. The walk ends at the end of the block and at a slot where
/// none is found.
pub open spec fn walk_slots(
    memory: Seq<u8>,
    base: int,
    size: int,
    data: int,
    next: int,
    at: int,
    order: ByteOrder,
) -> Walk
    decreases
        if at < size {
            size - at
        } else {
            0
        },
{
    if at >= size {
        Walk { memory, frames: Seq::empty() }
    } else {
        match slot_found(memory, base + at, data, order) {
            None => Walk { memory, frames: Seq::empty() },
            Some(frames) => {
                let cleared = slot_cleared(memory, base + at);
                if next <= 0 {
                    Walk { memory: cleared, frames }
                } else {
                    let rest = walk_slots(cleared, base, size, data, next, at + next, order);
                    Walk { memory: rest.memory, frames: frames + rest.frames }
                }
            },
        }
    }
}

/// Walks the block at `base`, whose header says where its slots and their data are. A
/// block that has no room for a header, or states no size, is passed over.
pub open spec fn walk_block(memory: Seq<u8>, base: int, size: int, order: ByteOrder) -> Walk {
    if size < 48 || u32_at(memory, base + 8, order) == 0 {
        Walk { memory, frames: Seq::empty() }
    } else {
        walk_slots(
            memory,
            base,
            size,
            u32_at(memory, base + 32, order) as int,
            u32_at(memory, base + 44, order) as int,
            u32_at(memory, base + 28, order) as int,
            order,
        )
    }
}

/// Walks the first `n` blocks of `size` bytes, as far as the memory holds them.
pub open spec fn walk_blocks(memory: Seq<u8>, size: int, n: int, order: ByteOrder) -> Walk
    decreases n,
{
    if n <= 0 {
        Walk { memory, frames: Seq::empty() }
    } else {
        let before = walk_blocks(memory, size, n - 1, order);
        let base = (n - 1) * size;
        if base + size > before.memory.len() {
            before
        } else {
            let block = walk_block(before.memory, base, size, order);
            Walk { memory: block.memory, frames: before.frames + block.frames }
        }
    }
}

/// Bytes in a block: as many as the ring asks for.
pub open spec fn walked_block_size(config: CaptureConfig) -> int {
    or_default(config.block_size, DEFAULT_BLOCK_SIZE) as int
}

/// The number of blocks: as many as the ring asks for.
pub open spec fn walked_blocks(config: CaptureConfig) -> int {
    or_default(config.num_blocks, DEFAULT_NUM_BLOCKS) as int
}

/// Clears the status of the slot at `slot`.
fn clear_status(memory: &mut [u8], slot: usize)
    requires
        slot + 4 <= old(memory)@.len(),
    ensures
        final(memory)@ == slot_cleared(old(memory)@, slot as int),
{
    memory[slot] = 0;
    memory[slot + 1] = 0;
    memory[slot + 2] = 0;
    memory[slot + 3] = 0;
    assert(memory@ =~= slot_cleared(old(memory)@, slot as int));
}

/// The TPACKET_V3 engine: its configuration and counters. The memory that it shares with
/// the kernel is handed to it.
#[derive(Debug)]
pub struct TpacketEngine {
    /// Configuration
    pub config: CaptureConfig,
    /// Counters
    pub stats: CaptureStats,
    /// The byte order in which the kernel writes, that of the machine
    pub order: ByteOrder,
}

/// What became of a slot.
#[derive(Clone, Copy)]
enum Slot {
    /// None was found
    Missing,
    /// It held no data
    Empty,
    /// Its frame was taken in; whether it could be parsed
    Taken(bool),
}

/// Takes in the frame of the slot at `slot`, and gives the slot back.
fn take_slot<O: OutputBackend>(
    parser: &mut PacketParser,
    memory: &mut [u8],
    slot: usize,
    data: usize,
    order: ByteOrder,
    collector: &mut StatsCollector,
    stats: &mut CaptureStats,
    output: &mut O,
) -> (taken: (Slot, Ghost<u64>))
    requires
        slot <= old(memory)@.len(),
    ensures
        match slot_found(old(memory)@, slot as int, data as int, order) {
            None => taken.0 == Slot::Missing && final(memory)@ == old(memory)@ && final(collector)@
                == old(collector)@ && *final(stats) == *old(stats) && final(output).emitted()
                == old(output).emitted(),
            Some(frames) => {
                &&& final(memory)@ == slot_cleared(old(memory)@, slot as int)
                &&& final(memory)@.len() == old(memory)@.len()
                &&& match taken.0 {
                    Slot::Missing => false,
                    Slot::Empty => frames.len() == 0 && final(collector)@ == old(collector)@
                        && *final(stats) == *old(stats) && final(output).emitted()
                        == old(output).emitted(),
                    Slot::Taken(parsed) => {
                        &&& frames.len() == 1
                        &&& frame_received(
                            Received {
                                collector: old(collector)@,
                                stats: *old(stats),
                                emitted: old(output).emitted(),
                            },
                            frames[0],
                            taken.1@,
                        ) == (Received {
                            collector: final(collector)@,
                            stats: *final(stats),
                            emitted: final(output).emitted(),
                        })
                        &&& final(output).emitted().len() == old(output).emitted().len()
                            + if parsed {
                            1int
                        } else {
                            0
                        }
                    },
                }
            },
        },
{
    assert(memory.len() == memory@.len());
    if memory.len() - slot < 8 || read_u32_at(memory, slot, order) % 2 == 0 {
        return (Slot::Missing, Ghost(0));
    }
    let len: usize = read_u32_at(memory, slot + 4, order) as usize;
    if len == 0 {
        clear_status(memory, slot);
        return (Slot::Empty, Ghost(0));
    }
    if memory.len() - slot < data || memory.len() - slot - data < len {
        return (Slot::Missing, Ghost(0));
    }
    let from: usize = slot + data;
    let to: usize = from + len;
    let (parsed, Ghost(now_ns)) = take_frame(parser, &memory[from..to], collector, stats, output);
    clear_status(memory, slot);
    (Slot::Taken(parsed), Ghost(now_ns))
}

/// Frames taken in one after the other.
proof fn frames_received_push(
    start: Received,
    frames: Seq<Seq<u8>>,
    times: Seq<u64>,
    frame: Seq<u8>,
    now_ns: u64,
)
    ensures
        frames_received(start, frames.push(frame), times.push(now_ns)) == frame_received(
            frames_received(start, frames, times),
            frame,
            now_ns,
        ),
{
    assert(frames.push(frame).drop_last() =~= frames);
    assert(times.push(now_ns).drop_last() =~= times);
}

/// What was taken in so far: how many frames could be parsed, the frames, and the times
/// at which they were taken in.
struct Progress {
    processed: usize,
    frames: Ghost<Seq<Seq<u8>>>,
    times: Ghost<Seq<u64>>,
}

/// Whether taking in the frames of `progress` leads from `start` to these statistics.
spec fn progress_made(
    start: Received,
    progress: Progress,
    collector: CollectorModel,
    stats: CaptureStats,
    emitted: Seq<PacketModel>,
) -> bool {
    &&& progress.times@.len() == progress.frames@.len()
    &&& 0 <= progress.processed <= progress.frames@.len()
    &&& progress.processed == emitted.len() - start.emitted.len()
    &&& frames_received(start, progress.frames@, progress.times@) == (Received {
        collector,
        stats,
        emitted,
    })
}

/// Takes in the frames of the block at `base`, after those of `progress`.
#[verifier::rlimit(40)]
fn take_block<O: OutputBackend>(
    memory: &mut [u8],
    base: usize,
    size: usize,
    order: ByteOrder,
    progress: Progress,
    collector: &mut StatsCollector,
    stats: &mut CaptureStats,
    output: &mut O,
    Ghost(start): Ghost<Received>,
) -> (after: Progress)
    requires
        base + size <= old(memory)@.len(),
        progress.frames@.len() <= base,
        progress_made(start, progress, old(collector)@, *old(stats), old(output).emitted()),
    ensures
        ({
            let block = walk_block(old(memory)@, base as int, size as int, order);
            &&& final(memory)@ == block.memory
            &&& final(memory)@.len() == old(memory)@.len()
            &&& after.frames@ == progress.frames@ + block.frames
        }),
        after.frames@.len() <= base + size,
        progress_made(start, after, final(collector)@, *final(stats), final(output).emitted()),
{
    assert(memory.len() == memory@.len());
    let ghost block = walk_block(memory@, base as int, size as int, order);
    let ghost before = progress.frames@;
    let mut processed: usize = progress.processed;
    let ghost mut frames = progress.frames@;
    let ghost mut times = progress.times@;
    if size < 48 || read_u32_at(memory, base + 8, order) == 0 {
        assert(before + block.frames =~= before);
        return progress;
    }
    let first: usize = read_u32_at(memory, base + 28, order) as usize;
    let data: usize = read_u32_at(memory, base + 32, order) as usize;
    let next: usize = read_u32_at(memory, base + 44, order) as usize;
    let mut parser = PacketParser::new();
    let mut at: usize = first;
    let mut done = false;
    proof {
        let rest = walk_slots(
            memory@,
            base as int,
            size as int,
            data as int,
            next as int,
            at as int,
            order,
        );
        assert(block == rest);
    }
    while !done && at < size
        invariant
            base + size <= memory@.len(),
            memory@.len() == old(memory)@.len(),
            times.len() == frames.len(),
            processed <= frames.len(),
            frames.len() <= base + size,
            processed == output.emitted().len() - start.emitted.len(),
            frames_received(start, frames, times) == (Received {
                collector: collector@,
                stats: *stats,
                emitted: output.emitted(),
            }),
            !done ==> frames.len() <= base + at,
            !done ==> block.memory == walk_slots(
                memory@,
                base as int,
                size as int,
                data as int,
                next as int,
                at as int,
                order,
            ).memory,
            !done ==> before + block.frames == frames + walk_slots(
                memory@,
                base as int,
                size as int,
                data as int,
                next as int,
                at as int,
                order,
            ).frames,
            done ==> block.memory == memory@ && before + block.frames == frames,
        decreases
            (if done {
                0int
            } else {
                1
            }),
            (if at < size {
                size - at
            } else {
                0
            }),
    {
        let ghost here = memory@;
        let ghost frames_here = frames;
        assert(memory.len() == memory@.len());
        let (slot, Ghost(now_ns)) = take_slot(
            &mut parser,
            memory,
            base + at,
            data,
            order,
            collector,
            stats,
            output,
        );
        match slot {
            Slot::Missing => {
                assert(frames + Seq::<Seq<u8>>::empty() =~= frames);
                done = true;
            },
            Slot::Empty => {
                proof {
                    let found = slot_found(here, base + at, data as int, order)->Some_0;
                    assert(found =~= Seq::empty());
                    assert(frames + found =~= frames);
                }
            },
            Slot::Taken(parsed) => {
                if parsed {
                    processed = processed + 1;
                }
                proof {
                    let found = slot_found(here, base + at, data as int, order)->Some_0;
                    frames_received_push(start, frames, times, found[0], now_ns);
                    assert(frames + found =~= frames.push(found[0]));
                    frames = frames.push(found[0]);
                    times = times.push(now_ns);
                }
            },
        }
        if !done {
            proof {
                let found = slot_found(here, base + at, data as int, order)->Some_0;
                let rest = walk_slots(
                    memory@,
                    base as int,
                    size as int,
                    data as int,
                    next as int,
                    at + next,
                    order,
                );
                assert(frames_here + (found + rest.frames) =~= frames + rest.frames);
                if next >= size - at {
                    assert(rest.frames =~= Seq::empty());
                    assert(frames + rest.frames =~= frames);
                }
            }
            if next == 0 || next >= size - at {
                done = true;
            } else {
                at = at + next;
            }
        }
    }
    proof {
        assert(frames + Seq::<Seq<u8>>::empty() =~= frames);
    }
    Progress { processed, frames: Ghost(frames), times: Ghost(times) }
}

/// Whether taking in the frames of the first `k` blocks of `size` bytes leads to these
/// statistics and this memory.
pub open spec fn blocks_processed(
    before: Received,
    after: Received,
    memory: Seq<u8>,
    memory_after: Seq<u8>,
    size: int,
    order: ByteOrder,
    k: int,
) -> bool {
    &&& memory_after == walk_blocks(memory, size, k, order).memory
    &&& frames_taken(before, after, walk_blocks(memory, size, k, order).frames)
}

/// Behind the end of the memory there are no more blocks.
proof fn walk_blocks_exhausted(memory: Seq<u8>, size: int, i: int, n: int, order: ByteOrder)
    requires
        0 <= i <= n,
        size >= 0,
        i * size + size > walk_blocks(memory, size, i, order).memory.len(),
    ensures
        walk_blocks(memory, size, n, order) == walk_blocks(memory, size, i, order),
    decreases n - i,
{
    if i < n {
        walk_blocks_exhausted(memory, size, i, n - 1, order);
        assert((n - 1) * size >= i * size) by (nonlinear_arith)
            requires
                n - 1 >= i,
                size >= 0,
        ;
    }
}

impl TpacketEngine {
    /// An engine, if the configuration is valid.
    pub fn new(config: CaptureConfig) -> (engine: Result<TpacketEngine, CaptureError>)
        ensures
            match engine {
                Ok(engine) => {
                    &&& config_problem(config) is None
                    &&& engine.config == config
                    &&& engine.stats == (CaptureStats {
                        packets_received: 0,
                        packets_dropped: 0,
                        bytes_received: 0,
                        packets_in_flight: 0,
                    })
                },
                Err(error) => match config_problem(config) {
                    Some(problem) => is_invalid_config(error, config_message(problem)),
                    None => false,
                },
            },
    {
        match config.validate() {
            Ok(()) => {},
            Err(error) => return Err(error),
        }
        Ok(TpacketEngine { config, stats: CaptureStats::default(), order: native_order() })
    }

    /// The ring to ask of the kernel, and the bytes of memory to share with it.
    pub fn setup_ring(&self) -> (ring: (PacketReq3, usize))
        requires
            1 <= self.config.frame_size <= u32::MAX,
            or_default(self.config.block_size, DEFAULT_BLOCK_SIZE) * or_default(
                self.config.num_blocks,
                DEFAULT_NUM_BLOCKS,
            ) <= u32::MAX,
        ensures
            ring.0 == ring_asked(self.config),
            ring.1 == ring.0.block_size * ring.0.block_nr,
            ring.0.frame_nr == (ring.0.block_size / ring.0.frame_size) * ring.0.block_nr,
    {
        let block_size: u32 = if self.config.block_size > 0 {
            self.config.block_size
        } else {
            DEFAULT_BLOCK_SIZE
        };
        let block_nr: u32 = if self.config.num_blocks > 0 {
            self.config.num_blocks
        } else {
            DEFAULT_NUM_BLOCKS
        };
        let frame_size: u32 = self.config.frame_size as u32;
        let per_block: u32 = block_size / frame_size;
        assert(per_block <= block_size) by (nonlinear_arith)
            requires
                frame_size >= 1,
                per_block == block_size / frame_size,
        ;
        assert(per_block * block_nr <= block_size * block_nr) by (nonlinear_arith)
            requires
                0 <= per_block <= block_size,
                block_nr >= 0,
        ;
        let total_size: usize = (block_size * block_nr) as usize;
        let ring = PacketReq3 {
            block_size,
            block_nr,
            frame_size,
            frame_nr: per_block * block_nr,
            retire_blk_tov: 10,
            size_of_priv: 0,
            feature_req_word: 0,
        };
        (ring, total_size)
    }

    /// Takes in the frames in the first `blocks` blocks of `memory`, or in all where there
    /// are no more, emits the packets in them, and gives their slots back. Returns how many
    /// could be parsed.
    pub fn process_blocks<O: OutputBackend>(
        &mut self,
        memory: &mut [u8],
        collector: &mut StatsCollector,
        output: &mut O,
        blocks: u32,
    ) -> (processed: usize)
        ensures
            final(self).config == old(self).config,
            final(self).order == old(self).order,
            processed == final(output).emitted().len() - old(output).emitted().len(),
            blocks_processed(
                Received {
                    collector: old(collector)@,
                    stats: old(self).stats,
                    emitted: old(output).emitted(),
                },
                Received {
                    collector: final(collector)@,
                    stats: final(self).stats,
                    emitted: final(output).emitted(),
                },
                old(memory)@,
                final(memory)@,
                walked_block_size(old(self).config),
                old(self).order,
                smaller(blocks as int, walked_blocks(old(self).config)),
            ),
    {
        self.take_blocks(memory, blocks, collector, output, None).1
    }

    /// Takes in the frames in the blocks of `memory`, until it is told to stop, emits the
    /// packets in them, and gives their slots back. Returns how many could be parsed.
    pub fn process_packets<O: OutputBackend>(
        &mut self,
        memory: &mut [u8],
        collector: &mut StatsCollector,
        output: &mut O,
        shutdown: &std::sync::atomic::AtomicBool,
    ) -> (processed: usize)
        ensures
            final(self).config == old(self).config,
            final(self).order == old(self).order,
            processed == final(output).emitted().len() - old(output).emitted().len(),
            exists|k: int|
                0 <= k <= walked_blocks(old(self).config) && #[trigger] blocks_processed(
                    Received {
                        collector: old(collector)@,
                        stats: old(self).stats,
                        emitted: old(output).emitted(),
                    },
                    Received {
                        collector: final(collector)@,
                        stats: final(self).stats,
                        emitted: final(output).emitted(),
                    },
                    old(memory)@,
                    final(memory)@,
                    walked_block_size(old(self).config),
                    old(self).order,
                    k,
                ),
    {
        self.take_blocks(memory, u32::MAX, collector, output, Some(shutdown)).1
    }

    /// Takes in the frames in up to `count` blocks of `memory`; fewer only where there is a
    /// flag and it tells to stop. Returns how many blocks were walked, and how many frames
    /// could be parsed.
    #[verifier::rlimit(40)]
    fn take_blocks<O: OutputBackend>(
        &mut self,
        memory: &mut [u8],
        count: u32,
        collector: &mut StatsCollector,
        output: &mut O,
        shutdown: Option<&std::sync::atomic::AtomicBool>,
    ) -> (taken: (u32, usize))
        ensures
            final(self).config == old(self).config,
            final(self).order == old(self).order,
            taken.0 <= smaller(count as int, walked_blocks(old(self).config)),
            shutdown is None ==> taken.0 == smaller(
                count as int,
                walked_blocks(old(self).config),
            ),
            taken.1 == final(output).emitted().len() - old(output).emitted().len(),
            blocks_processed(
                Received {
                    collector: old(collector)@,
                    stats: old(self).stats,
                    emitted: old(output).emitted(),
                },
                Received {
                    collector: final(collector)@,
                    stats: final(self).stats,
                    emitted: final(output).emitted(),
                },
                old(memory)@,
                final(memory)@,
                walked_block_size(old(self).config),
                old(self).order,
                taken.0 as int,
            ),
    {
        let size: usize = if self.config.block_size > 0 {
            self.config.block_size as usize
        } else {
            DEFAULT_BLOCK_SIZE as usize
        };
        let blocks: u32 = if self.config.num_blocks > 0 {
            self.config.num_blocks
        } else {
            DEFAULT_NUM_BLOCKS
        };
        let wanted: u32 = if count < blocks {
            count
        } else {
            blocks
        };
        let order = self.order;
        let ghost start = Received {
            collector: collector@,
            stats: self.stats,
            emitted: output.emitted(),
        };
        let ghost whole = memory@;
        let mut progress = Progress {
            processed: 0,
            frames: Ghost(Seq::empty()),
            times: Ghost(Seq::empty()),
        };
        let mut base: usize = 0;
        let mut i: u32 = 0;
        let mut stop = false;
        assert(memory.len() == memory@.len());
        while !stop && i < wanted && memory.len() - base >= size
            invariant
                i <= wanted,
                1 <= size,
                base == i * size,
                base <= memory@.len(),
                stop ==> shutdown is Some,
                memory@ == walk_blocks(whole, size as int, i as int, order).memory,
                progress.frames@ == walk_blocks(whole, size as int, i as int, order).frames,
                progress.frames@.len() <= base,
                progress_made(start, progress, collector@, self.stats, output.emitted()),
                start.emitted == old(output).emitted(),
                self.config == old(self).config,
                self.order == order,
            decreases
                wanted - i,
                (if stop {
                    0int
                } else {
                    1
                }),
        {
            if let Some(flag) = shutdown {
                stop = stop_requested(flag);
            }
            if !stop {
                progress = take_block(
                    memory,
                    base,
                    size,
                    order,
                    progress,
                    collector,
                    &mut self.stats,
                    output,
                    Ghost(start),
                );
                assert((i + 1) * size == i * size + size) by (nonlinear_arith);
                base = base + size;
                i = i + 1;
            }
        }
        if !stop && i < wanted {
            proof {
                walk_blocks_exhausted(whole, size as int, i as int, wanted as int, order);
            }
            i = wanted;
        }
        proof {
            let after = Received {
                collector: collector@,
                stats: self.stats,
                emitted: output.emitted(),
            };
            let frames = walk_blocks(whole, size as int, i as int, order).frames;
            assert(after == frames_received(start, frames, progress.times@));
            assert(frames_taken(start, after, frames));
        }
        (i, progress.processed)
    }
}

/// Whether `after` differs from `before` at most in bytes that became zero.
pub open spec fn only_cleared(before: Seq<u8>, after: Seq<u8>) -> bool {
    &&& after.len() == before.len()
    &&& forall|i: int| 0 <= i < before.len() ==> #[trigger] after[i] == before[i] || after[i] == 0
}

pub(crate) proof fn walk_slots_only_clears(
    memory: Seq<u8>,
    base: int,
    size: int,
    data: int,
    next: int,
    at: int,
    order: ByteOrder,
)
    requires
        0 <= base,
        0 <= at,
    ensures
        only_cleared(memory, walk_slots(memory, base, size, data, next, at, order).memory),
    decreases
            if at < size {
                size - at
            } else {
                0
            },
{
    if at < size && slot_found(memory, base + at, data, order) is Some {
        let cleared = slot_cleared(memory, base + at);
        assert(only_cleared(memory, cleared));
        if next > 0 {
            walk_slots_only_clears(cleared, base, size, data, next, at + next, order);
            let after = walk_slots(cleared, base, size, data, next, at + next, order).memory;
            assert(only_cleared(cleared, after));
            assert forall|i: int| 0 <= i < memory.len() implies #[trigger] after[i] == memory[i]
                || after[i] == 0 by {
                assert(after[i] == cleared[i] || after[i] == 0);
                assert(cleared[i] == memory[i] || cleared[i] == 0);
            }
        }
    }
}

/// Walking the blocks keeps the size of the memory, and changes no byte of it but to
/// zero.
pub proof fn walk_only_clears(memory: Seq<u8>, size: int, n: int, order: ByteOrder)
    requires
        size >= 0,
    ensures
        only_cleared(memory, walk_blocks(memory, size, n, order).memory),
    decreases n,
{
    if n > 0 {
        walk_only_clears(memory, size, n - 1, order);
        let before = walk_blocks(memory, size, n - 1, order).memory;
        let base = (n - 1) * size;
        assert(base >= 0) by (nonlinear_arith)
            requires
                n >= 1,
                size >= 0,
                base == (n - 1) * size,
        ;
        if base + size <= before.len() && size >= 48 && u32_at(before, base + 8, order) != 0 {
            let data = u32_at(before, base + 32, order) as int;
            let next = u32_at(before, base + 44, order) as int;
            let first = u32_at(before, base + 28, order) as int;
            walk_slots_only_clears(before, base, size, data, next, first, order);
            let after = walk_slots(before, base, size, data, next, first, order).memory;
            assert forall|i: int| 0 <= i < memory.len() implies #[trigger] after[i] == memory[i]
                || after[i] == 0 by {
                assert(after[i] == before[i] || after[i] == 0);
                assert(before[i] == memory[i] || before[i] == 0);
            }
        }
    }
}

/// A slot that was given back is not ready: it yields nothing when the memory is walked
/// again.
pub proof fn cleared_slot_is_not_found(memory: Seq<u8>, slot: int, data: int, order: ByteOrder)
    requires
        0 <= slot,
        slot + 8 <= memory.len(),
    ensures
        slot_found(slot_cleared(memory, slot), slot, data, order) is None,
{
    let cleared = slot_cleared(memory, slot);
    assert(cleared[slot] == 0 && cleared[slot + 1] == 0 && cleared[slot + 2] == 0 && cleared[slot
        + 3] == 0);
    assert(u32_at(cleared, slot, order) == 0);
}

} // verus!
