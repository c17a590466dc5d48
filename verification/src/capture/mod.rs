//! Packet capture: its configuration, and what is done with a frame that was received.

use crate::bytes::{is_power_of_two, wide, widen};
use crate::clock::unix_nanos;
use crate::output::OutputBackend;
use crate::parser::packet::{packet_of, PacketModel};
use crate::parser::{PacketParser, ParsedPacket};
use crate::stats::{collector_after, CollectorModel, StatsCollector};
use vstd::arithmetic::power2::is_pow2;
use vstd::prelude::*;

pub mod af_xdp;
pub mod capture_laws;
pub mod config_laws;
pub mod tpacket;

verus! {

/// Why capturing failed. System errors are given by their number.
#[derive(Debug, Clone)]
pub enum CaptureError {
    /// Failed to create socket
    SocketCreation(i32),
    /// Failed to bind socket
    BindError(i32),
    /// Failed to set socket options
    SocketOption(i32),
    /// Interface not found
    InterfaceNotFound(String),
    /// Invalid configuration
    InvalidConfig(String),
    /// Ring buffer overflow
    RingOverflow,
    /// XDP program load failed
    XdpLoadError(String),
    /// Memory mapping failed
    MmapError(i32),
    /// Channel send error
    ChannelSend(String),
}

/// How a capture engine is set up.
#[derive(Debug, Clone)]
pub struct CaptureConfig {
    /// Network interface name (e.g., "eth0")
    pub interface: String,
    /// Queue ID for RSS steering
    pub queue_id: u16,
    /// UMEM size in bytes
    pub umem_size: usize,
    /// Frame size in bytes
    pub frame_size: usize,
    /// Fill ring size (number of descriptors)
    pub fill_ring_size: u32,
    /// Completion ring size
    pub completion_ring_size: u32,
    /// CPU core to pin the capture thread to
    pub cpu_core: usize,
    /// Number of blocks for TPACKET_V3
    pub num_blocks: u32,
    /// Block size for TPACKET_V3
    pub block_size: u32,
    /// Use TPACKET_V3 instead of AF_XDP
    pub use_tpacket: bool,
}

/// What is wrong with a configuration.
pub enum ConfigProblem {
    NoInterface,
    UmemNotPowerOfTwo,
    UmemTooSmall,
    FrameSize,
    FillRingNotPowerOfTwo,
}

/// The first thing wrong with `config`.
pub open spec fn config_problem(config: CaptureConfig) -> Option<ConfigProblem> {
    if config.interface@.len() == 0 {
        Some(ConfigProblem::NoInterface)
    } else if !is_pow2(config.umem_size as int) {
        Some(ConfigProblem::UmemNotPowerOfTwo)
    } else if config.umem_size < 0x10_0000 {
        Some(ConfigProblem::UmemTooSmall)
    } else if config.frame_size < 64 || config.frame_size > 65536 {
        Some(ConfigProblem::FrameSize)
    } else if !is_pow2(config.fill_ring_size as int) {
        Some(ConfigProblem::FillRingNotPowerOfTwo)
    } else {
        None
    }
}

/// The message for a problem with a configuration.
pub open spec fn config_message(problem: ConfigProblem) -> Seq<char> {
    match problem {
        ConfigProblem::NoInterface => "Interface name cannot be empty"@,
        ConfigProblem::UmemNotPowerOfTwo => "UMEM size must be a power of 2"@,
        ConfigProblem::UmemTooSmall => "UMEM size must be at least 1 MB"@,
        ConfigProblem::FrameSize => "Frame size must be between 64 and 65536 bytes"@,
        ConfigProblem::FillRingNotPowerOfTwo => "Fill ring size must be a power of 2"@,
    }
}

/// Whether `error` is an invalid configuration with the message `text`.
pub open spec fn is_invalid_config(error: CaptureError, text: Seq<char>) -> bool {
    error matches CaptureError::InvalidConfig(message) && message@ == text
}

impl CaptureConfig {
    /// A builder in which nothing is set.
    pub fn builder() -> (builder: CaptureConfigBuilder)
        ensures
            is_unset(builder),
    {
        CaptureConfigBuilder::default()
    }

    /// The number of frames that fit in UMEM.
    pub fn num_frames(&self) -> (frames: usize)
        requires
            self.frame_size > 0,
        ensures
            frames == self.umem_size / self.frame_size,
    {
        self.umem_size / self.frame_size
    }

    /// The chunk size for UMEM registration.
    pub fn chunk_size(&self) -> (size: usize)
        ensures
            size == self.frame_size,
    {
        self.frame_size
    }

    /// Checks the configuration. The error names the first thing that is wrong.
    pub fn validate(&self) -> (valid: Result<(), CaptureError>)
        ensures
            match valid {
                Ok(()) => config_problem(*self) is None,
                Err(error) => match config_problem(*self) {
                    Some(problem) => is_invalid_config(error, config_message(problem)),
                    None => false,
                },
            },
    {
        if self.interface.as_str().is_empty() {
            return Err(CaptureError::InvalidConfig("Interface name cannot be empty".to_string()));
        }
        if !is_power_of_two(widen(self.umem_size)) {
            return Err(CaptureError::InvalidConfig("UMEM size must be a power of 2".to_string()));
        }
        if self.umem_size < 0x10_0000 {
            return Err(CaptureError::InvalidConfig("UMEM size must be at least 1 MB".to_string()));
        }
        if self.frame_size < 64 || self.frame_size > 65536 {
            return Err(
                CaptureError::InvalidConfig(
                    "Frame size must be between 64 and 65536 bytes".to_string(),
                ),
            );
        }
        if !is_power_of_two(self.fill_ring_size as u64) {
            return Err(
                CaptureError::InvalidConfig("Fill ring size must be a power of 2".to_string()),
            );
        }
        Ok(())
    }

    /// The number of blocks for TPACKET_V3.
    pub fn num_blocks(&self) -> (blocks: u32)
        ensures
            blocks == self.num_blocks,
    {
        self.num_blocks
    }
}

/// A configuration in the making. What is 0 is not set.
pub struct CaptureConfigBuilder {
    pub interface: String,
    pub queue_id: u16,
    pub umem_size: usize,
    pub frame_size: usize,
    pub fill_ring_size: u32,
    pub cpu_core: usize,
    pub use_tpacket: bool,
}

/// Whether nothing is set in `builder`.
pub open spec fn is_unset(builder: CaptureConfigBuilder) -> bool {
    &&& builder.interface@.len() == 0
    &&& builder.queue_id == 0
    &&& builder.umem_size == 0
    &&& builder.frame_size == 0
    &&& builder.fill_ring_size == 0
    &&& builder.cpu_core == 0
    &&& !builder.use_tpacket
}

impl Default for CaptureConfigBuilder {
    fn default() -> (builder: CaptureConfigBuilder)
        ensures
            is_unset(builder),
    {
        CaptureConfigBuilder {
            interface: String::new(),
            queue_id: 0,
            umem_size: 0,
            frame_size: 0,
            fill_ring_size: 0,
            cpu_core: 0,
            use_tpacket: false,
        }
    }
}

impl CaptureConfigBuilder {
    /// Sets the network interface name.
    pub fn interface(self, iface: &str) -> (builder: CaptureConfigBuilder)
        ensures
            builder.interface@ == iface@,
            builder == (CaptureConfigBuilder { interface: builder.interface, ..self }),
    {
        CaptureConfigBuilder { interface: iface.to_string(), ..self }
    }

    /// Sets the queue ID for RSS steering.
    pub fn queue_id(self, id: u16) -> (builder: CaptureConfigBuilder)
        ensures
            builder == (CaptureConfigBuilder { queue_id: id, ..self }),
    {
        CaptureConfigBuilder { queue_id: id, ..self }
    }

    /// Sets the UMEM size in bytes.
    pub fn umem_size(self, size: usize) -> (builder: CaptureConfigBuilder)
        ensures
            builder == (CaptureConfigBuilder { umem_size: size, ..self }),
    {
        CaptureConfigBuilder { umem_size: size, ..self }
    }

    /// Sets the frame size in bytes.
    pub fn frame_size(self, size: usize) -> (builder: CaptureConfigBuilder)
        ensures
            builder == (CaptureConfigBuilder { frame_size: size, ..self }),
    {
        CaptureConfigBuilder { frame_size: size, ..self }
    }

    /// Sets the fill ring size.
    pub fn fill_ring_size(self, size: u32) -> (builder: CaptureConfigBuilder)
        ensures
            builder == (CaptureConfigBuilder { fill_ring_size: size, ..self }),
    {
        CaptureConfigBuilder { fill_ring_size: size, ..self }
    }

    /// Sets the CPU core to pin the capture thread to.
    pub fn cpu_core(self, core: usize) -> (builder: CaptureConfigBuilder)
        ensures
            builder == (CaptureConfigBuilder { cpu_core: core, ..self }),
    {
        CaptureConfigBuilder { cpu_core: core, ..self }
    }

    /// Sets whether to use TPACKET_V3.
    pub fn use_tpacket(self, use_tpacket: bool) -> (builder: CaptureConfigBuilder)
        ensures
            builder == (CaptureConfigBuilder { use_tpacket, ..self }),
    {
        CaptureConfigBuilder { use_tpacket, ..self }
    }

    /// The configuration, with defaults for what is not set: 64 MB of UMEM in frames of
    /// 2048 bytes, rings of 4096 descriptors, and always 64 blocks of 4 MB.
    pub fn build(self) -> (config: CaptureConfig)
        ensures
            config == built(self),
    {
        let umem_size: usize = if self.umem_size == 0 {
            0x400_0000
        } else {
            self.umem_size
        };
        let frame_size: usize = if self.frame_size == 0 {
            2048
        } else {
            self.frame_size
        };
        let fill_ring_size: u32 = if self.fill_ring_size == 0 {
            4096
        } else {
            self.fill_ring_size
        };
        CaptureConfig {
            interface: self.interface,
            queue_id: self.queue_id,
            umem_size,
            frame_size,
            fill_ring_size,
            completion_ring_size: fill_ring_size,
            cpu_core: self.cpu_core,
            num_blocks: 64,
            block_size: 0x40_0000,
            use_tpacket: self.use_tpacket,
        }
    }
}

/// The configuration that `builder` stands for.
pub open spec fn built(builder: CaptureConfigBuilder) -> CaptureConfig {
    let fill_ring_size = if builder.fill_ring_size == 0 {
        4096
    } else {
        builder.fill_ring_size
    };
    CaptureConfig {
        interface: builder.interface,
        queue_id: builder.queue_id,
        umem_size: if builder.umem_size == 0 {
            0x400_0000
        } else {
            builder.umem_size
        },
        frame_size: if builder.frame_size == 0 {
            2048
        } else {
            builder.frame_size
        },
        fill_ring_size,
        completion_ring_size: fill_ring_size,
        cpu_core: builder.cpu_core,
        num_blocks: 64,
        block_size: 0x40_0000,
        use_tpacket: builder.use_tpacket,
    }
}

/// The defaults are valid: with an interface and no sizes set, a configuration passes
/// the check.
pub proof fn default_sizes_are_valid(builder: CaptureConfigBuilder)
    requires
        builder.interface@.len() > 0,
        builder.umem_size == 0,
        builder.frame_size == 0,
        builder.fill_ring_size == 0,
    ensures
        config_problem(built(builder)) is None,
{
    reveal_with_fuel(is_pow2, 28);
}

/// Counters of a capture engine.
#[derive(Debug, Clone, Copy, PartialEq, Eq, Structural)]
pub struct CaptureStats {
    /// Packets received
    pub packets_received: u64,
    /// Packets dropped (ring overflow)
    pub packets_dropped: u64,
    /// Bytes received
    pub bytes_received: u64,
    /// Packets being processed
    pub packets_in_flight: u64,
}

impl Default for CaptureStats {
    fn default() -> (stats: CaptureStats)
        ensures
            stats == (CaptureStats {
                packets_received: 0,
                packets_dropped: 0,
                bytes_received: 0,
                packets_in_flight: 0,
            }),
    {
        CaptureStats {
            packets_received: 0,
            packets_dropped: 0,
            bytes_received: 0,
            packets_in_flight: 0,
        }
    }
}

/// Checks that an engine may start: `Engine already running` where it runs.
pub fn check_not_running(running: bool) -> (result: Result<(), CaptureError>)
    ensures
        match result {
            Ok(()) => !running,
            Err(error) => running && is_invalid_config(error, "Engine already running"@),
        },
{
    if running {
        Err(CaptureError::InvalidConfig("Engine already running".to_string()))
    } else {
        Ok(())
    }
}

/// What the frames received so far have led to.
#[verifier::ext_equal]
pub struct Received {
    /// The statistics collector
    pub collector: CollectorModel,
    /// The counters of the engine
    pub stats: CaptureStats,
    /// The packets emitted, in order
    pub emitted: Seq<PacketModel>,
}

/// The counters of an engine after `frame`. Every frame is counted as received; its bytes
/// count where it can be parsed.
pub open spec fn stats_after_frame(stats: CaptureStats, frame: Seq<u8>) -> CaptureStats {
    CaptureStats {
        packets_received: stats.packets_received.wrapping_add(1),
        bytes_received: if packet_of(frame) is Ok {
            stats.bytes_received.wrapping_add(wide(frame.len() as usize))
        } else {
            stats.bytes_received
        },
        ..stats
    }
}

/// `before` after `frame`, which was received at `now_ns`. Where the frame can be parsed,
/// its packet is recorded and emitted.
#[verifier::opaque]
pub open spec fn frame_received(before: Received, frame: Seq<u8>, now_ns: u64) -> Received {
    let stats = stats_after_frame(before.stats, frame);
    match packet_of(frame) {
        Ok(packet) => Received {
            collector: collector_after(before.collector, packet, frame.len() as usize, now_ns),
            stats,
            emitted: before.emitted.push(packet),
        },
        Err(_) => Received { stats, ..before },
    }
}

/// `before` after `frames`, received at `times`.
pub open spec fn frames_received(
    before: Received,
    frames: Seq<Seq<u8>>,
    times: Seq<u64>,
) -> Received
    decreases frames.len(),
{
    if frames.len() == 0 {
        before
    } else {
        frame_received(
            frames_received(before, frames.drop_last(), times.drop_last()),
            frames.last(),
            times.last(),
        )
    }
}

/// Whether taking in `frames`, each at some time, leads from `before` to `after`.
pub open spec fn frames_taken(before: Received, after: Received, frames: Seq<Seq<u8>>) -> bool {
    exists|times: Seq<u64>|
        times.len() == frames.len() && after == #[trigger] frames_received(before, frames, times)
}

/// The packets in those of `frames` that can be parsed.
pub open spec fn packets_in(frames: Seq<Seq<u8>>) -> Seq<PacketModel>
    decreases frames.len(),
{
    if frames.len() == 0 {
        Seq::empty()
    } else {
        match packet_of(frames.last()) {
            Ok(packet) => packets_in(frames.drop_last()).push(packet),
            Err(_) => packets_in(frames.drop_last()),
        }
    }
}

/// The packets that can be parsed are emitted in the order of their frames, each once,
/// and nothing else is.
pub proof fn parsed_packets_are_emitted(before: Received, frames: Seq<Seq<u8>>, times: Seq<u64>)
    ensures
        frames_received(before, frames, times).emitted == before.emitted + packets_in(frames),
        packets_in(frames).len() <= frames.len(),
    decreases frames.len(),
{
    reveal(frame_received);
    if frames.len() > 0 {
        parsed_packets_are_emitted(before, frames.drop_last(), times.drop_last());
    }
    assert(frames_received(before, frames, times).emitted =~= before.emitted + packets_in(
        frames,
    ));
}

/// Every frame that is taken in is counted as received, whether or not it parses.
pub proof fn every_frame_is_counted(before: Received, frames: Seq<Seq<u8>>, times: Seq<u64>)
    requires
        before.stats.packets_received + frames.len() <= u64::MAX,
    ensures
        frames_received(before, frames, times).stats.packets_received
            == before.stats.packets_received + frames.len(),
    decreases frames.len(),
{
    reveal(frame_received);
    if frames.len() > 0 {
        every_frame_is_counted(before, frames.drop_last(), times.drop_last());
    }
}

/// Takes in a frame that was received at `now_ns`. Returns the packet in it, where it
/// can be parsed.
pub fn receive_frame<'a>(
    parser: &mut PacketParser,
    frame: &'a [u8],
    collector: &mut StatsCollector,
    stats: &mut CaptureStats,
    now_ns: u64,
) -> (packet: Option<ParsedPacket<'a>>)
    ensures
        *final(parser) == *old(parser),
        *final(stats) == stats_after_frame(*old(stats), frame@),
        match packet {
            Some(packet) => packet_of(frame@) == Ok::<_, crate::parser::ParseError>(packet@)
                && final(collector)@ == collector_after(
                old(collector)@,
                packet@,
                frame@.len() as usize,
                now_ns,
            ),
            None => packet_of(frame@) is Err && final(collector)@ == old(collector)@,
        },
{
    let packet = match parser.parse(frame) {
        Ok(packet) => {
            collector.record_packet_at(&packet, frame.len(), now_ns);
            stats.bytes_received = stats.bytes_received.wrapping_add(widen(frame.len()));
            Some(packet)
        },
        Err(_) => None,
    };
    stats.packets_received = stats.packets_received.wrapping_add(1);
    packet
}

/// Takes in a frame that is received now, and emits the packet in it. Returns whether
/// there was one.
pub(crate) fn take_frame<O: OutputBackend>(
    parser: &mut PacketParser,
    frame: &[u8],
    collector: &mut StatsCollector,
    stats: &mut CaptureStats,
    output: &mut O,
) -> (taken: (bool, Ghost<u64>))
    ensures
        *final(parser) == *old(parser),
        frame_received(
            Received {
                collector: old(collector)@,
                stats: *old(stats),
                emitted: old(output).emitted(),
            },
            frame@,
            taken.1@,
        ) == (Received {
            collector: final(collector)@,
            stats: *final(stats),
            emitted: final(output).emitted(),
        }),
        final(output).emitted().len() == old(output).emitted().len() + if taken.0 {
            1int
        } else {
            0
        },
{
    proof {
        reveal(frame_received);
    }
    let now_ns: u64 = unix_nanos();
    match receive_frame(parser, frame, collector, stats, now_ns) {
        Some(packet) => {
            output.emit(&packet);
            (true, Ghost(now_ns))
        },
        None => (false, Ghost(now_ns)),
    }
}

/// Whether the flag that stops a capture is set. Another thread may set it at any time,
/// so nothing is claimed of the result.
pub(crate) fn stop_requested(flag: &std::sync::atomic::AtomicBool) -> (stop: bool) {
    flag.load(std::sync::atomic::Ordering::Relaxed)
}

} // verus!
