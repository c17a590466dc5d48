use std::sync::atomic::AtomicBool;

use zero_copy_analyzer::bytes::ByteOrder;
use zero_copy_analyzer::capture::af_xdp::{XdpDesc, XdpEngine, XdpOption, XdpRing};
use zero_copy_analyzer::capture::tpacket::TpacketEngine;
use zero_copy_analyzer::capture::{
    check_not_running, receive_frame, CaptureConfig, CaptureError, CaptureStats,
};
use zero_copy_analyzer::output::{OutputBackend, OutputResult};
use zero_copy_analyzer::parser::{PacketParser, ParsedPacket, Protocol};
use zero_copy_analyzer::shutdown::ShutdownHandler;
use zero_copy_analyzer::stats::{AggregateStats, StatsCollector};
use zero_copy_analyzer::umem::{UMem, UMemLayout};

/// Remembers the source ports of the packets it is given.
struct Ports {
    seen: Vec<Option<u16>>,
}

impl OutputBackend for Ports {
    fn emit(&mut self, packet: &ParsedPacket<'_>) {
        self.seen.push(packet.src_port());
    }

    fn report_stats(&mut self, _stats: &AggregateStats) -> OutputResult<()> {
        Ok(())
    }

    fn flush(&mut self) -> OutputResult<()> {
        Ok(())
    }

    fn name(&self) -> &str {
        "ports"
    }
}

fn tcp_packet(src_port: u16) -> Vec<u8> {
    let mut packet = vec![
        0xff, 0xff, 0xff, 0xff, 0xff, 0xff, 0x00, 0x11, 0x22, 0x33, 0x44, 0x55, 0x08, 0x00, 0x45,
        0x00, 0x00, 0x28, 0x00, 0x01, 0x40, 0x00, 0x40, 0x06, 0x00, 0x00, 0xc0, 0xa8, 0x01, 0x01,
        0x0a, 0x00, 0x00, 0x01,
    ];
    packet.extend_from_slice(&src_port.to_be_bytes());
    packet.extend_from_slice(&[
        0x00, 0x50, 0x00, 0x00, 0x00, 0x01, 0x00, 0x00, 0x00, 0x00, 0x50, 0x02, 0xff, 0xff, 0x00,
        0x00, 0x00, 0x00,
    ]);
    packet
}

fn config() -> CaptureConfig {
    CaptureConfig::builder().interface("eth0").build()
}

fn invalid_config_text(error: CaptureError) -> String {
    match error {
        CaptureError::InvalidConfig(text) => text,
        _ => panic!("expected an invalid configuration"),
    }
}

#[test]
fn defaults_of_a_configuration() {
    let config = config();
    assert_eq!(config.interface, "eth0");
    assert_eq!(config.umem_size, 64 << 20);
    assert_eq!(config.frame_size, 2048);
    assert_eq!(config.fill_ring_size, 4096);
    assert_eq!(config.completion_ring_size, 4096);
    assert_eq!(config.num_blocks(), 64);
    assert_eq!(config.block_size, 1 << 22);
    assert_eq!(config.num_frames(), 32768);
    assert_eq!(config.chunk_size(), 2048);
    assert!(!config.use_tpacket);
    assert!(config.validate().is_ok());
}

#[test]
fn values_of_a_configuration() {
    let config = CaptureConfig::builder()
        .interface("enp3s0")
        .queue_id(3)
        .umem_size(1 << 21)
        .frame_size(4096)
        .fill_ring_size(1024)
        .cpu_core(2)
        .use_tpacket(true)
        .build();
    assert_eq!(config.interface, "enp3s0");
    assert_eq!(config.queue_id, 3);
    assert_eq!(config.umem_size, 1 << 21);
    assert_eq!(config.frame_size, 4096);
    assert_eq!(config.fill_ring_size, 1024);
    assert_eq!(config.completion_ring_size, 1024);
    assert_eq!(config.cpu_core, 2);
    assert!(config.use_tpacket);
}

#[test]
fn invalid_configurations() {
    let check = |config: CaptureConfig| invalid_config_text(config.validate().unwrap_err());
    assert_eq!(
        check(CaptureConfig::builder().build()),
        "Interface name cannot be empty"
    );
    assert_eq!(
        check(CaptureConfig { umem_size: 3 << 20, ..config() }),
        "UMEM size must be a power of 2"
    );
    assert_eq!(
        check(CaptureConfig { umem_size: 1 << 19, ..config() }),
        "UMEM size must be at least 1 MB"
    );
    assert_eq!(
        check(CaptureConfig { frame_size: 32, ..config() }),
        "Frame size must be between 64 and 65536 bytes"
    );
    assert_eq!(
        check(CaptureConfig { fill_ring_size: 100, ..config() }),
        "Fill ring size must be a power of 2"
    );
    assert!(XdpEngine::new(CaptureConfig { frame_size: 32, ..config() }).is_err());
    assert!(TpacketEngine::new(CaptureConfig { frame_size: 32, ..config() }).is_err());
}

#[test]
fn messages_of_capture_errors() {
    let texts = |errors: Vec<CaptureError>| -> Vec<String> {
        errors.iter().map(|error| error.message_with_cause("no")).collect()
    };
    assert_eq!(
        texts(vec![
            CaptureError::SocketCreation(1),
            CaptureError::BindError(1),
            CaptureError::SocketOption(1),
            CaptureError::InterfaceNotFound("eth9".to_string()),
            CaptureError::InvalidConfig("bad".to_string()),
            CaptureError::RingOverflow,
            CaptureError::XdpLoadError("old".to_string()),
            CaptureError::MmapError(1),
            CaptureError::ChannelSend("full".to_string()),
        ]),
        vec![
            "Failed to create socket: no",
            "Failed to bind socket: no",
            "Failed to set socket option: no",
            "Network interface 'eth9' not found",
            "Invalid configuration: bad",
            "Ring buffer overflow - packets dropped",
            "Failed to load XDP program: old",
            "Failed to mmap memory: no",
            "Channel send error: full",
        ]
    );
    let cause = std::io::Error::from_raw_os_error(13).to_string();
    assert_eq!(
        CaptureError::BindError(13).to_string(),
        format!("Failed to bind socket: {}", cause)
    );
    assert_eq!(
        CaptureError::InvalidConfig("bad".to_string()).to_string(),
        "Invalid configuration: bad"
    );
}

#[test]
fn engines_start_once() {
    assert!(check_not_running(false).is_ok());
    assert_eq!(
        invalid_config_text(check_not_running(true).unwrap_err()),
        "Engine already running"
    );
}

#[test]
fn frames_are_counted_whether_or_not_they_parse() {
    let mut parser = PacketParser::new();
    let mut collector = StatsCollector::with_cpus(1, 10);
    let mut stats = CaptureStats::default();
    let good = tcp_packet(7);
    let packet = receive_frame(&mut parser, &good, &mut collector, &mut stats, 5).unwrap();
    assert_eq!(packet.protocol, Protocol::Tcp);
    assert!(receive_frame(&mut parser, &[0; 5], &mut collector, &mut stats, 6).is_none());
    assert_eq!(stats.packets_received, 2);
    assert_eq!(stats.bytes_received, good.len() as u64);
    assert_eq!(stats.packets_dropped, 0);
    assert_eq!(collector.aggregate_at(0).total_packets, 1);
}

#[test]
fn options_of_a_socket() {
    let engine = XdpEngine::new(config()).unwrap();
    let options = engine.socket_options(0xABCD);
    assert_eq!(options.iter().map(XdpOption::number).collect::<Vec<_>>(), vec![7, 1, 2, 4]);
    assert_eq!(options[0], XdpOption::Options(1));
    match options[1] {
        XdpOption::UmemReg(umem) => {
            assert_eq!(umem.addr, 0xABCD);
            assert_eq!(umem.len, 64 << 20);
            assert_eq!(umem.chunk_size, 2048);
        }
        _ => panic!("expected the packet memory"),
    }
    assert_eq!(options[2], XdpOption::FillRing(4096));
    assert_eq!(options[3], XdpOption::RxRing(4096));
}

#[test]
fn positions_in_a_ring() {
    let mut ring = XdpRing::new(8);
    assert_eq!(ring.available(), 0);
    ring.submit(5);
    assert_eq!(ring.available(), 5);
    ring.descriptors[1] = XdpDesc { addr: 9, len: 1, options: 0 };
    assert_eq!(ring.get_desc(1).addr, 9);
    assert_eq!(ring.get_desc(9).addr, 9);
    assert_eq!(*ring.get_desc(2), XdpDesc::default());
    ring.consumer = u64::MAX;
    ring.producer = 1;
    assert_eq!(ring.available(), 2);
}

#[test]
fn an_engine_without_rings_does_nothing() {
    let mut engine = XdpEngine::new(config()).unwrap();
    let mut collector = StatsCollector::with_cpus(1, 10);
    let mut output = Ports { seen: vec![] };
    let stop = AtomicBool::new(false);
    assert_eq!(engine.process_packets(&[], &mut collector, &mut output, &stop), 0);
    assert_eq!(
        invalid_config_text(engine.populate_fill_ring(4).unwrap_err()),
        "Fill ring not initialized"
    );
    engine.fill_ring = Some(XdpRing::new(4));
    assert_eq!(
        invalid_config_text(engine.populate_fill_ring(4).unwrap_err()),
        "UMEM not initialized"
    );
    engine.refill_fill_ring(2);
    assert_eq!(engine.fill_ring.as_ref().unwrap().producer, 2);
    engine.fill_ring = None;
    engine.refill_fill_ring(2);
    assert!(engine.fill_ring.is_none());
}

#[test]
fn frames_are_offered_as_far_as_the_ring_allows() {
    let mut engine = XdpEngine::new(CaptureConfig { fill_ring_size: 8, ..config() }).unwrap();
    engine.attach(UMemLayout::of_region(1 << 20, 2048));
    engine.populate_fill_ring(2).unwrap();
    let ring = engine.fill_ring.as_ref().unwrap();
    assert_eq!(ring.producer, 2);
    assert_eq!(ring.room(), 5);
    assert_eq!(*ring.get_desc(0), XdpDesc { addr: 0, len: 2048, options: 0 });
    assert_eq!(*ring.get_desc(1), XdpDesc { addr: 2048, len: 2048, options: 0 });
    assert_eq!(*ring.get_desc(2), XdpDesc::default());

    engine.populate_fill_ring(100).unwrap();
    assert_eq!(engine.fill_ring.as_ref().unwrap().producer, 7);
    engine.populate_fill_ring(1).unwrap();
    engine.refill_fill_ring(100);
    assert_eq!(engine.fill_ring.as_ref().unwrap().producer, 7);

    // The kernel takes three of the frames.
    engine.fill_ring.as_mut().unwrap().consumer = 3;
    engine.refill_fill_ring(1);
    assert_eq!(engine.fill_ring.as_ref().unwrap().producer, 8);
    engine.refill_fill_ring(100);
    assert_eq!(engine.fill_ring.as_ref().unwrap().producer, 10);
}

/// An engine whose receive ring offers `packets`, in frames of 128 bytes.
fn engine_with(packets: &[Vec<u8>]) -> (XdpEngine, UMem) {
    let mut engine = XdpEngine::new(CaptureConfig { fill_ring_size: 8, ..config() }).unwrap();
    let mut umem = UMem::new(1 << 20, 128).unwrap();
    engine.attach(UMemLayout::of_region(1 << 20, 128));
    let ring = engine.rx_ring.as_mut().unwrap();
    for (i, packet) in packets.iter().enumerate() {
        umem.write_frame(i, packet);
        ring.descriptors[i] = XdpDesc { addr: i as u64 * 128, len: packet.len() as u32, options: 0 };
        ring.submit(1);
    }
    (engine, umem)
}

#[test]
fn received_packets_are_emitted_in_order() {
    let (mut engine, umem) = engine_with(&[tcp_packet(1), tcp_packet(2), tcp_packet(3)]);
    let mut collector = StatsCollector::with_cpus(1, 10);
    let mut output = Ports { seen: vec![] };
    let stop = AtomicBool::new(false);
    assert!(engine.descriptors_in_bounds(umem.size()));
    assert!(!engine.descriptors_in_bounds(100));
    assert_eq!(engine.poll(umem.as_slice(), &mut collector, &mut output, &stop), 3);
    assert_eq!(output.seen, vec![Some(1), Some(2), Some(3)]);
    assert_eq!(engine.stats.packets_received, 3);
    assert_eq!(engine.stats.bytes_received, 162);
    assert_eq!(engine.rx_ring.as_ref().unwrap().available(), 0);
    assert_eq!(collector.aggregate_at(0).tcp_packets, 3);
    assert_eq!(engine.poll(umem.as_slice(), &mut collector, &mut output, &stop), 0);
}

#[test]
fn the_consumer_moves_on_by_the_packets_that_parse() {
    let (mut engine, umem) = engine_with(&[vec![], tcp_packet(2), vec![0; 10]]);
    let mut collector = StatsCollector::with_cpus(1, 10);
    let mut output = Ports { seen: vec![] };
    let stop = AtomicBool::new(false);
    assert_eq!(engine.process_packets(umem.as_slice(), &mut collector, &mut output, &stop), 1);
    assert_eq!(output.seen, vec![Some(2)]);
    assert_eq!(engine.stats.packets_received, 2);
    assert_eq!(engine.stats.bytes_received, 54);
    assert_eq!(engine.rx_ring.as_ref().unwrap().consumer, 1);
    assert_eq!(engine.poll(umem.as_slice(), &mut collector, &mut output, &stop), 1);
    assert_eq!(output.seen, vec![Some(2), Some(2)]);
    assert_eq!(engine.rx_ring.as_ref().unwrap().consumer, 2);
    assert_eq!(engine.fill_ring.as_ref().unwrap().producer, 1);
    assert_eq!(engine.poll(umem.as_slice(), &mut collector, &mut output, &stop), 0);
    assert_eq!(engine.rx_ring.as_ref().unwrap().consumer, 2);
    assert_eq!(engine.fill_ring.as_ref().unwrap().producer, 1);
    assert_eq!(engine.stats.packets_received, 5);
}

#[test]
fn batches_of_descriptors_continue_where_the_last_one_ended() {
    let packets = [tcp_packet(1), tcp_packet(2), tcp_packet(3), tcp_packet(4)];
    let (mut engine, umem) = engine_with(&packets);
    let mut collector = StatsCollector::with_cpus(1, 10);
    let mut output = Ports { seen: vec![] };
    let memory = umem.as_slice();
    assert_eq!(engine.process_descriptors(memory, &mut collector, &mut output, 2), 2);
    assert_eq!(engine.rx_ring.as_ref().unwrap().consumer, 2);
    assert_eq!(engine.fill_ring.as_ref().unwrap().producer, 0);
    assert_eq!(engine.poll_descriptors(memory, &mut collector, &mut output, 1), 1);
    assert_eq!(engine.fill_ring.as_ref().unwrap().producer, 1);
    assert_eq!(engine.poll_descriptors(memory, &mut collector, &mut output, 100), 1);
    assert_eq!(engine.fill_ring.as_ref().unwrap().producer, 2);
    assert_eq!(engine.poll_descriptors(memory, &mut collector, &mut output, 100), 0);
    assert_eq!(output.seen, vec![Some(1), Some(2), Some(3), Some(4)]);
    assert_eq!(engine.rx_ring.as_ref().unwrap().consumer, 4);
}

#[test]
fn a_capture_that_is_told_to_stop_takes_nothing() {
    let (mut engine, umem) = engine_with(&[tcp_packet(1)]);
    let mut collector = StatsCollector::with_cpus(1, 10);
    let mut output = Ports { seen: vec![] };
    let stop = AtomicBool::new(true);
    assert_eq!(engine.process_packets(umem.as_slice(), &mut collector, &mut output, &stop), 0);
    assert!(output.seen.is_empty());
    assert_eq!(engine.rx_ring.as_ref().unwrap().available(), 1);
}

#[test]
fn the_shutdown_flag_is_shared() {
    let handler = ShutdownHandler::new();
    assert!(!handler.is_shutdown_requested());
    handler.flag().store(true, std::sync::atomic::Ordering::Relaxed);
    assert!(handler.is_shutdown_requested());
    assert!(!ShutdownHandler::default().is_shutdown_requested());
}

#[test]
fn ring_that_is_asked_of_the_kernel() {
    let engine = TpacketEngine::new(config()).unwrap();
    let (request, total) = engine.setup_ring();
    assert_eq!(total, 256 << 20);
    assert_eq!(request.block_size, 4 << 20);
    assert_eq!(request.block_nr, 64);
    assert_eq!(request.frame_size, 2048);
    assert_eq!(request.frame_nr, 131072);
    assert_eq!(request.retire_blk_tov, 10);

    let engine =
        TpacketEngine::new(CaptureConfig { block_size: 0, num_blocks: 0, ..config() }).unwrap();
    assert_eq!(engine.setup_ring().0.block_nr, 64);
    let engine =
        TpacketEngine::new(CaptureConfig { block_size: 5000, num_blocks: 3, ..config() }).unwrap();
    assert_eq!(engine.setup_ring().0.frame_nr, 6);
    assert_eq!(engine.setup_ring().1, 15000);
}

const BLOCK: usize = 4 << 20;

/// Writes `value` at `at`, as this machine holds it.
fn put32(memory: &mut [u8], at: usize, value: u32) {
    memory[at..at + 4].copy_from_slice(&value.to_ne_bytes());
}

/// Writes a block with `packets` in slots of 256 bytes, the data 48 bytes into a slot.
fn put_block(memory: &mut [u8], base: usize, packets: &[Vec<u8>]) {
    put32(memory, base + 8, BLOCK as u32);
    put32(memory, base + 28, 64);
    put32(memory, base + 32, 48);
    put32(memory, base + 44, 256);
    for (i, packet) in packets.iter().enumerate() {
        let slot = base + 64 + i * 256;
        put32(memory, slot, 1);
        put32(memory, slot + 4, packet.len() as u32);
        memory[slot + 48..slot + 48 + packet.len()].copy_from_slice(packet);
    }
}

#[test]
fn blocks_are_walked_slot_by_slot() {
    let mut memory = vec![0u8; 3 * BLOCK];
    put_block(&mut memory, 0, &[tcp_packet(1), vec![], tcp_packet(2)]);
    put_block(&mut memory, 2 * BLOCK, &[vec![9; 5], tcp_packet(3)]);
    let before = memory.clone();
    let mut engine = TpacketEngine::new(config()).unwrap();
    let mut collector = StatsCollector::with_cpus(1, 10);
    let mut output = Ports { seen: vec![] };
    let stop = AtomicBool::new(false);
    assert_eq!(engine.process_packets(&mut memory, &mut collector, &mut output, &stop), 3);
    assert_eq!(output.seen, vec![Some(1), Some(2), Some(3)]);
    assert_eq!(engine.stats.packets_received, 4);
    assert_eq!(engine.stats.bytes_received, 162);
    for slot in [64, 64 + 256, 64 + 512, 2 * BLOCK + 64, 2 * BLOCK + 320] {
        assert_eq!(before[slot..slot + 4], 1u32.to_ne_bytes());
        assert_eq!(memory[slot..slot + 4], [0; 4]);
    }
    assert_eq!(memory.iter().zip(&before).filter(|(a, b)| a != b).count(), 5);
    assert_eq!(engine.process_packets(&mut memory, &mut collector, &mut output, &stop), 0);
}

#[test]
fn slots_that_leave_the_memory_end_the_walk() {
    let mut memory = vec![0u8; BLOCK];
    put_block(&mut memory, 0, &[tcp_packet(1), tcp_packet(2)]);
    put32(&mut memory, 64 + 4, u32::MAX);
    let mut engine = TpacketEngine::new(config()).unwrap();
    let mut collector = StatsCollector::with_cpus(1, 10);
    let mut output = Ports { seen: vec![] };
    let stop = AtomicBool::new(false);
    assert_eq!(engine.process_packets(&mut memory, &mut collector, &mut output, &stop), 0);
    assert_eq!(engine.stats.packets_received, 0);
    assert_eq!(memory[64..68], 1u32.to_ne_bytes());

    // A slot that is its own successor is taken once.
    put_block(&mut memory, 0, &[tcp_packet(1), tcp_packet(2)]);
    put32(&mut memory, 44, 0);
    assert_eq!(engine.process_packets(&mut memory, &mut collector, &mut output, &stop), 1);
    assert_eq!(engine.process_packets(&mut memory[..100], &mut collector, &mut output, &stop), 0);
}

#[test]
fn a_walk_that_is_told_to_stop_takes_nothing() {
    let mut memory = vec![0u8; BLOCK];
    put_block(&mut memory, 0, &[tcp_packet(1)]);
    let mut engine = TpacketEngine::new(config()).unwrap();
    let mut collector = StatsCollector::with_cpus(1, 10);
    let mut output = Ports { seen: vec![] };
    let stop = AtomicBool::new(true);
    assert_eq!(engine.process_packets(&mut memory, &mut collector, &mut output, &stop), 0);
    assert_eq!(memory[64..68], 1u32.to_ne_bytes());
}

#[test]
fn blocks_lie_as_far_apart_as_configured() {
    let mut memory = vec![0u8; 4 * 1024];
    for block in 0..4usize {
        put_block(&mut memory, block * 1024, &[tcp_packet(block as u16 + 1)]);
    }
    let mut engine =
        TpacketEngine::new(CaptureConfig { block_size: 1024, num_blocks: 3, ..config() }).unwrap();
    let mut collector = StatsCollector::with_cpus(1, 10);
    let mut output = Ports { seen: vec![] };
    assert_eq!(engine.process_blocks(&mut memory, &mut collector, &mut output, 0), 0);
    assert_eq!(engine.process_blocks(&mut memory, &mut collector, &mut output, 2), 2);
    assert_eq!(engine.process_blocks(&mut memory, &mut collector, &mut output, 100), 1);
    assert_eq!(output.seen, vec![Some(1), Some(2), Some(3)]);

    // A block that has no room for its header is passed over.
    let mut engine =
        TpacketEngine::new(CaptureConfig { block_size: 40, num_blocks: 3, ..config() }).unwrap();
    assert_eq!(engine.process_blocks(&mut memory, &mut collector, &mut output, 3), 0);
}

#[test]
fn blocks_are_read_in_the_order_of_the_engine() {
    let mut memory = vec![0u8; 1024];
    put_block(&mut memory, 0, &[tcp_packet(1)]);
    let mut engine =
        TpacketEngine::new(CaptureConfig { block_size: 1024, num_blocks: 1, ..config() }).unwrap();
    let native = engine.order;
    assert_eq!(native == ByteOrder::Little, 1u16.to_ne_bytes()[0] == 1);
    engine.order = if native == ByteOrder::Little { ByteOrder::Big } else { ByteOrder::Little };
    let mut collector = StatsCollector::with_cpus(1, 10);
    let mut output = Ports { seen: vec![] };
    assert_eq!(engine.process_blocks(&mut memory, &mut collector, &mut output, 1), 0);
    engine.order = native;
    assert_eq!(engine.process_blocks(&mut memory, &mut collector, &mut output, 1), 1);
}
