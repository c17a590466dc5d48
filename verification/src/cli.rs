//! The command line of the analyzer, and what it selects.

use crate::capture::{CaptureConfig, CaptureConfigBuilder};
use vstd::prelude::*;

verus! {

/// The arguments of the analyzer.
#[derive(Debug, Clone)]
pub struct Cli {
    /// Network interface to capture from
    pub interface: String,
    /// Queue ID for RSS steering (AF_XDP only)
    pub queue_id: u16,
    /// UMEM size in bytes
    pub umem_size: usize,
    /// Frame size in bytes
    pub frame_size: usize,
    /// Number of fill ring entries
    pub fill_ring_size: u32,
    /// CPU core to pin the capture thread to
    pub cpu_core: usize,
    /// Flow table capacity
    pub flow_table_size: usize,
    /// Flow idle timeout in seconds
    pub flow_timeout_secs: u64,
    /// Statistics reporting interval in seconds
    pub stats_interval_secs: u64,
    /// Output format (console, json, prometheus, all)
    pub output_format: String,
    /// Prometheus metrics port
    pub prometheus_port: u16,
    /// Verbose logging
    pub verbose: bool,
    /// Use TPACKET_V3 instead of AF_XDP
    pub use_tpacket: bool,
    /// PCAP file to replay instead of a live capture
    pub pcap_file: Option<String>,
}

/// A capture backend.
#[derive(Debug, Clone, Copy, PartialEq, Eq, Structural)]
pub enum EngineKind {
    /// AF_XDP
    Xdp,
    /// AF_PACKET with TPACKET_V3
    Tpacket,
}

/// An output backend.
#[derive(Debug, Clone, Copy, PartialEq, Eq, Structural)]
pub enum BackendKind {
    /// Human-readable reports
    Console,
    /// JSON records
    Json,
    /// Prometheus metrics
    Prometheus,
}

/// The output backend of the given name: the console, where it names no other.
pub open spec fn backend_named(name: Seq<char>) -> BackendKind {
    if name == "json"@ {
        BackendKind::Json
    } else if name == "prometheus"@ {
        BackendKind::Prometheus
    } else {
        BackendKind::Console
    }
}

/// Whether `config` is what `cli` asks for: its values, with defaults for what is 0.
pub open spec fn is_config_of(config: CaptureConfig, cli: Cli) -> bool {
    &&& config.interface@ == cli.interface@
    &&& config == crate::capture::built(
        CaptureConfigBuilder {
            interface: config.interface,
            queue_id: cli.queue_id,
            umem_size: cli.umem_size,
            frame_size: cli.frame_size,
            fill_ring_size: cli.fill_ring_size,
            cpu_core: cli.cpu_core,
            use_tpacket: cli.use_tpacket,
        },
    )
}

impl Cli {
    /// The capture configuration that the arguments ask for.
    pub fn capture_config(&self) -> (config: CaptureConfig)
        ensures
            is_config_of(config, *self),
    {
        CaptureConfig::builder().interface(self.interface.as_str()).queue_id(
            self.queue_id,
        ).umem_size(self.umem_size).frame_size(self.frame_size).fill_ring_size(
            self.fill_ring_size,
        ).cpu_core(self.cpu_core).use_tpacket(self.use_tpacket).build()
    }

    /// The capture backend that the arguments ask for.
    pub fn engine(&self) -> (engine: EngineKind)
        ensures
            engine == if self.use_tpacket {
                EngineKind::Tpacket
            } else {
                EngineKind::Xdp
            },
    {
        if self.use_tpacket {
            EngineKind::Tpacket
        } else {
            EngineKind::Xdp
        }
    }

    /// The output backend that the arguments ask for.
    pub fn backend(&self) -> (backend: BackendKind)
        ensures
            backend == backend_named(self.output_format@),
    {
        if self.output_format == "json".to_string() {
            BackendKind::Json
        } else if self.output_format == "prometheus".to_string() {
            BackendKind::Prometheus
        } else {
            BackendKind::Console
        }
    }

    /// The least severe level that is logged.
    pub fn log_level(&self) -> (level: &'static str)
        ensures
            level@ == if self.verbose {
                "debug"@
            } else {
                "info"@
            },
    {
        if self.verbose {
            "debug"
        } else {
            "info"
        }
    }
}

} // verus!
