//! What is emitted of packets and statistics, and when.

use crate::clock::{elapsed_nanos, unix_nanos};
use crate::parser::address::IpAddr;
use crate::parser::packet::PacketModel;
use crate::parser::ParsedPacket;
use crate::stats::{flag_bits, tcp_flag_bits, AggregateStats};
use crate::text::{ip_text, protocol_name};
use vstd::prelude::*;
use vstd::string::StringExecFns;

pub mod console;
pub mod json;
pub mod metric_laws;
pub mod prometheus;
pub mod record_laws;
pub mod report_laws;

pub use console::ConsoleOutput;
pub use json::JsonOutput;
pub use prometheus::PrometheusMetrics;

verus! {

/// Why something could not be emitted.
#[derive(Debug, Clone)]
pub enum OutputError {
    /// IO error, with its message
    Io(String),
    /// JSON serialization error, with its message
    Json(String),
    /// HTTP server error
    Http(String),
    /// Channel send error
    ChannelSend(String),
}

/// The message of an output error.
pub open spec fn output_error_message(error: OutputError) -> Seq<char> {
    match error {
        OutputError::Io(cause) => "IO error: "@ + cause@,
        OutputError::Json(cause) => "JSON error: "@ + cause@,
        OutputError::Http(cause) => "HTTP server error: "@ + cause@,
        OutputError::ChannelSend(cause) => "Channel send error: "@ + cause@,
    }
}

impl OutputError {
    /// The message of the error.
    pub fn to_string(&self) -> (text: String)
        ensures
            text@ == output_error_message(*self),
    {
        match self {
            OutputError::Io(cause) => "IO error: ".to_string().concat(cause.as_str()),
            OutputError::Json(cause) => "JSON error: ".to_string().concat(cause.as_str()),
            OutputError::Http(cause) => "HTTP server error: ".to_string().concat(cause.as_str()),
            OutputError::ChannelSend(cause) => "Channel send error: ".to_string().concat(
                cause.as_str(),
            ),
        }
    }
}

/// Result of an output operation.
pub type OutputResult<T> = Result<T, OutputError>;

/// Where parsed packets and statistics go.
pub trait OutputBackend: Send + Sync {
    /// The packets emitted so far, in order. It exists in contracts alone: a backend that
    /// is not itself verified does not write it down.
    open spec fn emitted(&self) -> Seq<PacketModel> {
        arbitrary()
    }

    /// Emits a parsed packet.
    fn emit(&mut self, packet: &ParsedPacket<'_>)
        ensures
            final(self).emitted() == old(self).emitted().push(packet@),
    ;

    /// Emits aggregated statistics.
    fn report_stats(&mut self, stats: &AggregateStats) -> (result: OutputResult<()>)
        ensures
            final(self).emitted() == old(self).emitted(),
    ;

    /// Flushes what is buffered.
    fn flush(&mut self) -> (result: OutputResult<()>)
        ensures
            final(self).emitted() == old(self).emitted(),
    ;

    /// The name of the backend.
    fn name(&self) -> &str;
}

/// Whether a report is due at `now_ns`, where the last one was made at `last_ns` and
/// whole `interval_secs` seconds lie between two of them.
pub open spec fn report_is_due(last_ns: Option<u64>, interval_secs: u64, now_ns: u64) -> bool {
    match last_ns {
        Some(last_ns) => if now_ns > last_ns {
            (now_ns - last_ns) / 1_000_000_000 >= interval_secs
        } else {
            interval_secs == 0
        },
        None => true,
    }
}

/// Spaces reports out in time.
pub struct ReportTimer {
    /// When the last report was made, in nanoseconds since `start`
    pub last_report_ns: Option<u64>,
    /// Seconds between two reports
    pub interval_secs: u64,
    /// When the timer was made
    pub start: std::time::Instant,
}

impl ReportTimer {
    /// A timer that has made no report yet.
    pub fn new(interval_secs: u64) -> (timer: ReportTimer)
        ensures
            timer.last_report_ns is None,
            timer.interval_secs == interval_secs,
    {
        ReportTimer { last_report_ns: None, interval_secs, start: std::time::Instant::now() }
    }

    /// Whether a report is due now. If so, it counts as made.
    pub fn is_due(&mut self) -> (due: bool)
        ensures
            due ==> exists|now_ns: u64|
                {
                    &&& #[trigger] report_is_due(
                        old(self).last_report_ns,
                        old(self).interval_secs,
                        now_ns,
                    )
                    &&& *final(self) == (ReportTimer {
                        last_report_ns: Some(now_ns),
                        ..*old(self)
                    })
                },
            !due ==> old(self).last_report_ns is Some && old(self).interval_secs > 0
                && *final(self) == *old(self),
    {
        let now_ns: u64 = elapsed_nanos(&self.start);
        self.is_due_at(now_ns)
    }

    /// Whether a report is due at `now_ns` nanoseconds since the timer was made. If so,
    /// it counts as made.
    pub fn is_due_at(&mut self, now_ns: u64) -> (due: bool)
        ensures
            due == report_is_due(old(self).last_report_ns, old(self).interval_secs, now_ns),
            due ==> *final(self) == (ReportTimer { last_report_ns: Some(now_ns), ..*old(self) }),
            !due ==> *final(self) == *old(self),
    {
        let due = match self.last_report_ns {
            Some(last_ns) => now_ns.saturating_sub(last_ns) / 1_000_000_000 >= self.interval_secs,
            None => true,
        };
        if due {
            self.last_report_ns = Some(now_ns);
        }
        due
    }
}

/// Between two reports lie at least the whole seconds of the interval.
pub proof fn reports_are_spaced_out(last_ns: u64, interval_secs: u64, now_ns: u64)
    requires
        report_is_due(Some(last_ns), interval_secs, now_ns),
    ensures
        now_ns >= last_ns ==> now_ns - last_ns >= interval_secs * 1_000_000_000,
        now_ns < last_ns ==> interval_secs == 0,
{
}

/// A packet as it is serialized.
#[derive(Debug, Clone)]
pub struct PacketRecord {
    /// Timestamp in nanoseconds since the epoch
    pub timestamp_ns: u64,
    /// Capture length
    pub capture_len: usize,
    /// Protocol
    pub protocol: String,
    /// Source IP, if there is one
    pub src_ip: Option<String>,
    /// Destination IP, if there is one
    pub dst_ip: Option<String>,
    /// Source port, if there is one
    pub src_port: Option<u16>,
    /// Destination port, if there is one
    pub dst_port: Option<u16>,
    /// TCP flags, if there is a TCP header
    pub tcp_flags: Option<u8>,
    /// Payload length
    pub payload_len: usize,
}

/// The source address of a packet: that of its IP header, else that of its flow.
pub open spec fn record_src_ip(packet: PacketModel) -> Option<IpAddr> {
    match (packet.ip, packet.flow_key) {
        (Some(ip), _) => Some(ip.src_addr()),
        (None, Some(key)) => Some(key.src_ip),
        (None, None) => None,
    }
}

/// The destination address of a packet: that of its IP header, else that of its flow.
pub open spec fn record_dst_ip(packet: PacketModel) -> Option<IpAddr> {
    match (packet.ip, packet.flow_key) {
        (Some(ip), _) => Some(ip.dst_addr()),
        (None, Some(key)) => Some(key.dst_ip),
        (None, None) => None,
    }
}

/// Whether `text` is the text of `addr`, or both are absent.
pub open spec fn is_addr_text(text: Option<String>, addr: Option<IpAddr>) -> bool {
    match (text, addr) {
        (Some(text), Some(addr)) => text@ == ip_text(addr),
        (None, None) => true,
        _ => false,
    }
}

/// The source port of a packet, if it has a TCP or UDP header.
pub open spec fn packet_src_port(packet: PacketModel) -> Option<u16> {
    match (packet.tcp, packet.udp) {
        (Some(tcp), _) => Some(tcp.src_port),
        (None, Some(udp)) => Some(udp.src_port),
        (None, None) => None,
    }
}

/// The destination port of a packet, if it has a TCP or UDP header.
pub open spec fn packet_dst_port(packet: PacketModel) -> Option<u16> {
    match (packet.tcp, packet.udp) {
        (Some(tcp), _) => Some(tcp.dst_port),
        (None, Some(udp)) => Some(udp.dst_port),
        (None, None) => None,
    }
}

/// Whether `record` is the record of `packet`, stamped `now_ns` where the packet has no
/// timestamp of its own.
pub open spec fn is_record_of(record: PacketRecord, packet: PacketModel, now_ns: u64) -> bool {
    &&& record.timestamp_ns == match packet.timestamp_ns {
        Some(timestamp_ns) => timestamp_ns,
        None => now_ns,
    }
    &&& record.capture_len == packet.capture_len
    &&& record.protocol@ == protocol_name(packet.protocol)
    &&& is_addr_text(record.src_ip, record_src_ip(packet))
    &&& is_addr_text(record.dst_ip, record_dst_ip(packet))
    &&& record.src_port == packet_src_port(packet)
    &&& record.dst_port == packet_dst_port(packet)
    &&& record.tcp_flags == match packet.tcp {
        Some(tcp) => Some(flag_bits(tcp) as u8),
        None => None,
    }
    &&& record.payload_len == packet.payload_len
}

/// The text of `addr`, if there is one.
fn addr_text(addr: &Option<IpAddr>) -> (text: Option<String>)
    ensures
        is_addr_text(text, *addr),
{
    match addr {
        Some(addr) => Some(addr.to_string()),
        None => None,
    }
}

impl PacketRecord {
    /// The record of `packet`, stamped now where the packet has no timestamp.
    pub fn from(packet: &ParsedPacket<'_>) -> (record: PacketRecord)
        ensures
            is_record_of(record, packet@, record.timestamp_ns),
    {
        PacketRecord::from_at(packet, unix_nanos())
    }

    /// The record of `packet`, stamped `now_ns` where the packet has no timestamp.
    pub fn from_at(packet: &ParsedPacket<'_>, now_ns: u64) -> (record: PacketRecord)
        ensures
            is_record_of(record, packet@, now_ns),
    {
        let timestamp_ns: u64 = match packet.timestamp_ns {
            Some(timestamp_ns) => timestamp_ns,
            None => now_ns,
        };
        let src_ip = match (packet.src_ip(), &packet.flow_key) {
            (Some(addr), _) => Some(addr),
            (None, Some(key)) => Some(key.src_ip),
            (None, None) => None,
        };
        let dst_ip = match (packet.dst_ip(), &packet.flow_key) {
            (Some(addr), _) => Some(addr),
            (None, Some(key)) => Some(key.dst_ip),
            (None, None) => None,
        };
        let tcp_flags: Option<u8> = match &packet.tcp {
            Some(tcp) => Some(tcp_flag_bits(tcp)),
            None => None,
        };
        PacketRecord {
            timestamp_ns,
            capture_len: packet.capture_len,
            protocol: packet.protocol.name().to_string(),
            src_ip: addr_text(&src_ip),
            dst_ip: addr_text(&dst_ip),
            src_port: packet.src_port(),
            dst_port: packet.dst_port(),
            tcp_flags,
            payload_len: packet.payload_len,
        }
    }
}

} // verus!
