//! The human-readable report.

use crate::flow::{FlowState, FlowTableStats};
use crate::output::{
    packet_dst_port, packet_src_port, report_is_due, OutputBackend, OutputResult, ReportTimer,
};
use crate::parser::packet::PacketModel;
use crate::parser::{FlowKey, IpAddr, ParsedPacket};
use crate::stats::{AggregateStats, StatsReport};
use crate::text::{
    decimal, decimal_text, ends_text, flow_ends, ip_text, left_aligned, left_aligned_text, number,
    protocol_name, repeated, repeated_text, right_aligned, right_aligned_text,
};
use vstd::prelude::*;
use vstd::string::StringExecFns;

verus! {

/// The figures of a report that are fractions, each with two decimal places.
#[derive(Debug, Clone)]
pub struct ReportFigures {
    /// Uptime in seconds
    pub uptime_secs: String,
    /// Packets per second
    pub pps: String,
    /// Megabits per second
    pub mbps: String,
    /// Share of TCP packets in percent
    pub tcp_percent: String,
    /// Share of UDP packets in percent
    pub udp_percent: String,
    /// Share of ICMP packets in percent
    pub icmp_percent: String,
    /// Share of IPv6 packets in percent
    pub ipv6_percent: String,
    /// Share of ARP packets in percent
    pub arp_percent: String,
}

/// The title of a report.
pub open spec fn title_text() -> Seq<char> {
    "\n"@ + repeated('=', 60) + "\n"@ + "Zero-Copy Network Analyzer - Statistics Report\n"@
        + repeated('=', 60) + "\n\n"@
}

/// The totals and rates of a report.
pub open spec fn totals_text(report: StatsReport, figures: ReportFigures) -> Seq<char> {
    "Uptime: "@ + figures.uptime_secs@ + "s | Flows: "@ + number(report.flow_stats.total_flows)
        + " | Packets: "@ + number(report.aggregate.total_packets) + " | Bytes: "@ + number(
        report.aggregate.total_bytes,
    ) + "\n"@ + "Rate: "@ + figures.pps@ + " pps | "@ + figures.mbps@ + " Mbps\n\n"@
}

/// One line of the protocol distribution.
pub open spec fn share_text(label: Seq<char>, percent: Seq<char>, packets: u64) -> Seq<char> {
    label + right_aligned(percent, 7) + "% ("@ + number(packets) + ")\n"@
}

/// The protocol distribution of a report.
pub open spec fn distribution_text(stats: AggregateStats, figures: ReportFigures) -> Seq<char> {
    "Protocol Distribution:\n"@ + share_text(
        "  TCP:  "@,
        figures.tcp_percent@,
        stats.tcp_packets,
    ) + share_text("  UDP:  "@, figures.udp_percent@, stats.udp_packets) + share_text(
        "  ICMP: "@,
        figures.icmp_percent@,
        stats.icmp_packets,
    ) + share_text("  IPv6: "@, figures.ipv6_percent@, stats.ipv6_packets) + share_text(
        "  ARP:  "@,
        figures.arp_percent@,
        stats.arp_packets,
    ) + "\n"@
}

/// A row of the table of flows.
pub open spec fn row_text(
    rank: Seq<char>,
    flow: Seq<char>,
    bytes: Seq<char>,
    packets: Seq<char>,
) -> Seq<char> {
    left_aligned(rank, 8) + " "@ + left_aligned(flow, 44) + " "@ + right_aligned(bytes, 12) + " "@
        + right_aligned(packets, 10) + "\n"@
}

/// The rows of the first `n` flows, numbered from 1.
pub open spec fn rows_text(flows: Seq<(FlowKey, FlowState)>, n: int) -> Seq<char>
    decreases n,
{
    if n <= 0 {
        Seq::empty()
    } else {
        rows_text(flows, n - 1) + row_text(
            decimal(n as nat),
            ends_text(flows[n - 1].0, " → "@),
            number(flows[n - 1].1.byte_count),
            number(flows[n - 1].1.packet_count),
        )
    }
}

/// The table of the largest flows, ten at most; nothing where there is none.
pub open spec fn flows_text(flows: Seq<(FlowKey, FlowState)>) -> Seq<char> {
    if flows.len() == 0 {
        Seq::empty()
    } else {
        "Top 10 Flows by Bytes:\n"@ + row_text("#"@, "Flow"@, "Bytes"@, "Packets"@) + repeated(
            '-',
            80,
        ) + "\n"@ + rows_text(
            flows,
            if flows.len() < 10 {
                flows.len() as int
            } else {
                10
            },
        ) + "\n"@
    }
}

/// The error counts of a report; nothing where there were no errors.
pub open spec fn errors_text(stats: AggregateStats) -> Seq<char> {
    if stats.dropped == 0 && stats.parse_errors == 0 {
        Seq::empty()
    } else {
        "Errors:\n"@ + "  Dropped:      "@ + number(stats.dropped) + "\n  Parse errors: "@ + number(
            stats.parse_errors,
        ) + "\n\n"@
    }
}

/// A whole report.
pub open spec fn report_text(report: StatsReport, figures: ReportFigures) -> Seq<char> {
    title_text() + totals_text(report, figures) + distribution_text(report.aggregate, figures)
        + flows_text(report.top_flows@) + errors_text(report.aggregate) + repeated('=', 60) + "\n"@
}

/// The text of `addr`, or a dash.
pub open spec fn addr_or_dash(addr: Option<IpAddr>) -> Seq<char> {
    match addr {
        Some(addr) => ip_text(addr),
        None => "-"@,
    }
}

/// The text of `port`, or a dash.
pub open spec fn port_or_dash(port: Option<u16>) -> Seq<char> {
    match port {
        Some(port) => decimal(port as nat),
        None => "-"@,
    }
}

/// The line for the packet that was emitted as the `count`th.
pub open spec fn packet_line(packet: PacketModel, count: u64) -> Seq<char> {
    let src_ip = match packet.ip {
        Some(ip) => Some(ip.src_addr()),
        None => None,
    };
    let dst_ip = match packet.ip {
        Some(ip) => Some(ip.dst_addr()),
        None => None,
    };
    "["@ + number(count) + "] "@ + addr_or_dash(src_ip) + ":"@ + port_or_dash(
        packet_src_port(packet),
    ) + " → "@ + addr_or_dash(dst_ip) + ":"@ + port_or_dash(packet_dst_port(packet)) + " ("@
        + protocol_name(packet.protocol) + ", "@ + decimal(packet.capture_len as nat)
        + " bytes)\n"@
}

/// The title of a report.
fn title() -> (text: String)
    ensures
        text@ == title_text(),
{
    proof {
        reveal_strlit("=");
    }
    let rule = repeated_text("=", 60);
    let mut text = "\n".to_string();
    text.append(rule.as_str());
    text.append("\n");
    text.append("Zero-Copy Network Analyzer - Statistics Report\n");
    text.append(rule.as_str());
    text.append("\n\n");
    text
}

/// The totals and rates of a report.
fn totals(report: &StatsReport, figures: &ReportFigures) -> (text: String)
    ensures
        text@ == totals_text(*report, *figures),
{
    let mut text = "Uptime: ".to_string();
    text.append(figures.uptime_secs.as_str());
    text.append("s | Flows: ");
    text.append(decimal_text(report.flow_stats.total_flows).as_str());
    text.append(" | Packets: ");
    text.append(decimal_text(report.aggregate.total_packets).as_str());
    text.append(" | Bytes: ");
    text.append(decimal_text(report.aggregate.total_bytes).as_str());
    text.append("\n");
    text.append("Rate: ");
    text.append(figures.pps.as_str());
    text.append(" pps | ");
    text.append(figures.mbps.as_str());
    text.append(" Mbps\n\n");
    text
}

/// One line of the protocol distribution.
fn share(label: &str, percent: &str, packets: u64) -> (text: String)
    ensures
        text@ == share_text(label@, percent@, packets),
{
    let mut text = label.to_string();
    text.append(right_aligned_text(percent, 7).as_str());
    text.append("% (");
    text.append(decimal_text(packets).as_str());
    text.append(")\n");
    text
}

/// The protocol distribution of a report.
fn distribution(stats: &AggregateStats, figures: &ReportFigures) -> (text: String)
    ensures
        text@ == distribution_text(*stats, *figures),
{
    let mut text = "Protocol Distribution:\n".to_string();
    text.append(share("  TCP:  ", figures.tcp_percent.as_str(), stats.tcp_packets).as_str());
    text.append(share("  UDP:  ", figures.udp_percent.as_str(), stats.udp_packets).as_str());
    text.append(share("  ICMP: ", figures.icmp_percent.as_str(), stats.icmp_packets).as_str());
    text.append(share("  IPv6: ", figures.ipv6_percent.as_str(), stats.ipv6_packets).as_str());
    text.append(share("  ARP:  ", figures.arp_percent.as_str(), stats.arp_packets).as_str());
    text.append("\n");
    text
}

/// A row of the table of flows.
fn row(rank: &str, flow: &str, bytes: &str, packets: &str) -> (text: String)
    ensures
        text@ == row_text(rank@, flow@, bytes@, packets@),
{
    let mut text = left_aligned_text(rank, 8);
    text.append(" ");
    text.append(left_aligned_text(flow, 44).as_str());
    text.append(" ");
    text.append(right_aligned_text(bytes, 12).as_str());
    text.append(" ");
    text.append(right_aligned_text(packets, 10).as_str());
    text.append("\n");
    text
}

/// The rows of the first `n` flows.
fn rows(flows: &Vec<(FlowKey, FlowState)>, n: usize) -> (text: String)
    requires
        n <= flows@.len(),
    ensures
        text@ == rows_text(flows@, n as int),
{
    let mut text = String::new();
    let mut i: usize = 0;
    while i < n
        invariant
            i <= n <= flows@.len(),
            text@ == rows_text(flows@, i as int),
        decreases n - i,
    {
        let (key, state) = &flows[i];
        let line = row(
            decimal_text(i as u64 + 1).as_str(),
            flow_ends(key, " → ").as_str(),
            decimal_text(state.byte_count).as_str(),
            decimal_text(state.packet_count).as_str(),
        );
        text.append(line.as_str());
        i = i + 1;
    }
    text
}

/// The table of the largest flows.
fn flows_table(flows: &Vec<(FlowKey, FlowState)>) -> (text: String)
    ensures
        text@ == flows_text(flows@),
{
    let mut text = String::new();
    if flows.len() == 0 {
        return text;
    }
    proof {
        reveal_strlit("-");
    }
    let n: usize = if flows.len() < 10 {
        flows.len()
    } else {
        10
    };
    text = "Top 10 Flows by Bytes:\n".to_string();
    text.append(row("#", "Flow", "Bytes", "Packets").as_str());
    text.append(repeated_text("-", 80).as_str());
    text.append("\n");
    text.append(rows(flows, n).as_str());
    text.append("\n");
    text
}

/// The error counts of a report.
fn errors(stats: &AggregateStats) -> (text: String)
    ensures
        text@ == errors_text(*stats),
{
    let mut text = String::new();
    if stats.dropped == 0 && stats.parse_errors == 0 {
        return text;
    }
    text = "Errors:\n".to_string();
    text.append("  Dropped:      ");
    text.append(decimal_text(stats.dropped).as_str());
    text.append("\n  Parse errors: ");
    text.append(decimal_text(stats.parse_errors).as_str());
    text.append("\n\n");
    text
}

/// A whole report.
pub fn render_report(report: &StatsReport, figures: &ReportFigures) -> (text: String)
    ensures
        text@ == report_text(*report, *figures),
{
    proof {
        reveal_strlit("=");
    }
    let mut text = title();
    text.append(totals(report, figures).as_str());
    text.append(distribution(&report.aggregate, figures).as_str());
    text.append(flows_table(&report.top_flows).as_str());
    text.append(errors(&report.aggregate).as_str());
    text.append(repeated_text("=", 60).as_str());
    text.append("\n");
    text
}

/// The text of `addr`, or a dash.
fn addr_text_or_dash(addr: &Option<IpAddr>) -> (text: String)
    ensures
        text@ == addr_or_dash(*addr),
{
    match addr {
        Some(addr) => addr.to_string(),
        None => "-".to_string(),
    }
}

/// The text of `port`, or a dash.
fn port_text_or_dash(port: Option<u16>) -> (text: String)
    ensures
        text@ == port_or_dash(port),
{
    match port {
        Some(port) => decimal_text(port as u64),
        None => "-".to_string(),
    }
}

/// The line for the packet that was emitted as the `count`th.
fn render_packet(packet: &ParsedPacket<'_>, count: u64) -> (text: String)
    ensures
        text@ == packet_line(packet@, count),
{
    let mut text = "[".to_string();
    text.append(decimal_text(count).as_str());
    text.append("] ");
    text.append(addr_text_or_dash(&packet.src_ip()).as_str());
    text.append(":");
    text.append(port_text_or_dash(packet.src_port()).as_str());
    text.append(" → ");
    text.append(addr_text_or_dash(&packet.dst_ip()).as_str());
    text.append(":");
    text.append(port_text_or_dash(packet.dst_port()).as_str());
    text.append(" (");
    text.append(packet.protocol.name());
    text.append(", ");
    text.append(decimal_text(packet.capture_len as u64).as_str());
    text.append(" bytes)\n");
    text
}

/// The console backend. It renders the text that `writer` is to take, and leaves writing
/// it to its owner.
pub struct ConsoleOutput<W> {
    /// Where the text goes
    pub writer: W,
    /// When the next report is due
    pub timer: ReportTimer,
    /// Packets emitted so far
    pub packet_count: u64,
    /// Whether every packet gets a line
    pub verbose: bool,
    /// The lines of packets that are still to be written
    pub lines: String,
    /// The report that still waits for its figures
    pub waiting: Option<StatsReport>,
    /// The packets emitted so far
    pub log: Ghost<Seq<PacketModel>>,
}

/// `output` once it has made a report at `now_ns`.
pub open spec fn reported_at<W>(output: ConsoleOutput<W>, now_ns: u64) -> ConsoleOutput<W> {
    ConsoleOutput {
        timer: ReportTimer { last_report_ns: Some(now_ns), ..output.timer },
        ..output
    }
}

impl<W> ConsoleOutput<W> {
    /// A console that reports every second and gives packets no lines.
    pub fn new(writer: W) -> (output: ConsoleOutput<W>)
        ensures
            output.writer == writer,
            output.timer.last_report_ns is None,
            output.timer.interval_secs == 1,
            output.packet_count == 0,
            !output.verbose,
            output.lines@ == Seq::<char>::empty(),
            output.waiting is None,
            output.log@ == Seq::<PacketModel>::empty(),
    {
        let lines = String::new();
        assert(lines@ =~= Seq::empty());
        ConsoleOutput {
            writer,
            timer: ReportTimer::new(1),
            packet_count: 0,
            verbose: false,
            lines,
            waiting: None,
            log: Ghost(Seq::empty()),
        }
    }

    /// Sets the seconds between two reports.
    pub fn with_report_interval(self, secs: u64) -> (output: ConsoleOutput<W>)
        ensures
            output == (ConsoleOutput {
                timer: ReportTimer { interval_secs: secs, ..self.timer },
                ..self
            }),
    {
        let mut output = self;
        output.timer.interval_secs = secs;
        output
    }

    /// Sets whether every packet gets a line.
    pub fn with_verbose(self, verbose: bool) -> (output: ConsoleOutput<W>)
        ensures
            output == (ConsoleOutput { verbose, ..self }),
    {
        let mut output = self;
        output.verbose = verbose;
        output
    }

    /// Takes the lines that are still to be written.
    pub fn take_lines(&mut self) -> (lines: String)
        ensures
            lines@ == old(self).lines@,
            final(self).lines@ == Seq::<char>::empty(),
            *final(self) == (ConsoleOutput { lines: final(self).lines, ..*old(self) }),
    {
        let mut lines = String::new();
        assert(lines@ =~= Seq::empty());
        std::mem::swap(&mut lines, &mut self.lines);
        lines
    }

    /// Takes the report that waits for its figures.
    pub fn take_report(&mut self) -> (report: Option<StatsReport>)
        ensures
            report == old(self).waiting,
            *final(self) == (ConsoleOutput { waiting: None, ..*old(self) }),
    {
        self.waiting.take()
    }

    /// The report to write now, if one is due.
    pub fn write_report(&mut self, report: &StatsReport, figures: &ReportFigures) -> (text: Option<
        String,
    >)
        ensures
            match text {
                Some(text) => {
                    &&& text@ == report_text(*report, *figures)
                    &&& exists|now_ns: u64|
                        {
                            &&& #[trigger] report_is_due(
                                old(self).timer.last_report_ns,
                                old(self).timer.interval_secs,
                                now_ns,
                            )
                            &&& *final(self) == reported_at(*old(self), now_ns)
                        }
                },
                None => old(self).timer.last_report_ns is Some && old(self).timer.interval_secs > 0
                    && *final(self) == *old(self),
            },
    {
        if self.timer.is_due() {
            Some(render_report(report, figures))
        } else {
            None
        }
    }

    /// The report to write at `now_ns` nanoseconds since the output was made, if one is
    /// due.
    pub fn write_report_at(
        &mut self,
        report: &StatsReport,
        figures: &ReportFigures,
        now_ns: u64,
    ) -> (text: Option<String>)
        ensures
            match text {
                Some(text) => text@ == report_text(*report, *figures) && report_is_due(
                    old(self).timer.last_report_ns,
                    old(self).timer.interval_secs,
                    now_ns,
                ) && *final(self) == reported_at(*old(self), now_ns),
                None => !report_is_due(
                    old(self).timer.last_report_ns,
                    old(self).timer.interval_secs,
                    now_ns,
                ) && *final(self) == *old(self),
            },
    {
        if self.timer.is_due_at(now_ns) {
            Some(render_report(report, figures))
        } else {
            None
        }
    }
}

/// The lines that wait to be written once `packet` was emitted too.
pub open spec fn lines_after<W>(output: ConsoleOutput<W>, packet: PacketModel) -> Seq<char> {
    if output.verbose {
        output.lines@ + packet_line(packet, output.packet_count.wrapping_add(1))
    } else {
        output.lines@
    }
}

impl<W: Send + Sync> OutputBackend for ConsoleOutput<W> {
    open spec fn emitted(&self) -> Seq<PacketModel> {
        self.log@
    }

    /// Counts a packet, and renders its line where packets get one.
    fn emit(&mut self, packet: &ParsedPacket<'_>)
        ensures
            final(self).lines@ == lines_after(*old(self), packet@),
            *final(self) == (ConsoleOutput {
                packet_count: old(self).packet_count.wrapping_add(1),
                lines: final(self).lines,
                log: final(self).log,
                ..*old(self)
            }),
    {
        self.packet_count = self.packet_count.wrapping_add(1);
        if self.verbose {
            let line = render_packet(packet, self.packet_count);
            self.lines.append(line.as_str());
        }
        self.log = Ghost(self.log@.push(packet@));
    }

    /// Has a report of `stats` wait for its figures.
    fn report_stats(&mut self, stats: &AggregateStats) -> (result: OutputResult<()>)
        ensures
            result is Ok,
            final(self).waiting matches Some(report) && is_minimal_report(report, *stats),
            *final(self) == (ConsoleOutput { waiting: final(self).waiting, ..*old(self) }),
    {
        self.waiting = Some(minimal_report(stats));
        Ok(())
    }

    /// Does nothing: the owner of the writer flushes it.
    fn flush(&mut self) -> (result: OutputResult<()>)
        ensures
            result is Ok,
            *final(self) == *old(self),
    {
        Ok(())
    }

    fn name(&self) -> (name: &str)
        ensures
            name@ == "console"@,
    {
        "console"
    }
}

/// Whether `report` is of `stats` alone: no flows, no uptime.
pub open spec fn is_minimal_report(report: StatsReport, stats: AggregateStats) -> bool {
    &&& report.aggregate == stats
    &&& report.flow_stats == (FlowTableStats {
        total_flows: 0,
        active_flows: 0,
        expired_flows: 0,
        total_packets: 0,
        total_bytes: 0,
        collisions: 0,
    })
    &&& report.uptime_ns == 0
    &&& report.top_flows@.len() == 0
}

/// A report of `stats` alone: no flows, no uptime.
pub fn minimal_report(stats: &AggregateStats) -> (report: StatsReport)
    ensures
        is_minimal_report(report, *stats),
{
    StatsReport {
        aggregate: *stats,
        flow_stats: FlowTableStats::default(),
        uptime_ns: 0,
        top_flows: Vec::new(),
    }
}

} // verus!
