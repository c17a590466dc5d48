//! What holds of the outputs over packets and reports: what is said of each packet, and
//! when a report is given.

use crate::output::console::{
    minimal_report, packet_line, port_or_dash, ConsoleOutput, ReportFigures,
};
use crate::output::json::JsonOutput;
use crate::output::{OutputBackend, OutputResult, PacketRecord, ReportTimer};
use crate::parser::packet::PacketModel;
use crate::parser::{IpAddr, IpHeader, ParsedPacket, Protocol};
use crate::stats::{tcp_flag_bits, AggregateStats, StatsReport};
use crate::text::{ip_text, number, protocol_name};
use crate::text_laws::{
    counts_are_shown, holds, is_digit, more_changes_nothing, parts_are_held, shows,
};
use vstd::prelude::*;

verus! {

/// A report is due where none was made, or where the whole seconds of the interval have
/// passed since the last one; it then counts as made, and else nothing changes.
pub proof fn reports_are_due_after_the_interval(timer: &mut ReportTimer, now_ns: u64, due: bool)
    requires
        call_ensures(ReportTimer::is_due_at, (timer, now_ns), due),
    ensures
        old(timer).last_report_ns is None ==> due,
        old(timer).last_report_ns matches Some(last) ==> (due <==> now_ns >= last
            + old(timer).interval_secs * 1_000_000_000 || old(timer).interval_secs == 0),
        due ==> final(timer).last_report_ns == Some(now_ns),
        !due ==> final(timer).last_report_ns == old(timer).last_report_ns,
        final(timer).interval_secs == old(timer).interval_secs,
{
    if let Some(last) = old(timer).last_report_ns {
        let secs = old(timer).interval_secs as int;
        if now_ns > last {
            let passed = now_ns - last;
            assert(passed / 1_000_000_000 >= secs <==> passed >= secs * 1_000_000_000);
        }
    }
}

/// A new timer has made no report, and waits for its interval between two of them.
pub proof fn timers_start_without_a_report(secs: u64, timer: ReportTimer)
    requires
        call_ensures(ReportTimer::new, (secs,), timer),
    ensures
        timer.last_report_ns is None,
        timer.interval_secs == secs,
{
}

/// The record of a packet repeats its lengths, ports and protocol, its addresses as text,
/// its TCP flags and its time, or the time it is made at where it has none.
pub proof fn records_repeat_the_packet(
    packet: ParsedPacket<'_>,
    now_ns: u64,
    record: PacketRecord,
    name: &'static str,
    addr: String,
    flags: u8,
)
    requires
        call_ensures(PacketRecord::from_at, (&packet, now_ns), record),
        call_ensures(Protocol::name, (&packet.protocol,), name),
    ensures
        record.capture_len == packet.capture_len,
        record.payload_len == packet.payload_len,
        record.protocol@ == name@,
        packet.timestamp_ns matches Some(stamp) ==> record.timestamp_ns == stamp,
        packet.timestamp_ns is None ==> record.timestamp_ns == now_ns,
        packet.tcp matches Some(tcp) ==> {
            &&& record.src_port == Some(tcp.src_port)
            &&& record.dst_port == Some(tcp.dst_port)
            &&& call_ensures(tcp_flag_bits, (&tcp,), flags) ==> record.tcp_flags == Some(flags)
        },
        packet.tcp is None ==> record.tcp_flags is None,
        packet.tcp is None ==> (packet.udp matches Some(udp) ==> record.src_port == Some(
            udp.src_port,
        ) && record.dst_port == Some(udp.dst_port)),
        packet.tcp is None && packet.udp is None ==> record.src_port is None
            && record.dst_port is None,
        packet.ip matches Some(IpHeader::V4(v4)) ==> {
            &&& call_ensures(IpAddr::to_string, (&IpAddr::V4(v4.src_addr),), addr) ==> (
            record.src_ip matches Some(text) && text@ == addr@)
            &&& call_ensures(IpAddr::to_string, (&IpAddr::V4(v4.dst_addr),), addr) ==> (
            record.dst_ip matches Some(text) && text@ == addr@)
        },
        packet.ip matches Some(IpHeader::V6(v6)) ==> {
            &&& call_ensures(IpAddr::to_string, (&IpAddr::V6(v6.src_addr),), addr) ==> (
            record.src_ip matches Some(text) && text@ == addr@)
            &&& call_ensures(IpAddr::to_string, (&IpAddr::V6(v6.dst_addr),), addr) ==> (
            record.dst_ip matches Some(text) && text@ == addr@)
        },
        packet.ip is None ==> (packet.flow_key matches Some(key) ==> {
            &&& call_ensures(IpAddr::to_string, (&key.src_ip,), addr) ==> (
            record.src_ip matches Some(text) && text@ == addr@)
            &&& call_ensures(IpAddr::to_string, (&key.dst_ip,), addr) ==> (
            record.dst_ip matches Some(text) && text@ == addr@)
        }),
        packet.ip is None && packet.flow_key is None ==> record.src_ip is None
            && record.dst_ip is None,
{
}

/// The JSON output collects a record for every packet where it is asked to, in order, and
/// none where not.
pub proof fn json_collects_records<W: Send + Sync>(
    output: &mut JsonOutput<W>,
    packet: ParsedPacket<'_>,
)
    requires
        call_ensures(<JsonOutput<W> as OutputBackend>::emit, (output, &packet), ()),
    ensures
        !old(output).emit_packets ==> final(output).records@ == old(output).records@,
        old(output).emit_packets ==> {
            &&& final(output).records@.len() == old(output).records@.len() + 1
            &&& final(output).records@.drop_last() == old(output).records@
            &&& final(output).records@.last().capture_len == packet.capture_len
            &&& final(output).records@.last().payload_len == packet.payload_len
            &&& packet.timestamp_ns matches Some(stamp)
                ==> final(output).records@.last().timestamp_ns == stamp
        },
        final(output).timer == old(output).timer,
        final(output).waiting == old(output).waiting,
{
}

/// A report of the JSON output is the one that waits, given once and only when it is due.
pub proof fn json_reports_are_given_once<W>(
    output: &mut JsonOutput<W>,
    now_ns: u64,
    report: Option<StatsReport>,
)
    requires
        call_ensures(JsonOutput::<W>::take_report_at, (output, now_ns), report),
    ensures
        final(output).waiting is None,
        report is Some ==> report == old(output).waiting,
        report is Some ==> final(output).timer.last_report_ns == Some(now_ns),
        old(output).waiting is Some && old(output).timer.last_report_ns is None ==> report is Some,
        old(output).timer.last_report_ns matches Some(last) ==> (old(output).waiting is Some ==> (
        report is Some <==> now_ns >= last + old(output).timer.interval_secs * 1_000_000_000
            || old(output).timer.interval_secs == 0)),
        final(output).records@ == old(output).records@,
{
    if let Some(last) = old(output).timer.last_report_ns {
        let secs = old(output).timer.interval_secs as int;
        if now_ns > last {
            let passed = now_ns - last;
            assert(passed / 1_000_000_000 >= secs <==> passed >= secs * 1_000_000_000);
        }
    }
}

/// Records are handed out once, in the order of their packets.
pub proof fn json_records_are_taken_once<W>(
    output: &mut JsonOutput<W>,
    records: Vec<PacketRecord>,
)
    requires
        call_ensures(JsonOutput::<W>::take_records, (output,), records),
    ensures
        records@ == old(output).records@,
        final(output).records@.len() == 0,
        final(output).waiting == old(output).waiting,
{
}

/// A report of statistics alone repeats them and has no flows.
pub proof fn minimal_reports_repeat_the_statistics(stats: AggregateStats, report: StatsReport)
    requires
        call_ensures(minimal_report, (&stats,), report),
    ensures
        report.aggregate == stats,
        report.top_flows@.len() == 0,
        report.flow_stats.total_flows == 0,
        report.uptime_ns == 0,
{
}

/// Statistics that are reported wait, whichever the output, until they are taken.
pub proof fn reported_statistics_wait<W: Send + Sync>(
    console: &mut ConsoleOutput<W>,
    json: &mut JsonOutput<W>,
    stats: AggregateStats,
    shown: OutputResult<()>,
    recorded: OutputResult<()>,
)
    requires
        call_ensures(<ConsoleOutput<W> as OutputBackend>::report_stats, (console, &stats), shown),
        call_ensures(<JsonOutput<W> as OutputBackend>::report_stats, (json, &stats), recorded),
    ensures
        shown is Ok,
        recorded is Ok,
        final(console).waiting matches Some(report) && report.aggregate == stats,
        final(json).waiting matches Some(report) && report.aggregate == stats,
        final(console).packet_count == old(console).packet_count,
        final(json).records@ == old(json).records@,
{
}

/// A report of the console is given where it is due, with the text of a rendered report,
/// and counts as made then.
pub proof fn console_reports_are_given_when_due<W>(
    output: &mut ConsoleOutput<W>,
    report: StatsReport,
    figures: ReportFigures,
    now_ns: u64,
    text: Option<String>,
    rendered: String,
)
    requires
        call_ensures(
            ConsoleOutput::<W>::write_report_at,
            (output, &report, &figures, now_ns),
            text,
        ),
        call_ensures(crate::output::console::render_report, (&report, &figures), rendered),
    ensures
        text matches Some(text) ==> text@ == rendered@ && final(output).timer.last_report_ns
            == Some(now_ns),
        text is None ==> final(output).timer == old(output).timer,
        old(output).timer.last_report_ns is None ==> text is Some,
        old(output).timer.last_report_ns matches Some(last) ==> (text is Some <==> now_ns >= last
            + old(output).timer.interval_secs * 1_000_000_000 || old(output).timer.interval_secs
            == 0),
{
    if let Some(last) = old(output).timer.last_report_ns {
        let secs = old(output).timer.interval_secs as int;
        if now_ns > last {
            let passed = now_ns - last;
            assert(passed / 1_000_000_000 >= secs <==> passed >= secs * 1_000_000_000);
        }
    }
}

/// The console counts every packet, and gives it a line with its count where it is asked
/// for lines.
pub proof fn console_counts_packets<W: Send + Sync>(
    output: &mut ConsoleOutput<W>,
    packet: ParsedPacket<'_>,
)
    requires
        call_ensures(<ConsoleOutput<W> as OutputBackend>::emit, (output, &packet), ()),
        old(output).packet_count < u64::MAX,
    ensures
        final(output).packet_count == old(output).packet_count + 1,
        !old(output).verbose ==> final(output).lines@ == old(output).lines@,
        old(output).verbose ==> {
            &&& final(output).lines@.len() > old(output).lines@.len()
            &&& final(output).lines@.take(old(output).lines@.len() as int) == old(output).lines@
            &&& shows(
                final(output).lines@.skip(old(output).lines@.len() as int),
                "["@,
                old(output).packet_count + 1,
            )
            &&& shows(
                final(output).lines@.skip(old(output).lines@.len() as int),
                ", "@,
                packet.capture_len as int,
            )
        },
        final(output).waiting == old(output).waiting,
{
    if old(output).verbose {
        let count = (old(output).packet_count + 1) as u64;
        let line = packet_line(packet@, count);
        packet_lines_are_read_back(packet@, count);
        let before = old(output).lines@;
        assert(final(output).lines@ == before + line);
        assert((before + line).take(before.len() as int) =~= before);
        assert((before + line).skip(before.len() as int) =~= line);
    }
}

/// Text of an address, or a dash.
pub open spec fn addr_shown(addr: Option<IpAddr>) -> Seq<char> {
    match addr {
        Some(addr) => ip_text(addr),
        None => "-"@,
    }
}

/// The source and the destination address of a packet.
pub open spec fn ends_of(packet: PacketModel) -> (Option<IpAddr>, Option<IpAddr>) {
    match packet.ip {
        Some(crate::parser::ip::IpModel::V4(v4)) => (
            Some(IpAddr::V4(v4.src_addr)),
            Some(IpAddr::V4(v4.dst_addr)),
        ),
        Some(crate::parser::ip::IpModel::V6(v6)) => (
            Some(IpAddr::V6(v6.src_addr)),
            Some(IpAddr::V6(v6.dst_addr)),
        ),
        None => (None, None),
    }
}

/// The line of a packet starts with its count in brackets; then come the source and the
/// destination, each address with its port or a dash, and then the protocol and the length
/// in bytes.
pub proof fn packet_lines_are_read_back(packet: PacketModel, count: u64)
    ensures
        ({
            let line = packet_line(packet, count);
            let (src, dst) = ends_of(packet);
            &&& shows(line, "["@, count as int)
            &&& holds(line, "] "@ + addr_shown(src) + ":"@)
            &&& holds(line, " → "@ + addr_shown(dst) + ":"@)
            &&& packet.tcp matches Some(tcp) ==> {
                &&& shows(line, addr_shown(src) + ":"@, tcp.src_port as int)
                &&& shows(line, addr_shown(dst) + ":"@, tcp.dst_port as int)
            }
            &&& packet.tcp is None ==> (packet.udp matches Some(udp) ==> {
                &&& shows(line, addr_shown(src) + ":"@, udp.src_port as int)
                &&& shows(line, addr_shown(dst) + ":"@, udp.dst_port as int)
            })
            &&& holds(line, " ("@ + protocol_name(packet.protocol) + ", "@)
            &&& shows(line, ", "@, packet.capture_len as int)
        }),
{
    reveal_strlit("] ");
    reveal_strlit(" → ");
    reveal_strlit(" (");
    reveal_strlit(" bytes)\n");
    let (src, dst) = ends_of(packet);
    line_of_pieces(
        count,
        addr_shown(src),
        crate::output::packet_src_port(packet),
        addr_shown(dst),
        crate::output::packet_dst_port(packet),
        protocol_name(packet.protocol),
        packet.capture_len as u64,
    );
}

/// What two more pieces leave as it is.
proof fn two_more(text: Seq<char>, a: Seq<char>, b: Seq<char>, label: Seq<char>, n: int)
    ensures
        shows(text, label, n) ==> shows(text + a + b, label, n),
        holds(text, label) ==> holds(text + a + b, label),
{
    more_changes_nothing(text, a, label, n);
    more_changes_nothing(text + a, b, label, n);
}

/// The pieces of a line, put together, show the numbers and hold the addresses.
proof fn line_of_pieces(
    count: u64,
    from: Seq<char>,
    src_port: Option<u16>,
    to: Seq<char>,
    dst_port: Option<u16>,
    name: Seq<char>,
    len: u64,
)
    requires
        "] "@.len() > 0 && !is_digit("] "@[0]),
        " → "@.len() > 0 && !is_digit(" → "@[0]),
        " ("@.len() > 0 && !is_digit(" ("@[0]),
        " bytes)\n"@.len() > 0 && !is_digit(" bytes)\n"@[0]),
    ensures
        ({
            let line = "["@ + number(count) + "] "@ + from + ":"@ + port_or_dash(src_port)
                + " → "@ + to + ":"@ + port_or_dash(dst_port) + " ("@ + name + ", "@ + number(len)
                + " bytes)\n"@;
            &&& shows(line, "["@, count as int)
            &&& holds(line, "] "@ + from + ":"@)
            &&& holds(line, " → "@ + to + ":"@)
            &&& src_port matches Some(port) ==> shows(line, from + ":"@, port as int)
            &&& dst_port matches Some(port) ==> shows(line, to + ":"@, port as int)
            &&& holds(line, " ("@ + name + ", "@)
            &&& shows(line, ", "@, len as int)
        }),
{
    let p1 = "["@ + number(count) + "] "@;
    let p2 = p1 + from + ":"@;
    let p3 = p2 + port_or_dash(src_port) + " → "@;
    let p4 = p3 + to + ":"@;
    let p5 = p4 + port_or_dash(dst_port) + " ("@;
    let p6 = p5 + name + ", "@;
    let p7 = p6 + number(len) + " bytes)\n"@;
    counts_are_shown(Seq::empty(), "["@, count, "] "@);
    assert(Seq::<char>::empty() + "["@ =~= "["@);
    to_the_end(p1, from, src_port, to, dst_port, name, len, "["@, count as int);
    let source = "] "@ + from + ":"@;
    parts_are_held("["@ + number(count), source, Seq::empty());
    assert("["@ + number(count) + source + Seq::<char>::empty() =~= p2);
    to_the_end(p1, from, src_port, to, dst_port, name, len, source, 0);
    if let Some(port) = src_port {
        counts_are_shown(p1, from + ":"@, port as u64, " → "@);
        assert(p1 + (from + ":"@) =~= p2);
        to_the_end(p1, from, src_port, to, dst_port, name, len, from + ":"@, port as int);
    }
    let target = " → "@ + to + ":"@;
    parts_are_held(p2 + port_or_dash(src_port), target, Seq::empty());
    assert(p2 + port_or_dash(src_port) + target + Seq::<char>::empty() =~= p4);
    to_the_end(p1, from, src_port, to, dst_port, name, len, target, 0);
    if let Some(port) = dst_port {
        counts_are_shown(p3, to + ":"@, port as u64, " ("@);
        assert(p3 + (to + ":"@) =~= p4);
        to_the_end(p1, from, src_port, to, dst_port, name, len, to + ":"@, port as int);
    }
    let named = " ("@ + name + ", "@;
    parts_are_held(p4 + port_or_dash(dst_port), named, Seq::empty());
    assert(p4 + port_or_dash(dst_port) + named + Seq::<char>::empty() =~= p6);
    to_the_end(p1, from, src_port, to, dst_port, name, len, named, 0);
    counts_are_shown(p5 + name, ", "@, len, " bytes)\n"@);
}

/// What the start of a line shows or holds, the line does.
proof fn to_the_end(
    p1: Seq<char>,
    from: Seq<char>,
    src_port: Option<u16>,
    to: Seq<char>,
    dst_port: Option<u16>,
    name: Seq<char>,
    len: u64,
    label: Seq<char>,
    n: int,
)
    ensures
        ({
            let p2 = p1 + from + ":"@;
            let p3 = p2 + port_or_dash(src_port) + " → "@;
            let p4 = p3 + to + ":"@;
            let p5 = p4 + port_or_dash(dst_port) + " ("@;
            let p6 = p5 + name + ", "@;
            let p7 = p6 + number(len) + " bytes)\n"@;
            &&& shows(p1, label, n) ==> shows(p7, label, n)
            &&& shows(p3, label, n) ==> shows(p7, label, n)
            &&& shows(p5, label, n) ==> shows(p7, label, n)
            &&& holds(p2, label) ==> holds(p7, label)
            &&& holds(p4, label) ==> holds(p7, label)
            &&& holds(p6, label) ==> holds(p7, label)
        }),
{
    let p2 = p1 + from + ":"@;
    let p3 = p2 + port_or_dash(src_port) + " → "@;
    let p4 = p3 + to + ":"@;
    let p5 = p4 + port_or_dash(dst_port) + " ("@;
    let p6 = p5 + name + ", "@;
    two_more(p1, from, ":"@, label, n);
    two_more(p2, port_or_dash(src_port), " → "@, label, n);
    two_more(p3, to, ":"@, label, n);
    two_more(p4, port_or_dash(dst_port), " ("@, label, n);
    two_more(p5, name, ", "@, label, n);
    two_more(p6, number(len), " bytes)\n"@, label, n);
}

/// An output that is made gives no packets a line or record and reports every second; what
/// is set afterwards is set, and nothing else.
pub proof fn outputs_are_set_up<W>(
    writer: W,
    console: ConsoleOutput<W>,
    json: JsonOutput<W>,
    secs: u64,
    wanted: bool,
    console_set: ConsoleOutput<W>,
    json_set: JsonOutput<W>,
)
    ensures
        call_ensures(ConsoleOutput::<W>::new, (writer,), console) ==> {
            &&& !console.verbose
            &&& console.timer.interval_secs == 1
            &&& console.timer.last_report_ns is None
            &&& console.packet_count == 0
            &&& console.lines@.len() == 0
        },
        call_ensures(JsonOutput::<W>::new, (writer,), json) ==> {
            &&& !json.emit_packets
            &&& json.timer.interval_secs == 1
            &&& json.timer.last_report_ns is None
            &&& json.records@.len() == 0
        },
        call_ensures(ConsoleOutput::<W>::with_report_interval, (console, secs), console_set) ==> {
            &&& console_set.timer.interval_secs == secs
            &&& console_set.verbose == console.verbose
            &&& console_set.packet_count == console.packet_count
        },
        call_ensures(JsonOutput::<W>::with_report_interval, (json, secs), json_set) ==> {
            &&& json_set.timer.interval_secs == secs
            &&& json_set.emit_packets == json.emit_packets
            &&& json_set.records == json.records
        },
        call_ensures(ConsoleOutput::<W>::with_verbose, (console, wanted), console_set) ==> {
            &&& console_set.verbose == wanted
            &&& console_set.timer == console.timer
            &&& console_set.packet_count == console.packet_count
        },
        call_ensures(JsonOutput::<W>::with_packets, (json, wanted), json_set) ==> {
            &&& json_set.emit_packets == wanted
            &&& json_set.timer == json.timer
            &&& json_set.records == json.records
        },
{
}

/// The lines of the console are handed out once, and so is the report that waits.
pub proof fn console_lines_are_taken_once<W>(
    output: &mut ConsoleOutput<W>,
    lines: String,
    other: &mut ConsoleOutput<W>,
    report: Option<StatsReport>,
)
    requires
        call_ensures(ConsoleOutput::<W>::take_lines, (output,), lines),
        call_ensures(ConsoleOutput::<W>::take_report, (other,), report),
    ensures
        lines@ == old(output).lines@,
        final(output).lines@.len() == 0,
        final(output).packet_count == old(output).packet_count,
        final(output).waiting == old(output).waiting,
        report == old(other).waiting,
        final(other).waiting is None,
        final(other).lines == old(other).lines,
{
}

/// The backends are called by their names.
pub proof fn backends_have_their_names<W: Send + Sync>(
    console: ConsoleOutput<W>,
    json: JsonOutput<W>,
    name: &str,
)
    ensures
        call_ensures(<ConsoleOutput<W> as OutputBackend>::name, (&console,), name) ==> name@
            == "console"@,
        call_ensures(<JsonOutput<W> as OutputBackend>::name, (&json,), name) ==> name@ == "json"@,
{
}

/// Reports that are asked for now come first thing, and never change anything when they do
/// not come; what comes is the rendered report, or the one that waits.
pub proof fn reports_asked_for_now<W>(
    console: &mut ConsoleOutput<W>,
    report: StatsReport,
    figures: ReportFigures,
    text: Option<String>,
    rendered: String,
    json: &mut JsonOutput<W>,
    taken: Option<StatsReport>,
    timer: &mut ReportTimer,
    due: bool,
)
    requires
        call_ensures(ConsoleOutput::<W>::write_report, (console, &report, &figures), text),
        call_ensures(crate::output::console::render_report, (&report, &figures), rendered),
        call_ensures(JsonOutput::<W>::take_report, (json,), taken),
        call_ensures(ReportTimer::is_due, (timer,), due),
    ensures
        old(console).timer.last_report_ns is None || old(console).timer.interval_secs == 0
            ==> text is Some,
        text matches Some(text) ==> text@ == rendered@ && final(console).timer.last_report_ns is Some,
        text is None ==> final(console).timer == old(console).timer,
        final(console).packet_count == old(console).packet_count,
        taken is Some ==> taken == old(json).waiting,
        old(json).waiting is Some && (old(json).timer.last_report_ns is None
            || old(json).timer.interval_secs == 0) ==> taken is Some,
        final(json).waiting is None,
        final(json).records == old(json).records,
        old(timer).last_report_ns is None || old(timer).interval_secs == 0 ==> due,
        due ==> final(timer).last_report_ns is Some,
        !due ==> final(timer).last_report_ns == old(timer).last_report_ns,
        final(timer).interval_secs == old(timer).interval_secs,
{
}

/// The record of a packet that is made now is the one of the moment it is made at.
pub proof fn records_are_of_their_moment(
    packet: ParsedPacket<'_>,
    record: PacketRecord,
    record_at: PacketRecord,
)
    requires
        call_ensures(PacketRecord::from, (&packet,), record),
        call_ensures(PacketRecord::from_at, (&packet, record.timestamp_ns), record_at),
    ensures
        record.timestamp_ns == record_at.timestamp_ns,
        record.capture_len == record_at.capture_len,
        record.payload_len == record_at.payload_len,
        record.protocol@ == record_at.protocol@,
        record.src_port == record_at.src_port && record.dst_port == record_at.dst_port,
        record.tcp_flags == record_at.tcp_flags,
        record.src_ip is Some == record_at.src_ip is Some,
        record.src_ip is Some ==> record.src_ip->Some_0@ == record_at.src_ip->Some_0@,
        record.dst_ip is Some == record_at.dst_ip is Some,
        record.dst_ip is Some ==> record.dst_ip->Some_0@ == record_at.dst_ip->Some_0@,
{
}

} // verus!
