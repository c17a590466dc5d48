//! What a reader finds in a report: every count behind its own label, every flow in its own
//! row.

use crate::flow::FlowState;
use crate::output::console::{
    distribution_text, errors_text, flows_text, render_report, report_text, row_text, rows_text,
    share_text, title_text, totals_text, ReportFigures,
};
use crate::parser::FlowKey;
use crate::stats::StatsReport;
use crate::text::{decimal, ip_text, left_aligned, number, repeated, right_aligned};
use crate::text_laws::{
    counts_are_shown, holds, is_digit, labels_are_followed, more_changes_nothing,
    parts_are_held, shows, the_whole_shows_its_parts,
};
use vstd::prelude::*;

verus! {

/// A part of a report is in the report.
proof fn sections_are_in_the_report(
    report: StatsReport,
    figures: ReportFigures,
    label: Seq<char>,
    n: int,
)
    ensures
        ({
            let text = report_text(report, figures);
            let totals = totals_text(report, figures);
            let distribution = distribution_text(report.aggregate, figures);
            let flows = flows_text(report.top_flows@);
            let errors = errors_text(report.aggregate);
            &&& shows(totals, label, n) ==> shows(text, label, n)
            &&& holds(totals, label) ==> holds(text, label)
            &&& shows(distribution, label, n) ==> shows(text, label, n)
            &&& holds(flows, label) ==> holds(text, label)
            &&& shows(errors, label, n) ==> shows(text, label, n)
        }),
{
    let text = report_text(report, figures);
    let title = title_text();
    let totals = totals_text(report, figures);
    let distribution = distribution_text(report.aggregate, figures);
    let flows = flows_text(report.top_flows@);
    let errors = errors_text(report.aggregate);
    let end = repeated('=', 60) + "\n"@;
    the_whole_shows_its_parts(title, totals, distribution + flows + errors + end, label, n);
    assert(title + totals + (distribution + flows + errors + end) =~= text);
    the_whole_shows_its_parts(title + totals, distribution, flows + errors + end, label, n);
    assert(title + totals + distribution + (flows + errors + end) =~= text);
    the_whole_shows_its_parts(title + totals + distribution, flows, errors + end, label, n);
    assert(title + totals + distribution + flows + (errors + end) =~= text);
    the_whole_shows_its_parts(title + totals + distribution + flows, errors, end, label, n);
    assert(title + totals + distribution + flows + errors + end =~= text);
}

/// The totals: the number behind "Flows: " is that of the flows, the one behind "Packets: "
/// that of the packets, the one behind "Bytes: " that of the bytes; the uptime and the rates
/// stand with their units.
pub proof fn totals_are_read_back(report: StatsReport, figures: ReportFigures, text: String)
    requires
        call_ensures(render_report, (&report, &figures), text),
    ensures
        shows(text@, "Flows: "@, report.flow_stats.total_flows as int),
        shows(text@, "Packets: "@, report.aggregate.total_packets as int),
        shows(text@, "Bytes: "@, report.aggregate.total_bytes as int),
        holds(text@, "Uptime: "@ + figures.uptime_secs@ + "s | "@),
        holds(text@, "Rate: "@ + figures.pps@ + " pps | "@ + figures.mbps@ + " Mbps"@),
{
    reveal_strlit("s | Flows: ");
    reveal_strlit("s | ");
    reveal_strlit("Flows: ");
    reveal_strlit(" | Packets: ");
    reveal_strlit(" | ");
    reveal_strlit("Packets: ");
    reveal_strlit(" | Bytes: ");
    reveal_strlit("Bytes: ");
    reveal_strlit("\n");
    reveal_strlit(" Mbps\n\n");
    reveal_strlit(" Mbps");
    reveal_strlit("\n\n");
    assert("s | Flows: "@ =~= "s | "@ + "Flows: "@);
    assert(" | Packets: "@ =~= " | "@ + "Packets: "@);
    assert(" | Bytes: "@ =~= " | "@ + "Bytes: "@);
    assert(" Mbps\n\n"@ =~= " Mbps"@ + "\n\n"@);
    totals_section(
        "Uptime: "@ + figures.uptime_secs@,
        report.flow_stats.total_flows,
        report.aggregate.total_packets,
        report.aggregate.total_bytes,
        "Rate: "@,
        figures.pps@,
        " pps | "@,
        figures.mbps@,
    );
    let up = "Uptime: "@ + figures.uptime_secs@ + "s | "@;
    let rate = "Rate: "@ + figures.pps@ + " pps | "@ + figures.mbps@ + " Mbps"@;
    sections_are_in_the_report(
        report,
        figures,
        "Flows: "@,
        report.flow_stats.total_flows as int,
    );
    sections_are_in_the_report(
        report,
        figures,
        "Packets: "@,
        report.aggregate.total_packets as int,
    );
    sections_are_in_the_report(report, figures, "Bytes: "@, report.aggregate.total_bytes as int);
    sections_are_in_the_report(report, figures, up, 0);
    sections_are_in_the_report(report, figures, rate, 0);
}

/// The pieces of the totals, put together, show the three numbers and hold the rest.
proof fn totals_section(
    up: Seq<char>,
    flows: u64,
    packets: u64,
    bytes: u64,
    rate: Seq<char>,
    pps: Seq<char>,
    between: Seq<char>,
    mbps: Seq<char>,
)
    requires
        " | Packets: "@.len() > 0 && !is_digit(" | Packets: "@[0]),
        " | Bytes: "@.len() > 0 && !is_digit(" | Bytes: "@[0]),
        "\n"@.len() > 0 && !is_digit("\n"@[0]),
        "s | Flows: "@ == "s | "@ + "Flows: "@,
        " | Packets: "@ == " | "@ + "Packets: "@,
        " | Bytes: "@ == " | "@ + "Bytes: "@,
        " Mbps\n\n"@ == " Mbps"@ + "\n\n"@,
    ensures
        ({
            let text = up + "s | Flows: "@ + number(flows) + " | Packets: "@ + number(packets)
                + " | Bytes: "@ + number(bytes) + "\n"@ + rate + pps + between + mbps
                + " Mbps\n\n"@;
            &&& shows(text, "Flows: "@, flows as int)
            &&& shows(text, "Packets: "@, packets as int)
            &&& shows(text, "Bytes: "@, bytes as int)
            &&& holds(text, up + "s | "@)
            &&& holds(text, rate + pps + between + mbps + " Mbps"@)
        }),
{
    let t1 = up + "s | Flows: "@ + number(flows);
    let t2 = t1 + " | Packets: "@ + number(packets);
    let t3 = t2 + " | Bytes: "@ + number(bytes);
    let t4 = t3 + "\n"@;
    let t5 = t4 + rate;
    let t6 = t5 + pps;
    let t7 = t6 + between;
    let t8 = t7 + mbps;
    let t = t8 + " Mbps\n\n"@;
    let line = rate + pps + between + mbps + " Mbps"@;
    labels_are_followed(up, "s | "@, "Flows: "@, flows, " | Packets: "@);
    labels_are_followed(t1, " | "@, "Packets: "@, packets, " | Bytes: "@);
    labels_are_followed(t2, " | "@, "Bytes: "@, bytes, "\n"@);
    more_changes_nothing(t1 + " | Packets: "@, number(packets), "Flows: "@, flows as int);
    more_changes_nothing(t2, " | Bytes: "@, "Flows: "@, flows as int);
    more_changes_nothing(t2 + " | Bytes: "@, number(bytes), "Flows: "@, flows as int);
    more_changes_nothing(t2 + " | Bytes: "@, number(bytes), "Packets: "@, packets as int);
    more_changes_nothing(t3, "\n"@, "Flows: "@, flows as int);
    more_changes_nothing(t3, "\n"@, "Packets: "@, packets as int);
    let rest = rate + pps + between + mbps + " Mbps\n\n"@;
    assert(t =~= t4 + rest);
    more_changes_nothing(t4, rest, "Flows: "@, flows as int);
    more_changes_nothing(t4, rest, "Packets: "@, packets as int);
    more_changes_nothing(t4, rest, "Bytes: "@, bytes as int);
    let lead = up + "s | "@;
    parts_are_held(Seq::empty(), lead, "Flows: "@);
    assert(Seq::<char>::empty() + lead + "Flows: "@ =~= up + "s | Flows: "@);
    more_changes_nothing(up + "s | Flows: "@, number(flows), lead, 0);
    more_changes_nothing(t1, " | Packets: "@, lead, 0);
    more_changes_nothing(t1 + " | Packets: "@, number(packets), lead, 0);
    more_changes_nothing(t2, " | Bytes: "@, lead, 0);
    more_changes_nothing(t2 + " | Bytes: "@, number(bytes), lead, 0);
    more_changes_nothing(t3, "\n"@, lead, 0);
    more_changes_nothing(t4, rest, lead, 0);
    parts_are_held(t4, line, "\n\n"@);
    assert(t4 + line + "\n\n"@ =~= t4 + rest);
}

/// A line of the distribution shows its count behind its label and its share.
proof fn shares_are_shown(label: Seq<char>, percent: Seq<char>, packets: u64)
    ensures
        shows(
            share_text(label, percent, packets),
            label + right_aligned(percent, 7) + "% ("@,
            packets as int,
        ),
{
    reveal_strlit(")\n");
    let lead = label + right_aligned(percent, 7) + "% ("@;
    counts_are_shown(Seq::empty(), lead, packets, ")\n"@);
    assert(Seq::<char>::empty() + lead =~= lead);
}

/// The protocol distribution: each protocol has a line with its label, its share in
/// percent, and behind it in brackets its own number of packets.
pub proof fn distributions_are_read_back(
    report: StatsReport,
    figures: ReportFigures,
    text: String,
)
    requires
        call_ensures(render_report, (&report, &figures), text),
    ensures
        shows(
            text@,
            "  TCP:  "@ + right_aligned(figures.tcp_percent@, 7) + "% ("@,
            report.aggregate.tcp_packets + 0,
        ),
        shows(
            text@,
            "  UDP:  "@ + right_aligned(figures.udp_percent@, 7) + "% ("@,
            report.aggregate.udp_packets + 0,
        ),
        shows(
            text@,
            "  ICMP: "@ + right_aligned(figures.icmp_percent@, 7) + "% ("@,
            report.aggregate.icmp_packets + 0,
        ),
        shows(
            text@,
            "  IPv6: "@ + right_aligned(figures.ipv6_percent@, 7) + "% ("@,
            report.aggregate.ipv6_packets + 0,
        ),
        shows(
            text@,
            "  ARP:  "@ + right_aligned(figures.arp_percent@, 7) + "% ("@,
            report.aggregate.arp_packets + 0,
        ),
{
    let stats = report.aggregate;
    let head = "Protocol Distribution:\n"@;
    let tcp = share_text("  TCP:  "@, figures.tcp_percent@, stats.tcp_packets);
    let udp = share_text("  UDP:  "@, figures.udp_percent@, stats.udp_packets);
    let echo = share_text("  ICMP: "@, figures.icmp_percent@, stats.icmp_packets);
    let v6 = share_text("  IPv6: "@, figures.ipv6_percent@, stats.ipv6_packets);
    let arp = share_text("  ARP:  "@, figures.arp_percent@, stats.arp_packets);
    let tcp_label = "  TCP:  "@ + right_aligned(figures.tcp_percent@, 7) + "% ("@;
    let udp_label = "  UDP:  "@ + right_aligned(figures.udp_percent@, 7) + "% ("@;
    let echo_label = "  ICMP: "@ + right_aligned(figures.icmp_percent@, 7) + "% ("@;
    let v6_label = "  IPv6: "@ + right_aligned(figures.ipv6_percent@, 7) + "% ("@;
    let arp_label = "  ARP:  "@ + right_aligned(figures.arp_percent@, 7) + "% ("@;
    shares_are_shown("  TCP:  "@, figures.tcp_percent@, stats.tcp_packets);
    shares_are_shown("  UDP:  "@, figures.udp_percent@, stats.udp_packets);
    shares_are_shown("  ICMP: "@, figures.icmp_percent@, stats.icmp_packets);
    shares_are_shown("  IPv6: "@, figures.ipv6_percent@, stats.ipv6_packets);
    shares_are_shown("  ARP:  "@, figures.arp_percent@, stats.arp_packets);
    lines_in_turn(head, tcp, udp, echo, v6, arp, "\n"@, tcp_label, stats.tcp_packets + 0);
    lines_in_turn(head, tcp, udp, echo, v6, arp, "\n"@, udp_label, stats.udp_packets + 0);
    lines_in_turn(head, tcp, udp, echo, v6, arp, "\n"@, echo_label, stats.icmp_packets + 0);
    lines_in_turn(head, tcp, udp, echo, v6, arp, "\n"@, v6_label, stats.ipv6_packets + 0);
    lines_in_turn(head, tcp, udp, echo, v6, arp, "\n"@, arp_label, stats.arp_packets + 0);
    sections_are_in_the_report(report, figures, tcp_label, stats.tcp_packets + 0);
    sections_are_in_the_report(report, figures, udp_label, stats.udp_packets + 0);
    sections_are_in_the_report(report, figures, echo_label, stats.icmp_packets + 0);
    sections_are_in_the_report(report, figures, v6_label, stats.ipv6_packets + 0);
    sections_are_in_the_report(report, figures, arp_label, stats.arp_packets + 0);
}

/// Lines that follow each other show what each of them shows.
proof fn lines_in_turn(
    head: Seq<char>,
    a: Seq<char>,
    b: Seq<char>,
    c: Seq<char>,
    d: Seq<char>,
    e: Seq<char>,
    end: Seq<char>,
    label: Seq<char>,
    n: int,
)
    ensures
        ({
            let text = head + a + b + c + d + e + end;
            &&& shows(a, label, n) ==> shows(text, label, n)
            &&& shows(b, label, n) ==> shows(text, label, n)
            &&& shows(c, label, n) ==> shows(text, label, n)
            &&& shows(d, label, n) ==> shows(text, label, n)
            &&& shows(e, label, n) ==> shows(text, label, n)
        }),
{
    let ta = head + a;
    let tb = ta + b;
    let tc = tb + c;
    let td = tc + d;
    let te = td + e;
    the_whole_shows_its_parts(head, a, Seq::empty(), label, n);
    assert(head + a + Seq::<char>::empty() =~= ta);
    the_whole_shows_its_parts(ta, b, Seq::empty(), label, n);
    assert(ta + b + Seq::<char>::empty() =~= tb);
    the_whole_shows_its_parts(tb, c, Seq::empty(), label, n);
    assert(tb + c + Seq::<char>::empty() =~= tc);
    the_whole_shows_its_parts(tc, d, Seq::empty(), label, n);
    assert(tc + d + Seq::<char>::empty() =~= td);
    the_whole_shows_its_parts(td, e, Seq::empty(), label, n);
    assert(td + e + Seq::<char>::empty() =~= te);
    more_changes_nothing(ta, b, label, n);
    more_changes_nothing(tb, c, label, n);
    more_changes_nothing(tc, d, label, n);
    more_changes_nothing(td, e, label, n);
    more_changes_nothing(te, end, label, n);
}

/// Where packets were dropped or could not be parsed, the report says how many of each.
pub proof fn errors_are_read_back(report: StatsReport, figures: ReportFigures, text: String)
    requires
        call_ensures(render_report, (&report, &figures), text),
        report.aggregate.dropped > 0 || report.aggregate.parse_errors > 0,
    ensures
        shows(text@, "Dropped:      "@, report.aggregate.dropped as int),
        shows(text@, "Parse errors: "@, report.aggregate.parse_errors as int),
{
    reveal_strlit("  Dropped:      ");
    reveal_strlit("  ");
    reveal_strlit("Dropped:      ");
    reveal_strlit("\n  Parse errors: ");
    reveal_strlit("\n  ");
    reveal_strlit("Parse errors: ");
    reveal_strlit("\n\n");
    assert("  Dropped:      "@ =~= "  "@ + "Dropped:      "@);
    assert("\n  Parse errors: "@ =~= "\n  "@ + "Parse errors: "@);
    let dropped = report.aggregate.dropped;
    let failed = report.aggregate.parse_errors;
    let head = "Errors:\n"@;
    labels_are_followed(head, "  "@, "Dropped:      "@, dropped, "\n  Parse errors: "@);
    let first = head + "  Dropped:      "@ + number(dropped);
    more_changes_nothing(
        first + "\n  Parse errors: "@,
        number(failed),
        "Dropped:      "@,
        dropped as int,
    );
    more_changes_nothing(
        first + "\n  Parse errors: "@ + number(failed),
        "\n\n"@,
        "Dropped:      "@,
        dropped as int,
    );
    labels_are_followed(first, "\n  "@, "Parse errors: "@, failed, "\n\n"@);
    sections_are_in_the_report(report, figures, "Dropped:      "@, dropped as int);
    sections_are_in_the_report(report, figures, "Parse errors: "@, failed as int);
}

/// Without dropped packets and parse errors, a report says nothing of them: it ends with
/// the table of flows and a rule.
pub proof fn reports_without_errors_end_with_the_flows(
    report: StatsReport,
    figures: ReportFigures,
    text: String,
)
    requires
        call_ensures(render_report, (&report, &figures), text),
        report.aggregate.dropped == 0 && report.aggregate.parse_errors == 0,
        report.top_flows@.len() == 0,
    ensures
        text@.len() == title_text().len() + totals_text(report, figures).len()
            + distribution_text(report.aggregate, figures).len() + 61,
{
    reveal_strlit("\n");
}

/// The row of a flow: its rank, its two ends, its bytes and its packets, each in its column.
pub open spec fn row_of(rank: nat, flow: (FlowKey, FlowState)) -> Seq<char> {
    left_aligned(decimal(rank), 8) + " "@ + left_aligned(
        ip_text(flow.0.src_ip) + ":"@ + decimal(flow.0.src_port as nat) + " → "@ + ip_text(
            flow.0.dst_ip,
        ) + ":"@ + decimal(flow.0.dst_port as nat),
        44,
    ) + " "@ + right_aligned(decimal(flow.1.byte_count as nat), 12) + " "@ + right_aligned(
        decimal(flow.1.packet_count as nat),
        10,
    ) + "\n"@
}

proof fn rows_are_held(flows: Seq<(FlowKey, FlowState)>, n: int, i: int)
    requires
        0 <= i < n <= flows.len(),
    ensures
        holds(rows_text(flows, n), row_of((i + 1) as nat, flows[i])),
        i + 1 < n ==> holds(
            rows_text(flows, n),
            row_of((i + 1) as nat, flows[i]) + row_of((i + 2) as nat, flows[i + 1]),
        ),
    decreases n,
{
    let row = row_of(n as nat, flows[n - 1]);
    let rest = rows_text(flows, n - 1);
    assert(rows_text(flows, n) == rest + row);
    if i == n - 1 {
        parts_are_held(rest, row, Seq::empty());
        assert(rest + row + Seq::<char>::empty() =~= rest + row);
    } else {
        rows_are_held(flows, n - 1, i);
        more_changes_nothing(rest, row, row_of((i + 1) as nat, flows[i]), 0);
        let pair = row_of((i + 1) as nat, flows[i]) + row_of((i + 2) as nat, flows[i + 1]);
        more_changes_nothing(rest, row, pair, 0);
        if i == n - 2 {
            let before = rows_text(flows, n - 2);
            let last = row_of((n - 1) as nat, flows[n - 2]);
            assert(rest == before + last);
            parts_are_held(before, last + row, Seq::empty());
            assert(before + (last + row) + Seq::<char>::empty() =~= before + last + row);
        }
    }
}

/// Each of the first ten flows of a report has its row, numbered from 1, with its own ends,
/// bytes and packets; the rows follow each other in the order of the flows.
pub proof fn flows_are_read_back(
    report: StatsReport,
    figures: ReportFigures,
    text: String,
    i: int,
)
    requires
        call_ensures(render_report, (&report, &figures), text),
        0 <= i < report.top_flows@.len(),
        i < 10,
    ensures
        holds(text@, row_of((i + 1) as nat, report.top_flows@[i])),
        i + 1 < report.top_flows@.len() && i + 1 < 10 ==> holds(
            text@,
            row_of((i + 1) as nat, report.top_flows@[i]) + row_of(
                (i + 2) as nat,
                report.top_flows@[i + 1],
            ),
        ),
        holds(
            text@,
            left_aligned("#"@, 8) + " "@ + left_aligned("Flow"@, 44) + " "@ + right_aligned(
                "Bytes"@,
                12,
            ) + " "@ + right_aligned("Packets"@, 10) + "\n"@,
        ),
{
    let flows = report.top_flows@;
    let n = if flows.len() < 10 {
        flows.len() as int
    } else {
        10
    };
    rows_are_held(flows, n, i);
    let names = row_text("#"@, "Flow"@, "Bytes"@, "Packets"@);
    let title = "Top 10 Flows by Bytes:\n"@;
    let head = title + names + repeated('-', 80) + "\n"@;
    let row = row_of((i + 1) as nat, flows[i]);
    let pair = row + row_of((i + 2) as nat, flows[i + 1]);
    the_whole_shows_its_parts(head, rows_text(flows, n), "\n"@, row, 0);
    the_whole_shows_its_parts(head, rows_text(flows, n), "\n"@, pair, 0);
    parts_are_held(title, names, repeated('-', 80));
    more_changes_nothing(title + names + repeated('-', 80), "\n"@, names, 0);
    more_changes_nothing(head, rows_text(flows, n), names, 0);
    more_changes_nothing(head + rows_text(flows, n), "\n"@, names, 0);
    sections_are_in_the_report(report, figures, row, 0);
    sections_are_in_the_report(report, figures, pair, 0);
    sections_are_in_the_report(report, figures, names, 0);
}

/// A report starts with its title between two rules of 60 characters.
pub proof fn reports_start_with_the_title(
    report: StatsReport,
    figures: ReportFigures,
    text: String,
)
    requires
        call_ensures(render_report, (&report, &figures), text),
    ensures
        holds(text@, "Zero-Copy Network Analyzer - Statistics Report\n"@),
        text@[0] == '\n',
        forall|i: int| 1 <= i < 61 ==> #[trigger] text@[i] == '=',
        forall|i: int|
            text@.len() - 61 <= i < text@.len() - 1 ==> #[trigger] text@[i] == '=',
{
    reveal_strlit("\n");
    let name = "Zero-Copy Network Analyzer - Statistics Report\n"@;
    let lead = "\n"@ + repeated('=', 60) + "\n"@;
    parts_are_held(lead, name, repeated('=', 60));
    more_changes_nothing(lead + name + repeated('=', 60), "\n\n"@, name, 0);
    let rest = totals_text(report, figures) + distribution_text(report.aggregate, figures)
        + flows_text(report.top_flows@) + errors_text(report.aggregate) + repeated('=', 60)
        + "\n"@;
    more_changes_nothing(title_text(), rest, name, 0);
    assert(text@ =~= title_text() + rest);
    let title = title_text();
    assert(title[0] == '\n');
    assert forall|i: int| 1 <= i < 61 implies #[trigger] text@[i] == '=' by {
        assert(text@[i] == title[i]);
        assert(title[i] == repeated('=', 60)[i - 1]);
    }
}

/// A report shows ten flows at most: with more, it is the report of the first ten.
pub proof fn reports_show_ten_flows(
    report: StatsReport,
    shorter: StatsReport,
    figures: ReportFigures,
    text: String,
    shorter_text: String,
)
    requires
        report.top_flows@.len() > 10,
        shorter.top_flows@ == report.top_flows@.take(10),
        shorter.aggregate == report.aggregate,
        shorter.flow_stats == report.flow_stats,
        call_ensures(render_report, (&report, &figures), text),
        call_ensures(render_report, (&shorter, &figures), shorter_text),
    ensures
        text@ == shorter_text@,
{
    rows_of_the_first(report.top_flows@, 10, 10);
}

proof fn rows_of_the_first(flows: Seq<(FlowKey, FlowState)>, n: int, k: int)
    requires
        k <= n <= flows.len(),
    ensures
        rows_text(flows, k) == rows_text(flows.take(n), k),
    decreases k,
{
    if k > 0 {
        rows_of_the_first(flows, n, k - 1);
    }
}

} // verus!
