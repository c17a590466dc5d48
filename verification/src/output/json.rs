//! The machine-readable records.

use crate::output::console::{is_minimal_report, minimal_report};
use crate::output::{
    is_record_of, report_is_due, OutputBackend, OutputResult, PacketRecord, ReportTimer,
};
use crate::parser::packet::PacketModel;
use crate::parser::ParsedPacket;
use crate::stats::{AggregateStats, StatsReport};
use vstd::prelude::*;

verus! {

/// The JSON backend. It collects the records that `writer` is to take, and leaves writing
/// them to its owner.
pub struct JsonOutput<W> {
    /// Where the records go
    pub writer: W,
    /// When the next report is due
    pub timer: ReportTimer,
    /// Whether every packet gets a record
    pub emit_packets: bool,
    /// The records of packets that are still to be written
    pub records: Vec<PacketRecord>,
    /// The report that is still to be written
    pub waiting: Option<StatsReport>,
    /// The packets emitted so far
    pub log: Ghost<Seq<PacketModel>>,
}

/// `output` once it has made a report at `now_ns`.
pub open spec fn reported_at<W>(output: JsonOutput<W>, now_ns: u64) -> JsonOutput<W> {
    JsonOutput {
        timer: ReportTimer { last_report_ns: Some(now_ns), ..output.timer },
        ..output
    }
}

impl<W> JsonOutput<W> {
    /// An output that reports every second and gives packets no records.
    pub fn new(writer: W) -> (output: JsonOutput<W>)
        ensures
            output.writer == writer,
            output.timer.last_report_ns is None,
            output.timer.interval_secs == 1,
            !output.emit_packets,
            output.records@ == Seq::<PacketRecord>::empty(),
            output.waiting is None,
            output.log@ == Seq::<PacketModel>::empty(),
    {
        JsonOutput {
            writer,
            timer: ReportTimer::new(1),
            emit_packets: false,
            records: Vec::new(),
            waiting: None,
            log: Ghost(Seq::empty()),
        }
    }

    /// Sets the seconds between two reports.
    pub fn with_report_interval(self, secs: u64) -> (output: JsonOutput<W>)
        ensures
            output == (JsonOutput {
                timer: ReportTimer { interval_secs: secs, ..self.timer },
                ..self
            }),
    {
        let mut output = self;
        output.timer.interval_secs = secs;
        output
    }

    /// Sets whether every packet gets a record.
    pub fn with_packets(self, emit: bool) -> (output: JsonOutput<W>)
        ensures
            output == (JsonOutput { emit_packets: emit, ..self }),
    {
        let mut output = self;
        output.emit_packets = emit;
        output
    }

    /// Takes the records that are still to be written.
    pub fn take_records(&mut self) -> (records: Vec<PacketRecord>)
        ensures
            records == old(self).records,
            final(self).records@ == Seq::<PacketRecord>::empty(),
            *final(self) == (JsonOutput { records: final(self).records, ..*old(self) }),
    {
        let mut records: Vec<PacketRecord> = Vec::new();
        std::mem::swap(&mut records, &mut self.records);
        records
    }

    /// Takes the report that is to be written now, if one waits and is due.
    pub fn take_report(&mut self) -> (report: Option<StatsReport>)
        ensures
            match report {
                Some(report) => {
                    &&& old(self).waiting == Some(report)
                    &&& exists|now_ns: u64|
                        {
                            &&& #[trigger] report_is_due(
                                old(self).timer.last_report_ns,
                                old(self).timer.interval_secs,
                                now_ns,
                            )
                            &&& *final(self) == reported_at(
                                JsonOutput { waiting: None, ..*old(self) },
                                now_ns,
                            )
                        }
                },
                None => {
                    &&& *final(self) == (JsonOutput { waiting: None, ..*old(self) })
                    &&& old(self).waiting is Some ==> old(self).timer.last_report_ns is Some
                        && old(self).timer.interval_secs > 0
                },
            },
    {
        match self.waiting.take() {
            Some(report) => {
                if self.timer.is_due() {
                    Some(report)
                } else {
                    None
                }
            },
            None => None,
        }
    }

    /// Takes the report that is to be written at `now_ns` nanoseconds since the output was
    /// made, if one waits and is due. One that is not due is dropped.
    pub fn take_report_at(&mut self, now_ns: u64) -> (report: Option<StatsReport>)
        ensures
            ({
                let due = old(self).waiting is Some && report_is_due(
                    old(self).timer.last_report_ns,
                    old(self).timer.interval_secs,
                    now_ns,
                );
                let taken = JsonOutput { waiting: None, ..*old(self) };
                &&& report == if due {
                    old(self).waiting
                } else {
                    None
                }
                &&& *final(self) == if due {
                    reported_at(taken, now_ns)
                } else {
                    taken
                }
            }),
    {
        match self.waiting.take() {
            Some(report) => {
                if self.timer.is_due_at(now_ns) {
                    Some(report)
                } else {
                    None
                }
            },
            None => None,
        }
    }
}

impl<W: Send + Sync> OutputBackend for JsonOutput<W> {
    open spec fn emitted(&self) -> Seq<PacketModel> {
        self.log@
    }

    /// Collects the record of a packet, where packets get one.
    fn emit(&mut self, packet: &ParsedPacket<'_>)
        ensures
            *final(self) == (JsonOutput {
                records: final(self).records,
                log: final(self).log,
                ..*old(self)
            }),
            if old(self).emit_packets {
                &&& final(self).records@.len() == old(self).records@.len() + 1
                &&& final(self).records@.drop_last() == old(self).records@
                &&& is_record_of(
                    final(self).records@.last(),
                    packet@,
                    final(self).records@.last().timestamp_ns,
                )
            } else {
                final(self).records@ == old(self).records@
            },
    {
        if self.emit_packets {
            self.records.push(PacketRecord::from(packet));
            assert(self.records@.drop_last() =~= old(self).records@);
        }
        self.log = Ghost(self.log@.push(packet@));
    }

    /// Has a report of `stats` wait to be written.
    fn report_stats(&mut self, stats: &AggregateStats) -> (result: OutputResult<()>)
        ensures
            result is Ok,
            final(self).waiting matches Some(report) && is_minimal_report(report, *stats),
            *final(self) == (JsonOutput { waiting: final(self).waiting, ..*old(self) }),
    {
        self.waiting = Some(minimal_report(stats));
        Ok(())
    }

    /// Does nothing: the owner of the writer flushes it.
    fn flush(&mut self) -> (result: OutputResult<()>)
        ensures
            result is Ok,
            *final(self) == *old(self),
    {
        Ok(())
    }

    fn name(&self) -> (name: &str)
        ensures
            name@ == "json"@,
    {
        "json"
    }
}

} // verus!
