# zero_copy_analyzer

A network packet analyzer: it dissects Ethernet frames in place, tracks flows, counts
packets per CPU, and reports what it saw. The library under `src/` is written in Verus:
its functions carry contracts that Verus proves, but for the calls named under "What is
trusted" and for the stop flag in `shutdown`, of which nothing is claimed. The program
around it, under `app/`, is ordinary Rust: command line, sockets, mapped memory, threads,
HTTP.

## The library

| Module | What it holds |
|--------|---------------|
| `parser` | Ethernet, VLAN, IPv4, IPv6 with extension headers, TCP with options, UDP, ICMP; flow keys; the packet parser |
| `flow` | Flow state, the bounded flow table, ranking, the hierarchical timing wheel |
| `stats` | Per-CPU counters, aggregation, reports |
| `umem` | Packet memory in frames |
| `capture` | Configuration, the AF_XDP rings, the TPACKET_V3 blocks |
| `output` | Console report, packet records, Prometheus metrics, report spacing |
| `cli`, `shutdown` | What the command line selects; the stop flag |
| `text`, `bytes` | Numbers and addresses as text; numbers inside buffers |

Each data structure has a mathematical model (`PacketModel`, `FlowTableModel`,
`WheelModel`, `CollectorModel`, `UMemModel`, ...) that its contracts speak of. Laws that
span several operations are public proof functions: that headers lie within a packet and
a VLAN tag changes nothing behind it (`parser::packet_laws`), that no timer is lost and
each one expires at its own tick, never before its delay (`flow::timer_laws`), that a
full flow table opens no flow (`flow::table`), that a frame of packet memory gives back
what was written to it (`umem`), that every packet counts once (`stats`), that a
batch of descriptors whose frames all parse is followed by the ones behind it
(`capture::af_xdp`).

## What is trusted

The contracts of calls into other crates are believed, not proved. They stand beside the
calls: `dashmap` and `ahash` hold the flows, `xxhash-rust` hashes flow keys, `smallvec`
holds the timers of a slot, `num_cpus` counts CPUs, `prometheus` keeps and renders the
metrics; the clocks, the machine's byte order and the wording of system errors are those
of the standard library, and nothing is claimed of what they show.

## Numbers that are fractions

Rates and percentages are floating point and are computed in `app/`, which hands them to
the library as text or rounded numbers. The load factor of a flow table is given in
percent; a table is full when it holds as many flows as its capacity.
