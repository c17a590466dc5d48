//! Zero-copy network packet analysis: frame parsing, flow tracking, timers,
//! per-CPU statistics, capture rings and report rendering.

pub mod bytes;
pub mod capture;
pub mod cli;
mod clock;
pub mod flow;
pub mod output;
pub mod parser;
pub mod shutdown;
pub mod stats;
pub mod stats_laws;
pub mod text;
pub mod text_laws;
pub mod umem;
pub mod umem_laws;
