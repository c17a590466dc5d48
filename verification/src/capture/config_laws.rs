//! What a configuration is made of, and which ones are accepted.

use crate::capture::{check_not_running, CaptureConfig, CaptureConfigBuilder, CaptureError};
use crate::cli::{BackendKind, Cli, EngineKind};
use vstd::arithmetic::power2::is_pow2;
use vstd::prelude::*;

verus! {

/// `value`, or `default` where it is 0.
pub open spec fn unless_zero(value: int, default: int) -> int {
    if value == 0 {
        default
    } else {
        value
    }
}

/// A configuration is what the arguments say: each value is that of its own argument, with
/// the documented defaults for sizes of 0.
pub proof fn arguments_reach_the_configuration(cli: Cli, config: CaptureConfig)
    requires
        call_ensures(Cli::capture_config, (&cli,), config),
    ensures
        config.interface@ == cli.interface@,
        config.queue_id == cli.queue_id,
        config.umem_size == unless_zero(cli.umem_size as int, 67_108_864),
        config.frame_size == unless_zero(cli.frame_size as int, 2048),
        config.fill_ring_size == unless_zero(cli.fill_ring_size as int, 4096),
        config.completion_ring_size == config.fill_ring_size,
        config.cpu_core == cli.cpu_core,
        config.use_tpacket == cli.use_tpacket,
        config.num_blocks == 64,
        config.block_size == 4 * 1024 * 1024,
{
}

/// What is set in a builder is what is built, and nothing else is touched.
pub proof fn builders_keep_what_is_set(
    builder: CaptureConfigBuilder,
    number: usize,
    small: u32,
    id: u16,
    flag: bool,
    name: &str,
    set: CaptureConfigBuilder,
)
    ensures
        call_ensures(CaptureConfigBuilder::interface, (builder, name), set) ==> set.interface@
            == name@ && set.queue_id == builder.queue_id && set.umem_size == builder.umem_size
            && set.frame_size == builder.frame_size && set.fill_ring_size == builder.fill_ring_size
            && set.cpu_core == builder.cpu_core && set.use_tpacket == builder.use_tpacket,
        call_ensures(CaptureConfigBuilder::queue_id, (builder, id), set) ==> set.queue_id == id
            && set.interface == builder.interface && set.umem_size == builder.umem_size
            && set.frame_size == builder.frame_size && set.fill_ring_size == builder.fill_ring_size
            && set.cpu_core == builder.cpu_core && set.use_tpacket == builder.use_tpacket,
        call_ensures(CaptureConfigBuilder::umem_size, (builder, number), set) ==> set.umem_size
            == number && set.interface == builder.interface && set.queue_id == builder.queue_id
            && set.frame_size == builder.frame_size && set.fill_ring_size == builder.fill_ring_size
            && set.cpu_core == builder.cpu_core && set.use_tpacket == builder.use_tpacket,
        call_ensures(CaptureConfigBuilder::frame_size, (builder, number), set) ==> set.frame_size
            == number && set.interface == builder.interface && set.queue_id == builder.queue_id
            && set.umem_size == builder.umem_size && set.fill_ring_size == builder.fill_ring_size
            && set.cpu_core == builder.cpu_core && set.use_tpacket == builder.use_tpacket,
        call_ensures(CaptureConfigBuilder::fill_ring_size, (builder, small), set)
            ==> set.fill_ring_size == small && set.interface == builder.interface && set.queue_id
            == builder.queue_id && set.umem_size == builder.umem_size && set.frame_size
            == builder.frame_size && set.cpu_core == builder.cpu_core && set.use_tpacket
            == builder.use_tpacket,
        call_ensures(CaptureConfigBuilder::cpu_core, (builder, number), set) ==> set.cpu_core
            == number && set.interface == builder.interface && set.queue_id == builder.queue_id
            && set.umem_size == builder.umem_size && set.frame_size == builder.frame_size
            && set.fill_ring_size == builder.fill_ring_size && set.use_tpacket
            == builder.use_tpacket,
        call_ensures(CaptureConfigBuilder::use_tpacket, (builder, flag), set) ==> set.use_tpacket
            == flag && set.interface == builder.interface && set.queue_id == builder.queue_id
            && set.umem_size == builder.umem_size && set.frame_size == builder.frame_size
            && set.fill_ring_size == builder.fill_ring_size && set.cpu_core == builder.cpu_core,
{
}

/// A built configuration repeats what was set, with the defaults for what was not.
pub proof fn built_configurations_repeat_the_builder(
    builder: CaptureConfigBuilder,
    config: CaptureConfig,
)
    requires
        call_ensures(CaptureConfigBuilder::build, (builder,), config),
    ensures
        config.interface@ == builder.interface@,
        config.queue_id == builder.queue_id,
        config.umem_size == unless_zero(builder.umem_size as int, 67_108_864),
        config.frame_size == unless_zero(builder.frame_size as int, 2048),
        config.fill_ring_size == unless_zero(builder.fill_ring_size as int, 4096),
        config.completion_ring_size == config.fill_ring_size,
        config.cpu_core == builder.cpu_core,
        config.use_tpacket == builder.use_tpacket,
        config.num_blocks == 64,
        config.block_size == 4 * 1024 * 1024,
{
}

/// A configuration is accepted exactly where it names an interface, its memory is a power of
/// two of 1 MB or more, its frames have 64 to 65536 bytes, and its fill ring is a power of
/// two; else the error says what is wrong.
pub proof fn configurations_are_checked(config: CaptureConfig, valid: Result<(), CaptureError>)
    requires
        call_ensures(CaptureConfig::validate, (&config,), valid),
    ensures
        valid is Ok <==> config.interface@.len() > 0 && is_pow2(config.umem_size as int)
            && config.umem_size >= 1024 * 1024 && 64 <= config.frame_size <= 65536 && is_pow2(
            config.fill_ring_size as int,
        ),
        valid matches Err(error) ==> (error matches CaptureError::InvalidConfig(text) && {
            &&& text@ == "Interface name cannot be empty"@ || text@
                == "UMEM size must be a power of 2"@ || text@ == "UMEM size must be at least 1 MB"@
                || text@ == "Frame size must be between 64 and 65536 bytes"@ || text@
                == "Fill ring size must be a power of 2"@
            &&& config.interface@.len() == 0 ==> text@ == "Interface name cannot be empty"@
            &&& config.interface@.len() > 0 && !is_pow2(config.umem_size as int) ==> text@
                == "UMEM size must be a power of 2"@
            &&& config.interface@.len() > 0 && is_pow2(config.umem_size as int) && config.umem_size
                < 1024 * 1024 ==> text@ == "UMEM size must be at least 1 MB"@
            &&& config.interface@.len() > 0 && is_pow2(config.umem_size as int) && config.umem_size
                >= 1024 * 1024 && !(64 <= config.frame_size <= 65536) ==> text@
                == "Frame size must be between 64 and 65536 bytes"@
            &&& config.interface@.len() > 0 && is_pow2(config.umem_size as int) && config.umem_size
                >= 1024 * 1024 && 64 <= config.frame_size <= 65536 ==> text@
                == "Fill ring size must be a power of 2"@
        }),
{
}

/// The memory of a configuration holds its frames and less than one more.
pub proof fn frames_fill_the_memory(
    config: CaptureConfig,
    frames: usize,
    chunk: usize,
    blocks: u32,
)
    requires
        config.frame_size > 0,
        call_ensures(CaptureConfig::num_frames, (&config,), frames),
        call_ensures(CaptureConfig::chunk_size, (&config,), chunk),
        call_ensures(CaptureConfig::num_blocks, (&config,), blocks),
    ensures
        0 <= config.umem_size - config.frame_size * frames < config.frame_size,
        chunk == config.frame_size,
        blocks == config.num_blocks,
{
    vstd::arithmetic::div_mod::lemma_fundamental_div_mod(
        config.umem_size as int,
        config.frame_size as int,
    );
    vstd::arithmetic::div_mod::lemma_mod_bound(
        config.umem_size as int,
        config.frame_size as int,
    );
}

/// The arguments select the backends: TPACKET where it is asked for and else AF_XDP; JSON and
/// Prometheus by their names and else the console; debug messages where asked for.
pub proof fn arguments_select_the_backends(
    cli: Cli,
    engine: EngineKind,
    backend: BackendKind,
    level: &'static str,
)
    requires
        call_ensures(Cli::engine, (&cli,), engine),
        call_ensures(Cli::backend, (&cli,), backend),
        call_ensures(Cli::log_level, (&cli,), level),
    ensures
        engine == EngineKind::Tpacket <==> cli.use_tpacket,
        backend == BackendKind::Json <==> cli.output_format@ == "json"@,
        backend == BackendKind::Prometheus <==> cli.output_format@ == "prometheus"@,
        level@ == "debug"@ <==> cli.verbose,
        level@ == "info"@ <==> !cli.verbose,
{
    reveal_strlit("json");
    reveal_strlit("prometheus");
    reveal_strlit("debug");
    reveal_strlit("info");
    assert("json"@.len() != "prometheus"@.len());
    assert("debug"@.len() != "info"@.len());
}

/// An engine that runs is not started again.
pub proof fn engines_start_once(running: bool, result: Result<(), CaptureError>)
    requires
        call_ensures(check_not_running, (running,), result),
    ensures
        result is Ok <==> !running,
        result matches Err(error) ==> (error matches CaptureError::InvalidConfig(text) && text@
            == "Engine already running"@),
{
}

} // verus!
