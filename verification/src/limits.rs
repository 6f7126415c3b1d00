//! Resource limits of script runs.

use vstd::prelude::*;

use crate::configs::{config_entries, integer_or};
use crate::entries::lookup;
use crate::host::truncated;
use crate::value::Data;

verus! {

/// The limits that a script runs under.
#[derive(Debug, Clone, Copy)]
pub struct Limits {
    /// Memory, in bytes.
    pub memory_limit_bytes: usize,
    /// Wall-clock time of each stretch between host calls, in milliseconds.
    pub time_limit_ms: u64,
    /// Depth of the call stack.
    pub max_stack_depth: usize,
    /// Number of pushes on the interpreter's stack.
    pub max_allocations: usize,
}

/// The limits of `zapcode_core::ResourceLimits::default`. The contract claims
/// the four numbers.
#[verifier::external_body]
pub(crate) fn default_limits() -> (r: Limits)
    ensures
        r.memory_limit_bytes == 32 * 1024 * 1024,
        r.time_limit_ms == 5000,
        r.max_stack_depth == 512,
        r.max_allocations == 100_000,
{
    let limits = zapcode_core::ResourceLimits::default();
    Limits {
        memory_limit_bytes: limits.memory_limit_bytes,
        time_limit_ms: limits.time_limit_ms,
        max_stack_depth: limits.max_stack_depth,
        max_allocations: limits.max_allocations,
    }
}

/// The number, or one if it is smaller.
pub open spec fn at_least_one(n: i64) -> i64 {
    if n < 1 {
        1
    } else {
        n
    }
}

/// The configured time limit in milliseconds.
pub open spec fn time_limit(es: Seq<(Seq<char>, Data)>) -> i64 {
    at_least_one(integer_or(es, "time_limit_ms"@, 5000))
}

/// The configured memory limit in megabytes.
pub open spec fn memory_limit(es: Seq<(Seq<char>, Data)>) -> usize {
    at_least_one(integer_or(es, "memory_limit_mb"@, 32)) as usize
}

/// Whether the configured memory limit is a number of bytes that fits.
pub open spec fn memory_fits(es: Seq<(Seq<char>, Data)>) -> bool {
    memory_limit(es) * 1024 * 1024 <= usize::MAX
}

/// The limits that a configuration asks for. The number of pushes is not
/// limited: it is a proxy for the instruction rate that would stop ordinary
/// loops, so time and memory are the effective budgets.
pub open spec fn configured(es: Seq<(Seq<char>, Data)>, limits: Limits) -> bool {
    &&& limits.time_limit_ms == time_limit(es)
    &&& limits.memory_limit_bytes == memory_limit(es) * 1024 * 1024
    &&& limits.max_stack_depth == 512
    &&& limits.max_allocations == usize::MAX
}

fn raised_to_one(n: i64) -> (r: i64)
    ensures
        r == at_least_one(n),
{
    if n < 1 {
        1
    } else {
        n
    }
}

/// The limits that a configuration asks for.
pub fn limits_from_configs(config: &modular_agent_core::ModuleConfigs) -> (r: Limits)
    requires
        memory_fits(config_entries(*config)),
    ensures
        configured(config_entries(*config), r),
{
    let time: i64 = raised_to_one(config.get_integer_or("time_limit_ms", 5000));
    let memory: usize = raised_to_one(config.get_integer_or("memory_limit_mb", 32)) as usize;
    let defaults = default_limits();
    Limits {
        time_limit_ms: time as u64,
        memory_limit_bytes: memory * 1024 * 1024,
        max_stack_depth: defaults.max_stack_depth,
        max_allocations: usize::MAX,
    }
}

/// The limits that a configuration asks for, unless the memory limit is a
/// number of bytes that does not fit.
pub fn checked_limits(config: &modular_agent_core::ModuleConfigs) -> (r: Option<Limits>)
    ensures
        match r {
            Some(limits) => memory_fits(config_entries(*config)) && configured(
                config_entries(*config),
                limits,
            ),
            None => !memory_fits(config_entries(*config)),
        },
{
    let memory: usize = raised_to_one(config.get_integer_or("memory_limit_mb", 32)) as usize;
    if memory <= usize::MAX / 1024 / 1024 {
        Some(limits_from_configs(config))
    } else {
        None
    }
}

/// The limits that a configuration asks for, with the memory limit taken
/// modulo the range of the numbers of bytes.
pub fn wrapping_limits(config: &modular_agent_core::ModuleConfigs) -> (r: Limits)
    ensures
        r.time_limit_ms == time_limit(config_entries(*config)),
        r.memory_limit_bytes == (memory_limit(config_entries(*config)) * 1024 * 1024) % (usize::MAX
            + 1),
        r.max_stack_depth == 512,
        r.max_allocations == usize::MAX,
{
    let time: i64 = raised_to_one(config.get_integer_or("time_limit_ms", 5000));
    let memory: usize = raised_to_one(config.get_integer_or("memory_limit_mb", 32)) as usize;
    let defaults = default_limits();
    Limits {
        time_limit_ms: time as u64,
        memory_limit_bytes: memory.wrapping_mul(1024 * 1024),
        max_stack_depth: defaults.max_stack_depth,
        max_allocations: usize::MAX,
    }
}

/// Configured limits leave a script some time.
pub proof fn configured_time_is_positive(es: Seq<(Seq<char>, Data)>, limits: Limits)
    requires
        configured(es, limits),
    ensures
        limits.time_limit_ms >= 1,
{
}

/// A script may run for the configured number of milliseconds and take the
/// configured number of megabytes, at least one of each; five seconds and 32
/// megabytes where nothing is configured. The depth of the stack is the
/// default one, and the number of pushes is not limited.
pub proof fn limits_are_as_configured(es: Seq<(Seq<char>, Data)>, limits: Limits)
    requires
        configured(es, limits),
    ensures
        ({
            let number = |key: Seq<char>, default: i64|
                match lookup(es, key) {
                    Some(Data::Integer(i)) => i,
                    Some(Data::Number(bits)) => truncated(bits),
                    _ => default,
                };
            let time = number("time_limit_ms"@, 5000);
            let memory = number("memory_limit_mb"@, 32);
            &&& time >= 1 ==> limits.time_limit_ms == time
            &&& time < 1 ==> limits.time_limit_ms == 1
            &&& memory >= 1 ==> limits.memory_limit_bytes == (memory as usize) * 0x10_0000
            &&& memory < 1 ==> limits.memory_limit_bytes == 0x10_0000
            &&& limits.max_stack_depth == 512
            &&& limits.max_allocations == usize::MAX
        }),
{
}

/// Up to the largest number of megabytes whose bytes can be counted, a memory
/// limit fits, and so does any smaller one.
pub proof fn small_limits_fit(a: Seq<(Seq<char>, Data)>, b: Seq<(Seq<char>, Data)>)
    ensures
        memory_fits(a) <==> memory_limit(a) <= usize::MAX as int / 0x10_0000,
        memory_fits(a) && memory_limit(b) <= memory_limit(a) ==> memory_fits(b),
        lookup(a, "memory_limit_mb"@) is None ==> memory_fits(a),
{
}

/// Where the configured memory limit fits, the limits are the configured ones,
/// and where it does not there are none.
pub proof fn configured_limits_are_found(
    config: &modular_agent_core::ModuleConfigs,
    r: Option<Limits>,
    wrapped: Limits,
)
    requires
        call_ensures(checked_limits, (config,), r),
        call_ensures(wrapping_limits, (config,), wrapped),
    ensures
        r is Some <==> memory_fits(config_entries(*config)),
        r matches Some(limits) ==> configured(config_entries(*config), limits) && limits == wrapped,
{
    let bytes = memory_limit(config_entries(*config)) * 1024 * 1024;
    let range = usize::MAX + 1;
    if r is Some {
        assert(bytes % range == bytes) by (nonlinear_arith)
            requires
                0 <= bytes < range,
        ;
    }
}

} // verus!
