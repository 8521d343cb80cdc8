//! Point-in-time sampling of host resource usage: a named-counter set,
//! rebuilt in full on every collection call.

use vstd::prelude::*;
use vstd::string::*;

use crate::decimal::{spec_decimal_digits, u64_to_string};

verus! {

pub struct AppCpuUsage {
    pub user: i32,
    pub system: i32,
}

pub struct CpuUsage {
    pub model: String,
    pub speed: i32,
    pub times: CpuTime,
}

pub struct CpuTime {
    pub user: i32,
    pub nice: i32,
    pub sys: i32,
    pub idle: i32,
    pub irq: i32,
}

/// The fixed counter vocabulary of the live-metrics wire protocol.
#[derive(Clone, Copy, Debug, PartialEq, Eq, Hash, Structural)]
pub enum QuickPulseMetricNames {
    TotalProcessorTime,
    RequestsPerSecond,
    FailedRequestsPerSecond,
    DependencyCallsPerSecond,
    FailedDependencyCallsPerSecond,
    ExceptionsPerSecond,
    MemoryCommittedBytes,
}

/// The backslash-delimited counter path each counter goes out under. These
/// exact strings are part of the wire contract.
pub open spec fn spec_metric_name(n: QuickPulseMetricNames) -> Seq<char> {
    match n {
        QuickPulseMetricNames::TotalProcessorTime => r"\Processor(_Total)\% Processor Time"@,
        QuickPulseMetricNames::RequestsPerSecond => r"\ApplicationInsights\Requests/Sec"@,
        QuickPulseMetricNames::FailedRequestsPerSecond => r"\ApplicationInsights\Requests Failed/Sec"@,
        QuickPulseMetricNames::DependencyCallsPerSecond => r"\ApplicationInsights\Dependency Calls/Sec"@,
        QuickPulseMetricNames::FailedDependencyCallsPerSecond => r"\ApplicationInsights\Dependency Calls Failed/Sec"@,
        QuickPulseMetricNames::ExceptionsPerSecond => r"\ApplicationInsights\Exceptions/Sec"@,
        QuickPulseMetricNames::MemoryCommittedBytes => r"\Memory\Committed Bytes"@,
    }
}

impl QuickPulseMetricNames {
    /// The counter path this counter goes out under.
    pub fn as_str(&self) -> (r: &'static str)
        ensures
            r@ == spec_metric_name(*self),
    {
        proof {
            reveal_strlit(r"\Processor(_Total)\% Processor Time");
            reveal_strlit(r"\ApplicationInsights\Requests/Sec");
            reveal_strlit(r"\ApplicationInsights\Requests Failed/Sec");
            reveal_strlit(r"\ApplicationInsights\Dependency Calls/Sec");
            reveal_strlit(r"\ApplicationInsights\Dependency Calls Failed/Sec");
            reveal_strlit(r"\ApplicationInsights\Exceptions/Sec");
            reveal_strlit(r"\Memory\Committed Bytes");
        }
        match self {
            QuickPulseMetricNames::TotalProcessorTime => r"\Processor(_Total)\% Processor Time",
            QuickPulseMetricNames::RequestsPerSecond => r"\ApplicationInsights\Requests/Sec",
            QuickPulseMetricNames::FailedRequestsPerSecond => {
                r"\ApplicationInsights\Requests Failed/Sec"
            },
            QuickPulseMetricNames::DependencyCallsPerSecond => {
                r"\ApplicationInsights\Dependency Calls/Sec"
            },
            QuickPulseMetricNames::FailedDependencyCallsPerSecond => {
                r"\ApplicationInsights\Dependency Calls Failed/Sec"
            },
            QuickPulseMetricNames::ExceptionsPerSecond => r"\ApplicationInsights\Exceptions/Sec",
            QuickPulseMetricNames::MemoryCommittedBytes => r"\Memory\Committed Bytes",
        }
    }
}

#[verifier::external_type_specification]
#[verifier::external_body]
pub struct ExSystem(sysinfo::System);

/// Relies on sysinfo::System::new_all: a fresh handle on the host,
/// refreshed once.
#[verifier::external_body]
fn system_new_all() -> sysinfo::System {
    sysinfo::System::new_all()
}

/// Relies on sysinfo::System::refresh_all to requery the host's state.
#[verifier::external_body]
fn system_refresh_all(system: &mut sysinfo::System) {
    system.refresh_all();
}

/// Relies on sysinfo::System::used_memory: the used RAM in bytes, as of
/// the last refresh.
#[verifier::external_body]
fn system_used_memory(system: &sysinfo::System) -> u64 {
    system.used_memory()
}

/// Relies on sysinfo::System::global_cpu_usage: the CPU usage percentage
/// as of the last refresh. The percentage is floating point, which this
/// library does not hold, so it is rendered as text on the way in.
#[verifier::external_body]
fn system_cpu_usage_string(system: &sysinfo::System) -> String {
    system.global_cpu_usage().to_string()
}

/// Relies on sysinfo::System::host_name.
#[verifier::external_body]
pub(crate) fn system_host_name() -> Option<String> {
    sysinfo::System::host_name()
}

/// One full sample: the five per-second counters this side-car has no
/// request pipeline to measure go out as zero placeholders, then the
/// memory and processor counters carry the sampled values.
pub open spec fn spec_sample(cpu: Seq<char>, mem: Seq<char>) -> Seq<
    (QuickPulseMetricNames, Seq<char>),
> {
    seq![
        (QuickPulseMetricNames::RequestsPerSecond, "0"@),
        (QuickPulseMetricNames::FailedRequestsPerSecond, "0"@),
        (QuickPulseMetricNames::DependencyCallsPerSecond, "0"@),
        (QuickPulseMetricNames::FailedDependencyCallsPerSecond, "0"@),
        (QuickPulseMetricNames::ExceptionsPerSecond, "0"@),
        (QuickPulseMetricNames::MemoryCommittedBytes, mem),
        (QuickPulseMetricNames::TotalProcessorTime, cpu),
    ]
}

/// The view of a collected counter list.
pub open spec fn counters_view(v: Seq<(QuickPulseMetricNames, String)>) -> Seq<
    (QuickPulseMetricNames, Seq<char>),
> {
    v.map_values(|p: (QuickPulseMetricNames, String)| (p.0, p.1@))
}

/// Lays the sampled values out as the full counter set.
pub fn build_sample(cpu: String, mem_bytes: u64) -> (r: Vec<(QuickPulseMetricNames, String)>)
    ensures
        counters_view(r@) == spec_sample(cpu@, spec_decimal_digits(mem_bytes as int)),
{
    let mut out: Vec<(QuickPulseMetricNames, String)> = Vec::new();
    out.push((QuickPulseMetricNames::RequestsPerSecond, String::from_str("0")));
    out.push((QuickPulseMetricNames::FailedRequestsPerSecond, String::from_str("0")));
    out.push((QuickPulseMetricNames::DependencyCallsPerSecond, String::from_str("0")));
    out.push((QuickPulseMetricNames::FailedDependencyCallsPerSecond, String::from_str("0")));
    out.push((QuickPulseMetricNames::ExceptionsPerSecond, String::from_str("0")));
    out.push((QuickPulseMetricNames::MemoryCommittedBytes, u64_to_string(mem_bytes)));
    out.push((QuickPulseMetricNames::TotalProcessorTime, cpu));
    proof {
        assert(counters_view(out@) =~= spec_sample(
            out@[6].1@,
            spec_decimal_digits(mem_bytes as int),
        ));
    }
    out
}

/// Holds the OS handle and the counter set of the last collection.
pub struct PerformanceCollector {
    pub enabled: bool,
    pub system: sysinfo::System,
    pub metrics: Vec<(QuickPulseMetricNames, String)>,
}

impl PerformanceCollector {
    /// A collector that has not sampled yet.
    pub fn new() -> (r: PerformanceCollector)
        ensures
            !r.enabled,
            r.metrics@.len() == 0,
    {
        PerformanceCollector { enabled: false, system: system_new_all(), metrics: Vec::new() }
    }

    /// Requeries the host and replaces the whole counter set: five zero
    /// placeholders, then the sampled memory and processor values.
    pub fn collect(&mut self)
        ensures
            final(self).enabled,
            exists|cpu: Seq<char>, mem: u64|
                counters_view(final(self).metrics@) == spec_sample(
                    cpu,
                    spec_decimal_digits(mem as int),
                ),
    {
        self.enabled = true;
        system_refresh_all(&mut self.system);
        let cpu = system_cpu_usage_string(&self.system);
        let ghost cpu_view = cpu@;
        let mem = system_used_memory(&self.system);
        self.metrics = build_sample(cpu, mem);
        proof {
            assert(counters_view(self.metrics@) == spec_sample(
                cpu_view,
                spec_decimal_digits(mem as int),
            ));
        }
    }
}

} // verus!
