//! Per-tick metrics aggregation and the composed status line. The raw values
//! of one tick — per-core CPU loads and memory in hundredths of a percent,
//! per-interface byte counters for the window — are reduced to one
//! `MetricSample`, and a sample is rendered as the fixed-layout line that the
//! monitor prints.

use vstd::arithmetic::div_mod::lemma_div_is_ordered;
use vstd::arithmetic::div_mod::lemma_div_multiples_vanish;
use vstd::arithmetic::mul::lemma_mul_inequality;
use vstd::prelude::*;
use vstd::string::StringExecFns;
use crate::align::pad_field;
use crate::align::pad_or_keep;
use crate::digits::fixed1_str;
use crate::digits::format_fixed1;
use crate::digits::lemma_fixed1_str_is_ascii;
use crate::rate::lemma_pretty_bytes_is_ascii;
use crate::rate::pretty_bytes_str;
use crate::rate::to_pretty_bytes;

verus! {

/// The sum of a sequence of counters, as an unbounded natural number.
pub open spec fn sum_of(s: Seq<u64>) -> nat
    decreases s.len(),
{
    if s.len() == 0 {
        0
    } else {
        sum_of(s.drop_last()) + s.last() as nat
    }
}

/// Extending a prefix of `s` by one element adds that element to its sum.
proof fn lemma_sum_extend(s: Seq<u64>, i: int)
    requires
        0 <= i < s.len(),
    ensures
        sum_of(s.subrange(0, i + 1)) == sum_of(s.subrange(0, i)) + s[i],
{
    assert(s.subrange(0, i + 1).drop_last() =~= s.subrange(0, i));
}

/// A prefix of `s` sums to no more than the whole of `s`.
proof fn lemma_sum_prefix_le(s: Seq<u64>, i: int)
    requires
        0 <= i <= s.len(),
    ensures
        sum_of(s.subrange(0, i)) <= sum_of(s),
    decreases s.len() - i,
{
    if i < s.len() {
        lemma_sum_extend(s, i);
        lemma_sum_prefix_le(s, i + 1);
    } else {
        assert(s.subrange(0, i) =~= s);
    }
}

/// A sequence of `u64` counters sums to no more than its length times the
/// largest `u64` value.
proof fn lemma_sum_upper(s: Seq<u64>)
    ensures
        sum_of(s) <= s.len() * u64::MAX,
    decreases s.len(),
{
    if s.len() > 0 {
        lemma_sum_upper(s.drop_last());
        assert((s.len() - 1) * u64::MAX + u64::MAX == s.len() * u64::MAX) by (nonlinear_arith);
    }
}

/// A sequence whose elements all equal `v` sums to its length times `v`.
proof fn lemma_sum_of_equal(loads: Seq<u64>, v: u64)
    requires
        forall|i: int| 0 <= i < loads.len() ==> loads[i] == v,
    ensures
        sum_of(loads) == loads.len() * v,
    decreases loads.len(),
{
    if loads.len() > 0 {
        lemma_sum_of_equal(loads.drop_last(), v);
        assert((loads.len() - 1) * v + v == loads.len() * v) by (nonlinear_arith);
    }
}

/// For cores that all report the same load, the aggregate average equals
/// that load exactly.
pub proof fn lemma_average_of_equal_loads(loads: Seq<u64>, v: u64)
    requires
        loads.len() > 0,
        forall|i: int| 0 <= i < loads.len() ==> loads[i] == v,
    ensures
        sum_of(loads) / loads.len() == v,
{
    lemma_sum_of_equal(loads, v);
    lemma_div_multiples_vanish(v as int, loads.len() as int);
}

/// One tick's reduced metrics: the averaged CPU load and the RAM occupancy
/// in hundredths of a percent, and the bytes received and sent over the
/// tick's window summed across all interfaces.
#[derive(Clone, Copy, Debug)]
pub struct MetricSample {
    pub cpu_percent_hundredths: u64,
    pub ram_percent_hundredths: u64,
    pub net_received_bytes: u64,
    pub net_sent_bytes: u64,
}

/// Why a tick's raw readings cannot be reduced to a sample. Each of these is
/// an environment unusable for monitoring, surfaced as an error rather than
/// silently propagated into the display.
#[derive(Clone, Copy, Debug, PartialEq, Eq, Structural)]
pub enum MetricsError {
    /// The metrics source reported no CPU cores.
    NoCores,
    /// The metrics source reported no physical memory at all, or more used
    /// memory than total memory.
    BadMemory,
    /// A summed network counter exceeded the 64-bit range.
    CounterOverflow,
}

/// The arithmetic mean of the per-core loads (each in hundredths of a
/// percent), or `None` when no cores were reported — an environment with no
/// cores must be surfaced, not turned into a division by zero.
pub fn get_cpu_use(core_loads: &Vec<u64>) -> (r: Option<u64>)
    ensures
        r is Some <==> core_loads@.len() > 0,
        core_loads@.len() > 0 ==> (r matches Some(v) && v
            == sum_of(core_loads@) / core_loads@.len()),
{
    if core_loads.len() == 0 {
        return None;
    }
    let n: usize = core_loads.len();
    let mut acc: u128 = 0;
    let mut i: usize = 0;
    while i < n
        invariant
            0 < n == core_loads@.len(),
            i <= n,
            acc == sum_of(core_loads@.subrange(0, i as int)),
            acc <= i * u64::MAX,
        decreases n - i,
    {
        proof {
            lemma_sum_extend(core_loads@, i as int);
            assert(i * u64::MAX + u64::MAX == (i + 1) * u64::MAX) by (nonlinear_arith);
        }
        acc = acc + (core_loads[i] as u128);
        i = i + 1;
    }
    proof {
        assert(core_loads@.subrange(0, n as int) =~= core_loads@);
        lemma_sum_upper(core_loads@);
        lemma_div_is_ordered(acc as int, core_loads@.len() * u64::MAX, core_loads@.len() as int);
        lemma_div_multiples_vanish(u64::MAX as int, core_loads@.len() as int);
    }
    let avg: u128 = acc / (n as u128);
    Some(avg as u64)
}

/// The RAM occupancy in hundredths of a percent: used memory over total
/// memory, scaled to a percentage and truncated. `None` when the source
/// reports no memory at all, or more used than total — both make the ratio
/// meaningless.
pub fn get_ram_use(used_memory: u64, total_memory: u64) -> (r: Option<u64>)
    ensures
        r is Some <==> (total_memory > 0 && used_memory <= total_memory),
        (total_memory > 0 && used_memory <= total_memory) ==> (r matches Some(v) && v
            == (used_memory * 10000) as nat / (total_memory as nat)),
{
    if total_memory == 0 || used_memory > total_memory {
        return None;
    }
    proof {
        lemma_mul_inequality(used_memory as int, total_memory as int, 10000);
        lemma_div_is_ordered(
            used_memory as int * 10000,
            total_memory as int * 10000,
            total_memory as int,
        );
        lemma_div_multiples_vanish(10000, total_memory as int);
    }
    let scaled: u128 = (used_memory as u128) * 10000;
    let r: u128 = scaled / (total_memory as u128);
    Some(r as u64)
}

/// Sum a list of per-interface byte counters; `None` when the total does
/// not fit in 64 bits.
fn sum_counters(counters: &Vec<u64>) -> (r: Option<u64>)
    ensures
        r is Some <==> sum_of(counters@) <= u64::MAX,
        sum_of(counters@) <= u64::MAX ==> (r matches Some(v) && v == sum_of(counters@)),
{
    let n: usize = counters.len();
    let mut acc: u64 = 0;
    let mut i: usize = 0;
    while i < n
        invariant
            n == counters@.len(),
            i <= n,
            acc == sum_of(counters@.subrange(0, i as int)),
        decreases n - i,
    {
        proof {
            lemma_sum_extend(counters@, i as int);
        }
        match acc.checked_add(counters[i]) {
            Some(next) => {
                acc = next;
            },
            None => {
                proof {
                    lemma_sum_prefix_le(counters@, i + 1);
                }
                return None;
            },
        }
        i = i + 1;
    }
    proof {
        assert(counters@.subrange(0, n as int) =~= counters@);
    }
    Some(acc)
}

/// The bytes received over the window, summed across all interfaces.
pub fn get_ntwk_dwn(received: &Vec<u64>) -> (r: Option<u64>)
    ensures
        r is Some <==> sum_of(received@) <= u64::MAX,
        sum_of(received@) <= u64::MAX ==> (r matches Some(v) && v == sum_of(received@)),
{
    sum_counters(received)
}

/// The bytes sent over the window, summed across all interfaces.
pub fn get_ntwk_up(transmitted: &Vec<u64>) -> (r: Option<u64>)
    ensures
        r is Some <==> sum_of(transmitted@) <= u64::MAX,
        sum_of(transmitted@) <= u64::MAX ==> (r matches Some(v) && v == sum_of(transmitted@)),
{
    sum_counters(transmitted)
}

/// Reduce one tick's raw readings to a sample: the averaged CPU load, the
/// RAM percentage, and the summed network counters. Each failure names the
/// first reason, checked in the order CPU, memory, network.
pub fn aggregate(
    core_loads: &Vec<u64>,
    used_memory: u64,
    total_memory: u64,
    received: &Vec<u64>,
    transmitted: &Vec<u64>,
) -> (r: Result<MetricSample, MetricsError>)
    ensures
        match r {
            Ok(sample) => {
                &&& core_loads@.len() > 0
                &&& total_memory > 0
                &&& used_memory <= total_memory
                &&& sum_of(received@) <= u64::MAX
                &&& sum_of(transmitted@) <= u64::MAX
                &&& sample.cpu_percent_hundredths == sum_of(core_loads@) / core_loads@.len()
                &&& sample.ram_percent_hundredths == (used_memory * 10000) as nat / (
                total_memory as nat)
                &&& sample.net_received_bytes == sum_of(received@)
                &&& sample.net_sent_bytes == sum_of(transmitted@)
            },
            Err(MetricsError::NoCores) => core_loads@.len() == 0,
            Err(MetricsError::BadMemory) => {
                &&& core_loads@.len() > 0
                &&& (total_memory == 0 || used_memory > total_memory)
            },
            Err(MetricsError::CounterOverflow) => {
                &&& core_loads@.len() > 0
                &&& total_memory > 0
                &&& used_memory <= total_memory
                &&& (sum_of(received@) > u64::MAX || sum_of(transmitted@) > u64::MAX)
            },
        },
{
    let cpu = match get_cpu_use(core_loads) {
        Some(v) => v,
        None => {
            return Err(MetricsError::NoCores);
        },
    };
    let ram = match get_ram_use(used_memory, total_memory) {
        Some(v) => v,
        None => {
            return Err(MetricsError::BadMemory);
        },
    };
    let down = match get_ntwk_dwn(received) {
        Some(v) => v,
        None => {
            return Err(MetricsError::CounterOverflow);
        },
    };
    let up = match get_ntwk_up(transmitted) {
        Some(v) => v,
        None => {
            return Err(MetricsError::CounterOverflow);
        },
    };
    Ok(MetricSample {
        cpu_percent_hundredths: cpu,
        ram_percent_hundredths: ram,
        net_received_bytes: down,
        net_sent_bytes: up,
    })
}

/// The percent field: the value in hundredths of a percent is rounded
/// half-up to tenths and rendered with one decimal and a trailing percent
/// sign, e.g. 2000 hundredths as `20.0 %`.
pub open spec fn percent_str(hundredths: nat) -> Seq<char> {
    fixed1_str((hundredths + 5) / 10) + seq![' ', '%']
}

/// Every character of a percent field is an ASCII character.
pub proof fn lemma_percent_str_is_ascii(hundredths: nat)
    ensures
        vstd::utf8::is_ascii_chars(percent_str(hundredths)),
{
    lemma_fixed1_str_is_ascii((hundredths + 5) / 10);
    vstd::utf8::is_ascii_chars_concat(
        percent_str(hundredths),
        fixed1_str((hundredths + 5) / 10),
        seq![' ', '%'],
    );
}

/// Render a load or occupancy carried in hundredths of a percent as the
/// percent field.
pub fn format_percent(hundredths: u64) -> (s: String)
    ensures
        s@ == percent_str(hundredths as nat),
{
    let tenths: u128 = ((hundredths as u128) + 5) / 10;
    let mut s = format_fixed1(tenths);
    s.append(" %");
    proof {
        reveal_strlit(" %");
        assert(s@ =~= percent_str(hundredths as nat));
    }
    s
}

/// The composed status line for one tick: the RAM and CPU percent fields
/// right-aligned to seven characters and the two byte-rate fields to ten,
/// each in its bracketed label.
pub open spec fn status_line_str(sample: MetricSample, timespan_in_ms: nat) -> Seq<char> {
    seq!['[', 'R', 'A', 'M', ':'] + pad_or_keep(percent_str(sample.ram_percent_hundredths as nat), 7)
        + seq![']', ' ', '[', 'C', 'P', 'U', ':']
        + pad_or_keep(percent_str(sample.cpu_percent_hundredths as nat), 7)
        + seq![']', ' ', '[', 'D', 'O', 'W', 'N', ':']
        + pad_or_keep(pretty_bytes_str(sample.net_received_bytes as nat, timespan_in_ms), 10)
        + seq![']', ' ', '[', 'U', 'P', ':']
        + pad_or_keep(pretty_bytes_str(sample.net_sent_bytes as nat, timespan_in_ms), 10)
        + seq![']']
}

/// Compose one tick's status line from a sample and the measured window
/// length.
pub fn compose_status_line(sample: &MetricSample, timespan_in_ms: u64) -> (line: String)
    requires
        1 <= timespan_in_ms,
    ensures
        line@ == status_line_str(*sample, timespan_in_ms as nat),
{
    proof {
        lemma_percent_str_is_ascii(sample.ram_percent_hundredths as nat);
        lemma_percent_str_is_ascii(sample.cpu_percent_hundredths as nat);
        lemma_pretty_bytes_is_ascii(sample.net_received_bytes as nat, timespan_in_ms as nat);
        lemma_pretty_bytes_is_ascii(sample.net_sent_bytes as nat, timespan_in_ms as nat);
    }
    let ram_field = pad_field(format_percent(sample.ram_percent_hundredths), 7);
    let cpu_field = pad_field(format_percent(sample.cpu_percent_hundredths), 7);
    let down_field = pad_field(to_pretty_bytes(sample.net_received_bytes, timespan_in_ms), 10);
    let up_field = pad_field(to_pretty_bytes(sample.net_sent_bytes, timespan_in_ms), 10);
    let mut line = "[RAM:".to_owned();
    line.append(ram_field.as_str());
    line.append("] [CPU:");
    line.append(cpu_field.as_str());
    line.append("] [DOWN:");
    line.append(down_field.as_str());
    line.append("] [UP:");
    line.append(up_field.as_str());
    line.append("]");
    proof {
        reveal_strlit("[RAM:");
        reveal_strlit("] [CPU:");
        reveal_strlit("] [DOWN:");
        reveal_strlit("] [UP:");
        reveal_strlit("]");
        assert(line@ =~= status_line_str(*sample, timespan_in_ms as nat));
    }
    line
}

/// The sample that one tick's raw readings reduce to, when they reduce.
pub open spec fn reduced_sample(
    core_loads: Seq<u64>,
    used_memory: u64,
    total_memory: u64,
    received: Seq<u64>,
    transmitted: Seq<u64>,
) -> MetricSample {
    MetricSample {
        cpu_percent_hundredths: (sum_of(core_loads) / core_loads.len()) as u64,
        ram_percent_hundredths: ((used_memory * 10000) as nat / (total_memory as nat)) as u64,
        net_received_bytes: sum_of(received) as u64,
        net_sent_bytes: sum_of(transmitted) as u64,
    }
}

/// One full tick of the sampling loop's computation: reduce the tick's raw
/// readings to a sample and compose its status line. The loop around this
/// only reads the OS counters, prints the line, and sleeps out the interval.
pub fn render_tick(
    core_loads: &Vec<u64>,
    used_memory: u64,
    total_memory: u64,
    received: &Vec<u64>,
    transmitted: &Vec<u64>,
    timespan_in_ms: u64,
) -> (r: Result<String, MetricsError>)
    requires
        1 <= timespan_in_ms,
    ensures
        match r {
            Ok(line) => {
                &&& core_loads@.len() > 0
                &&& total_memory > 0
                &&& used_memory <= total_memory
                &&& sum_of(received@) <= u64::MAX
                &&& sum_of(transmitted@) <= u64::MAX
                &&& line@ == status_line_str(
                    reduced_sample(
                        core_loads@,
                        used_memory,
                        total_memory,
                        received@,
                        transmitted@,
                    ),
                    timespan_in_ms as nat,
                )
            },
            Err(MetricsError::NoCores) => core_loads@.len() == 0,
            Err(MetricsError::BadMemory) => {
                &&& core_loads@.len() > 0
                &&& (total_memory == 0 || used_memory > total_memory)
            },
            Err(MetricsError::CounterOverflow) => {
                &&& core_loads@.len() > 0
                &&& total_memory > 0
                &&& used_memory <= total_memory
                &&& (sum_of(received@) > u64::MAX || sum_of(transmitted@) > u64::MAX)
            },
        },
{
    match aggregate(core_loads, used_memory, total_memory, received, transmitted) {
        Ok(sample) => Ok(compose_status_line(&sample, timespan_in_ms)),
        Err(e) => Err(e),
    }
}

} // verus!
