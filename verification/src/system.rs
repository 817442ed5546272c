//! What the bar reads of the machine: processor counters from `/proc/stat`,
//! memory from `/proc/meminfo`, and how memory sizes are shown.

use vstd::prelude::*;
use crate::text::{
    decimal, is_ws, law_decimal_is_word, law_first_word, law_parse_decimal_roundtrip, lines, parse_u64, parse_u64_str, push_char, push_decimal, split_lines,
    split_whitespace, str_eq, strip_prefix, strip_prefix_str, words,
};

verus! {

broadcast use vstd::string::group_string_axioms;

// ---------------------------------------------------------------------------
// Processor
// ---------------------------------------------------------------------------

/// Cumulative processor time: the idle part and the total.
#[derive(Debug, Clone, Copy)]
pub struct CpuSnapshot {
    pub idle: u64,
    pub total: u64,
}

/// Why `/proc/stat` could not be read.
#[derive(Debug, Clone, Copy, PartialEq, Eq, Structural)]
pub enum CpuStatError {
    /// The text has no line.
    MissingFirstLine,
    /// The first line has no word.
    MissingCpuLabel,
    /// The first line is not the `cpu` line.
    NotCpuLine,
    /// A counter is not an unsigned number.
    InvalidValue,
    /// The `cpu` line has fewer than seven counters.
    NotEnoughFields,
}

impl CpuStatError {
    /// What the error says.
    pub fn message(&self) -> (r: &'static str)
        ensures
            r@ == match *self {
                CpuStatError::MissingFirstLine => "missing first line in /proc/stat"@,
                CpuStatError::MissingCpuLabel => "missing cpu label"@,
                CpuStatError::NotCpuLine => "first /proc/stat line is not cpu"@,
                CpuStatError::InvalidValue => "failed to parse /proc/stat cpu values"@,
                CpuStatError::NotEnoughFields => "not enough cpu fields in /proc/stat"@,
            },
    {
        match self {
            CpuStatError::MissingFirstLine => "missing first line in /proc/stat",
            CpuStatError::MissingCpuLabel => "missing cpu label",
            CpuStatError::NotCpuLine => "first /proc/stat line is not cpu",
            CpuStatError::InvalidValue => "failed to parse /proc/stat cpu values",
            CpuStatError::NotEnoughFields => "not enough cpu fields in /proc/stat",
        }
    }
}

/// The numbers of a list of words, if every word is one.
pub open spec fn parse_all(ws: Seq<Seq<char>>) -> Option<Seq<u64>>
    decreases ws.len(),
{
    if ws.len() == 0 {
        Some(seq![])
    } else {
        match (parse_all(ws.drop_last()), parse_u64(ws.last())) {
            (Some(vs), Some(v)) => Some(vs.push(v)),
            _ => None,
        }
    }
}

/// The counters of the `cpu` line, the first line of `/proc/stat`:
/// `cpu user nice system idle iowait irq softirq [steal ...]`.
pub open spec fn spec_cpu_fields(stat: Seq<char>) -> Result<Seq<u64>, CpuStatError> {
    let ls = lines(stat);
    if ls.len() == 0 {
        Err(CpuStatError::MissingFirstLine)
    } else {
        let ws = words(ls[0]);
        if ws.len() == 0 {
            Err(CpuStatError::MissingCpuLabel)
        } else if ws[0] != "cpu"@ {
            Err(CpuStatError::NotCpuLine)
        } else {
            match parse_all(ws.drop_first()) {
                None => Err(CpuStatError::InvalidValue),
                Some(vs) => if vs.len() < 7 {
                    Err(CpuStatError::NotEnoughFields)
                } else {
                    Ok(vs)
                },
            }
        }
    }
}

/// Reads the counters of the `cpu` line of `/proc/stat`.
pub fn parse_cpu_fields(stat: &str) -> (r: Result<Vec<u64>, CpuStatError>)
    ensures
        match spec_cpu_fields(stat@) {
            Ok(vs) => r matches Ok(v) && v@ == vs,
            Err(e) => r == Err::<Vec<u64>, CpuStatError>(e),
        },
{
    let ls = split_lines(stat);
    if ls.len() == 0 {
        return Err(CpuStatError::MissingFirstLine);
    }
    let ws = split_whitespace(ls[0].as_str());
    if ws.len() == 0 {
        return Err(CpuStatError::MissingCpuLabel);
    }
    if !str_eq(ws[0].as_str(), "cpu") {
        return Err(CpuStatError::NotCpuLine);
    }
    let ghost rest = words(lines(stat@)[0]).drop_first();
    let mut vals: Vec<u64> = Vec::new();
    let mut i: usize = 1;
    while i < ws.len()
        invariant
            1 <= i <= ws@.len(),
            lines(stat@).len() > 0,
            ws@.len() == words(lines(stat@)[0]).len(),
            words(lines(stat@)[0])[0] == "cpu"@,
            forall|k: int| 0 <= k < ws@.len() ==> #[trigger] ws@[k]@ == words(lines(stat@)[0])[k],
            rest == words(lines(stat@)[0]).drop_first(),
            parse_all(rest.take(i - 1)) == Some(vals@),
        decreases ws.len() - i,
    {
        assert(rest.take(i as int).drop_last() =~= rest.take(i - 1));
        assert(rest.take(i as int).last() == ws@[i as int]@);
        match parse_u64_str(ws[i].as_str()) {
            Some(v) => {
                vals.push(v);
            },
            None => {
                proof {
                    assert(parse_u64(rest.take(i as int).last()) is None);
                    assert(parse_all(rest.take(i as int)) is None);
                    lemma_parse_all_prefix(rest, i as int);
                    assert(parse_all(rest) is None);
                    assert(words(lines(stat@)[0])[0] == "cpu"@);
                }
                return Err(CpuStatError::InvalidValue);
            },
        }
        i = i + 1;
    }
    assert(rest.take(ws@.len() - 1) =~= rest);
    if vals.len() < 7 {
        return Err(CpuStatError::NotEnoughFields);
    }
    Ok(vals)
}

proof fn lemma_parse_all_prefix(ws: Seq<Seq<char>>, i: int)
    requires
        0 <= i <= ws.len(),
        parse_all(ws.take(i)) is None,
    ensures
        parse_all(ws) is None,
    decreases ws.len() - i,
{
    if i < ws.len() {
        assert(ws.take(i + 1).drop_last() =~= ws.take(i));
        lemma_parse_all_prefix(ws, i + 1);
    } else {
        assert(ws.take(i) =~= ws);
    }
}

/// The steal counter, when the line has one.
pub open spec fn steal(v: Seq<u64>) -> int {
    if v.len() > 7 {
        v[7] as int
    } else {
        0
    }
}

/// Idle time: idle plus iowait.
pub open spec fn spec_idle(v: Seq<u64>) -> int {
    v[3] + v[4]
}

/// Total time: user, nice, system, idle, iowait, irq, softirq and steal.
pub open spec fn spec_total(v: Seq<u64>) -> int {
    v[0] + v[1] + v[2] + v[3] + v[4] + v[5] + v[6] + steal(v)
}

/// Whether the idle and total times fit in a `u64`.
pub open spec fn spec_fields_fit(v: Seq<u64>) -> bool {
    spec_idle(v) <= u64::MAX && spec_total(v) <= u64::MAX
}

/// Whether the sums of the counters fit in a `u64` (they always do on a
/// real machine; adding them would overflow otherwise).
pub fn cpu_fields_fit(values: &Vec<u64>) -> (r: bool)
    requires
        values@.len() >= 7,
    ensures
        r == spec_fields_fit(values@),
{
    let idle: u128 = values[3] as u128 + values[4] as u128;
    let steal: u128 = if values.len() > 7 {
        values[7] as u128
    } else {
        0
    };
    let total: u128 = values[0] as u128 + values[1] as u128 + values[2] as u128 + values[3] as u128
        + values[4] as u128 + values[5] as u128 + values[6] as u128 + steal;
    idle <= u64::MAX as u128 && total <= u64::MAX as u128
}

/// The snapshot of the counters of the `cpu` line.
pub fn snapshot_from_fields(values: &Vec<u64>) -> (r: CpuSnapshot)
    requires
        values@.len() >= 7,
        spec_fields_fit(values@),
    ensures
        r.idle == spec_idle(values@),
        r.total == spec_total(values@),
{
    let steal: u64 = if values.len() > 7 {
        values[7]
    } else {
        0
    };
    let idle = values[3] + values[4];
    let total = values[0] + values[1] + values[2] + values[3] + values[4] + values[5] + values[6]
        + steal;
    CpuSnapshot { idle, total }
}

/// Processor time between two snapshots: the busy part and the total.
#[derive(Debug, Clone, Copy)]
pub struct CpuUsage {
    pub used: u64,
    pub total: u64,
}

/// `a - b`, or zero when `b` is larger.
pub open spec fn sat_sub(a: u64, b: u64) -> u64 {
    if a >= b {
        (a - b) as u64
    } else {
        0
    }
}

/// The processor time spent between two snapshots and how much of it was
/// busy (counters that went backwards count as zero). The usage in percent
/// is `100 * used / total`, and zero when `total` is zero.
pub fn cpu_usage(prev: CpuSnapshot, next: CpuSnapshot) -> (r: CpuUsage)
    ensures
        r.total == sat_sub(next.total, prev.total),
        r.used == sat_sub(r.total, sat_sub(next.idle, prev.idle)),
{
    let total_delta = next.total.saturating_sub(prev.total);
    let idle_delta = next.idle.saturating_sub(prev.idle);
    CpuUsage { used: total_delta.saturating_sub(idle_delta), total: total_delta }
}

/// The busy time never exceeds the total time.
pub proof fn law_usage_bounded(prev: CpuSnapshot, next: CpuSnapshot)
    ensures
        sat_sub(sat_sub(next.total, prev.total), sat_sub(next.idle, prev.idle)) <= sat_sub(
            next.total,
            prev.total,
        ),
{
}

/// Of the counters of the `cpu` line, idle time is idle plus iowait, and the
/// rest of the total is busy time: user, nice, system, irq, softirq and, when
/// the line has it, steal. Idle time never exceeds the total.
pub proof fn law_cpu_times(v: Seq<u64>)
    requires
        v.len() >= 7,
    ensures
        spec_idle(v) == v[3] + v[4],
        spec_total(v) - spec_idle(v) == v[0] + v[1] + v[2] + v[5] + v[6] + if v.len() > 7 {
            v[7] as int
        } else {
            0
        },
        spec_idle(v) <= spec_total(v),
{
}

// ---------------------------------------------------------------------------
// Memory
// ---------------------------------------------------------------------------

/// Memory in KiB: total, available, and used (total less available).
#[derive(Debug, Clone, Copy)]
pub struct MemoryInfo {
    pub total_kib: u64,
    pub available_kib: u64,
    pub used_kib: u64,
}

/// Why `/proc/meminfo` could not be read.
#[derive(Debug, Clone, Copy, PartialEq, Eq, Structural)]
pub enum MemInfoError {
    MissingTotal,
    MissingAvailable,
}

impl MemInfoError {
    /// What the error says.
    pub fn message(&self) -> (r: &'static str)
        ensures
            r@ == match *self {
                MemInfoError::MissingTotal => "missing MemTotal"@,
                MemInfoError::MissingAvailable => "missing MemAvailable"@,
            },
    {
        match self {
            MemInfoError::MissingTotal => "missing MemTotal",
            MemInfoError::MissingAvailable => "missing MemAvailable",
        }
    }
}

/// The number after `key` on a line of `/proc/meminfo` (`MemTotal:  123 kB`).
pub open spec fn spec_meminfo_value(line: Seq<char>, key: Seq<char>) -> Option<u64> {
    match strip_prefix(line, key) {
        None => None,
        Some(rest) => if words(rest).len() == 0 {
            None
        } else {
            parse_u64(words(rest)[0])
        },
    }
}

/// The number after `key` on a line of `/proc/meminfo`.
pub fn parse_meminfo_value(line: &str, key: &str) -> (r: Option<u64>)
    ensures
        r == spec_meminfo_value(line@, key@),
{
    match strip_prefix_str(line, key) {
        None => None,
        Some(rest) => {
            let ws = split_whitespace(rest.as_str());
            if ws.len() == 0 {
                None
            } else {
                parse_u64_str(ws[0].as_str())
            }
        },
    }
}

/// The last `MemTotal:` and `MemAvailable:` values of some lines (a line
/// is read as `MemTotal:` first).
pub open spec fn meminfo_scan(ls: Seq<Seq<char>>) -> (Option<u64>, Option<u64>)
    decreases ls.len(),
{
    if ls.len() == 0 {
        (None, None)
    } else {
        let (t, a) = meminfo_scan(ls.drop_last());
        match spec_meminfo_value(ls.last(), "MemTotal:"@) {
            Some(v) => (Some(v), a),
            None => match spec_meminfo_value(ls.last(), "MemAvailable:"@) {
                Some(v) => (t, Some(v)),
                None => (t, a),
            },
        }
    }
}

/// The memory figures of `/proc/meminfo`.
pub open spec fn spec_meminfo(text: Seq<char>) -> Result<(u64, u64), MemInfoError> {
    match meminfo_scan(lines(text)) {
        (None, _) => Err(MemInfoError::MissingTotal),
        (Some(_), None) => Err(MemInfoError::MissingAvailable),
        (Some(t), Some(a)) => Ok((t, a)),
    }
}

/// Reads total and available memory from the text of `/proc/meminfo`.
pub fn parse_meminfo(text: &str) -> (r: Result<MemoryInfo, MemInfoError>)
    ensures
        match spec_meminfo(text@) {
            Ok((t, a)) => r matches Ok(m) && m.total_kib == t && m.available_kib == a && m.used_kib
                == sat_sub(t, a),
            Err(e) => r matches Err(x) && x == e,
        },
{
    let ls = split_lines(text);
    let mut total: Option<u64> = None;
    let mut available: Option<u64> = None;
    let mut i: usize = 0;
    while i < ls.len()
        invariant
            i <= ls@.len(),
            ls@.len() == lines(text@).len(),
            forall|k: int| 0 <= k < ls@.len() ==> #[trigger] ls@[k]@ == lines(text@)[k],
            meminfo_scan(lines(text@).take(i as int)) == (total, available),
        decreases ls.len() - i,
    {
        assert(lines(text@).take(i + 1).drop_last() =~= lines(text@).take(i as int));
        assert(lines(text@).take(i + 1).last() == ls@[i as int]@);
        let line = ls[i].as_str();
        match parse_meminfo_value(line, "MemTotal:") {
            Some(v) => {
                total = Some(v);
            },
            None => match parse_meminfo_value(line, "MemAvailable:") {
                Some(v) => {
                    available = Some(v);
                },
                None => {},
            },
        }
        i = i + 1;
    }
    assert(lines(text@).take(ls@.len() as int) =~= lines(text@));
    match total {
        None => Err(MemInfoError::MissingTotal),
        Some(t) => match available {
            None => Err(MemInfoError::MissingAvailable),
            Some(a) => Ok(MemoryInfo { total_kib: t, available_kib: a, used_kib: t.saturating_sub(a) }),
        },
    }
}

/// A line that starts with a key, then a space and a number, gives that
/// number for that key, whatever follows the number after whitespace (the
/// unit).
pub proof fn law_meminfo_value(key: Seq<char>, n: u64, tail: Seq<char>)
    requires
        tail.len() == 0 || is_ws(tail[0]),
    ensures
        spec_meminfo_value(key + seq![' '] + decimal(n as nat) + tail, key) == Some(n),
{
    let line = key + seq![' '] + decimal(n as nat) + tail;
    let rest = seq![' '] + decimal(n as nat) + tail;
    assert(line.take(key.len() as int) =~= key);
    assert(line.skip(key.len() as int) =~= rest);
    law_decimal_is_word(n as nat);
    law_first_word(decimal(n as nat), tail);
    law_parse_decimal_roundtrip(n);
}

/// The `MemTotal:` line gives the total and the `MemAvailable:` line the
/// available memory, in whichever order they come; a text with only the
/// available line has no total.
pub proof fn law_meminfo_keys(t: u64, a: u64)
    ensures
        ({
            let tl = "MemTotal:"@ + seq![' '] + decimal(t as nat) + " kB"@;
            let al = "MemAvailable:"@ + seq![' '] + decimal(a as nat) + " kB"@;
            &&& meminfo_scan(seq![tl, al]) == (Some(t), Some(a))
            &&& meminfo_scan(seq![al, tl]) == (Some(t), Some(a))
            &&& meminfo_scan(seq![al]) == (None::<u64>, Some(a))
        }),
{
    let tl = "MemTotal:"@ + seq![' '] + decimal(t as nat) + " kB"@;
    let al = "MemAvailable:"@ + seq![' '] + decimal(a as nat) + " kB"@;
    reveal_strlit("MemTotal:");
    reveal_strlit("MemAvailable:");
    reveal_strlit(" kB");
    assert(is_ws(" kB"@[0]));
    law_meminfo_value("MemTotal:"@, t, " kB"@);
    law_meminfo_value("MemAvailable:"@, a, " kB"@);
    assert(al.take(9)[3] == 'A');
    assert("MemTotal:"@[3] == 'T');
    assert(spec_meminfo_value(al, "MemTotal:"@) is None);
    assert(seq![tl, al].drop_last() =~= seq![tl]);
    assert(seq![tl].drop_last() =~= Seq::<Seq<char>>::empty());
    assert(seq![al, tl].drop_last() =~= seq![al]);
    assert(seq![al].drop_last() =~= Seq::<Seq<char>>::empty());
    assert(meminfo_scan(Seq::<Seq<char>>::empty()) == (None::<u64>, None::<u64>));
    assert(seq![tl].last() == tl);
    assert(seq![al].last() == al);
    assert(meminfo_scan(seq![tl]) == (Some(t), None::<u64>));
    assert(meminfo_scan(seq![al]) == (None::<u64>, Some(a)));
    assert(meminfo_scan(seq![tl, al]) == (Some(t), Some(a)));
    assert(meminfo_scan(seq![al, tl]) == (Some(t), Some(a)));
}

/// Used memory never exceeds the total.
pub proof fn law_used_at_most_total(t: u64, a: u64)
    ensures
        sat_sub(t, a) <= t,
        a <= t ==> sat_sub(t, a) + a == t,
{
}

// ---------------------------------------------------------------------------
// Showing sizes
// ---------------------------------------------------------------------------

/// `2^e`.
pub open spec fn two_pow(e: nat) -> nat
    decreases e,
{
    if e == 0 {
        1
    } else {
        2 * two_pow((e - 1) as nat)
    }
}

/// `2^53`: integers below it are exact as `f64`.
pub open spec fn f64_exact_limit() -> nat {
    0x20_0000_0000_0000
}

/// How many low bits of `k` an `f64` cannot hold.
pub open spec fn excess_bits(k: nat) -> nat
    decreases k,
{
    if k < f64_exact_limit() {
        0
    } else {
        1 + excess_bits(k / 2)
    }
}

/// `a / b` rounded to the nearest integer, ties to the even one.
pub open spec fn round_half_even(a: nat, b: nat) -> nat {
    let q = a / b;
    let r = a % b;
    if 2 * r > b || (2 * r == b && q % 2 == 1) {
        q + 1
    } else {
        q
    }
}

/// The value of `k as f64` (rounded to 53 significant bits, ties to even).
pub open spec fn f64_value(k: nat) -> nat {
    if k < f64_exact_limit() {
        k
    } else {
        let p = two_pow(excess_bits(k));
        round_half_even(k, p) * p
    }
}

/// `1024 * 1024`: KiB in a GiB.
pub open spec fn kib_per_gib() -> nat {
    0x10_0000
}

/// How `format_kib` shows a size in KiB: in GiB with one decimal when that
/// is at least one (`"{:.1}G"`), else in whole MiB (`"{:.0}M"`); the value
/// is that of the size as an `f64`, rounded to the shown digits with ties
/// to even.
pub open spec fn spec_format_kib(kib: u64) -> Seq<char> {
    let v = f64_value(kib as nat);
    if v >= kib_per_gib() {
        let t = round_half_even(v * 10, kib_per_gib());
        decimal(t / 10) + seq!['.'] + decimal(t % 10) + seq!['G']
    } else {
        decimal(round_half_even(v, 1024)) + seq!['M']
    }
}

fn round_half_even_exec(a: u128, b: u128) -> (r: u128)
    requires
        0 < b <= 0x1_0000_0000_0000_0000,
        a <= 0x10_0000_0000_0000_0000,
    ensures
        r == round_half_even(a as nat, b as nat),
        r <= a / b + 1,
{
    let q = a / b;
    let r = a % b;
    if 2 * r > b || (2 * r == b && q % 2 == 1) {
        q + 1
    } else {
        q
    }
}

proof fn lemma_two_pow_mono(a: nat, b: nat)
    requires
        a <= b,
    ensures
        two_pow(a) <= two_pow(b),
    decreases b,
{
    if a < b {
        lemma_two_pow_mono(a, (b - 1) as nat);
    }
}

/// A power of two below `2^11` is at most `2^10`.
proof fn lemma_two_pow_below_2048(s: nat)
    requires
        two_pow(s) < 0x800,
    ensures
        two_pow(s) <= 0x400,
{
    reveal_with_fuel(two_pow, 12);
    if s >= 11 {
        lemma_two_pow_mono(11, s);
    } else {
        lemma_two_pow_mono(s, 10);
    }
}

proof fn lemma_excess_step(k: nat, p: nat, m: nat)
    requires
        p > 0,
        m == k / p,
        m >= f64_exact_limit(),
    ensures
        excess_bits(m) == 1 + excess_bits(m / 2),
        m / 2 == k / (p * 2),
{
    vstd::arithmetic::div_mod::lemma_div_denominator(k as int, p as int, 2);
}

/// `k as f64`, as an exact integer.
fn f64_value_exec(k: u64) -> (v: u128)
    ensures
        v == f64_value(k as nat),
        v <= 0x1_0000_0000_0000_0000,
{
    if k < 0x20_0000_0000_0000 {
        return k as u128;
    }
    let kk = k as u128;
    let mut p: u128 = 1;
    let ghost mut s: nat = 0;
    let mut m: u128 = kk;
    while m >= 0x20_0000_0000_0000
        invariant
            p == two_pow(s),
            p >= 1,
            p <= 0x800,
            m == kk / p,
            kk == k,
            excess_bits(k as nat) == s + excess_bits(m as nat),
        decreases m,
    {
        proof {
            lemma_excess_step(k as nat, p as nat, m as nat);
            assert(p * 0x20_0000_0000_0000 <= kk) by (nonlinear_arith)
                requires
                    m == kk / p,
                    m >= 0x20_0000_0000_0000,
                    p >= 1,
            ;
            assert(p < 0x800) by (nonlinear_arith)
                requires
                    p * 0x20_0000_0000_0000 <= kk,
                    kk < 0x1_0000_0000_0000_0000,
            ;
            lemma_two_pow_below_2048(s);
        }
        p = p * 2;
        proof {
            s = s + 1;
        }
        m = kk / p;
    }
    assert(excess_bits(m as nat) == 0);
    let q = round_half_even_exec(kk, p);
    assert(q * p <= 0x1_0000_0000_0000_0000) by (nonlinear_arith)
        requires
            q <= kk / p + 1,
            kk / p < 0x20_0000_0000_0000,
            p <= 0x800,
    ;
    q * p
}

proof fn lemma_f64_quotient(k: nat)
    ensures
        k < f64_exact_limit() ==> k / two_pow(excess_bits(k)) == k,
        k >= f64_exact_limit() ==> k / two_pow(excess_bits(k)) >= 0x10_0000_0000_0000,
        two_pow(excess_bits(k)) >= 1,
    decreases k,
{
    if k >= f64_exact_limit() {
        let h = k / 2;
        lemma_f64_quotient(h);
        let p = two_pow(excess_bits(h));
        assert(excess_bits(k) == 1 + excess_bits(h));
        assert(two_pow(excess_bits(k)) == 2 * p);
        vstd::arithmetic::div_mod::lemma_div_denominator(k as int, 2, p as int);
        assert(k / (2 * p) == h / p);
        if h < f64_exact_limit() {
            assert(h >= 0x10_0000_0000_0000);
        }
    } else {
        assert(excess_bits(k) == 0);
        assert(two_pow(0) == 1);
        assert(k / 1 == k);
    }
}

/// A size of at least one GiB is shown in GiB (ending in `G`), a smaller
/// one in MiB (ending in `M`).
pub proof fn law_format_kib_unit(kib: u64)
    ensures
        kib >= kib_per_gib() ==> spec_format_kib(kib).last() == 'G',
        kib < kib_per_gib() ==> spec_format_kib(kib).last() == 'M',
{
    let k = kib as nat;
    lemma_f64_quotient(k);
    if k >= f64_exact_limit() {
        let p = two_pow(excess_bits(k));
        let q = k / p;
        assert(round_half_even(k, p) >= q);
        assert(round_half_even(k, p) * p >= q) by (nonlinear_arith)
            requires
                round_half_even(k, p) >= q,
                p >= 1,
        ;
        assert(f64_value(k) >= kib_per_gib());
    } else {
        assert(f64_value(k) == k);
    }
}

/// A memory size in KiB as the memory label shows it (`"1.5G"`, `"512M"`).
pub fn format_kib(kib: u64) -> (r: String)
    ensures
        r@ == spec_format_kib(kib),
{
    let v = f64_value_exec(kib);
    let mut out = String::new();
    if v >= 0x10_0000 {
        let t = round_half_even_exec(v * 10, 0x10_0000);
        assert(t / 10 <= u64::MAX) by (nonlinear_arith)
            requires
                t <= (v * 10) / 0x10_0000 + 1,
                v <= 0x1_0000_0000_0000_0000,
        ;
        push_decimal(&mut out, (t / 10) as u64);
        push_char(&mut out, '.');
        push_decimal(&mut out, (t % 10) as u64);
        push_char(&mut out, 'G');
    } else {
        let m = round_half_even_exec(v, 1024);
        push_decimal(&mut out, m as u64);
        push_char(&mut out, 'M');
    }
    out
}

} // verus!
