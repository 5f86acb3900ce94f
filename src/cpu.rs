//! The global CPU tick counters and the accounting of how busy the CPU was
//! between two samples of them.
use vstd::prelude::*;
use vstd::string::StringSliceAdditionalSpecFns;

verus! {

// ---------------------------------------------------------------------------
// The first line of the kernel's global statistics file:
//     "cpu  <user> <nice> <system> <idle> <iowait> <irq> <softirq> <steal> ..."
// Fields are separated by runs of ASCII blanks. A field that is missing, or
// is not a decimal number that fits in a u64, counts as zero.
// ---------------------------------------------------------------------------

/// Tab, line feed, vertical tab, form feed, carriage return and space.
pub open spec fn is_blank(b: u8) -> bool {
    b == 9 || b == 10 || b == 11 || b == 12 || b == 13 || b == 32
}

pub open spec fn is_digit(b: u8) -> bool {
    48 <= b <= 57
}

/// The first index at or after `i` that holds no blank, or the length.
pub open spec fn skip_blanks(s: Seq<u8>, i: int) -> int
    decreases s.len() - i,
{
    if i >= s.len() || !is_blank(s[i]) {
        i
    } else {
        skip_blanks(s, i + 1)
    }
}

/// The first index at or after `i` that holds a blank, or the length.
pub open spec fn token_end(s: Seq<u8>, i: int) -> int
    decreases s.len() - i,
{
    if i >= s.len() || is_blank(s[i]) {
        i
    } else {
        token_end(s, i + 1)
    }
}

/// Where the `k`-th field (counting from zero) starts; the length if the
/// line has no such field.
pub open spec fn token_start(s: Seq<u8>, k: nat) -> int
    decreases k,
{
    if k == 0 {
        skip_blanks(s, 0)
    } else {
        skip_blanks(s, token_end(s, token_start(s, (k - 1) as nat)))
    }
}

/// The `k`-th field of the line; empty if there is none.
pub open spec fn token(s: Seq<u8>, k: nat) -> Seq<u8> {
    s.subrange(token_start(s, k), token_end(s, token_start(s, k)))
}

pub open spec fn decimal_value(t: Seq<u8>) -> nat
    decreases t.len(),
{
    if t.len() == 0 {
        0
    } else {
        decimal_value(t.drop_last()) * 10 + (t.last() - 48) as nat
    }
}

pub open spec fn is_decimal(t: Seq<u8>) -> bool {
    t.len() > 0 && forall|i: int| 0 <= i < t.len() ==> is_digit(#[trigger] t[i])
}

/// The counter that a field holds: its decimal value, or zero when it is not
/// a decimal number or does not fit in a u64.
pub open spec fn field_value(t: Seq<u8>) -> u64 {
    if is_decimal(t) && decimal_value(t) <= u64::MAX {
        decimal_value(t) as u64
    } else {
        0
    }
}

/// The marker that opens the line: "cpu".
pub open spec fn cpu_marker() -> Seq<u8> {
    seq![99u8, 112u8, 117u8]
}

/// The eight cumulative counters of the global CPU line, in ticks.
#[derive(Clone, Copy, Debug, PartialEq, Eq)]
pub struct CpuTimes {
    pub user: u64,
    pub nice: u64,
    pub system: u64,
    pub idle: u64,
    pub iowait: u64,
    pub irq: u64,
    pub softirq: u64,
    pub steal: u64,
}

impl CpuTimes {
    /// Idle time: idle plus iowait.
    pub open spec fn idle_ticks(self) -> int {
        self.idle + self.iowait
    }

    /// Non-idle time: the six remaining counters.
    pub open spec fn non_idle_ticks(self) -> int {
        self.user + self.nice + self.system + self.irq + self.softirq + self.steal
    }
}

/// What the line says: `None` when its first field is not the marker,
/// else the counters held by fields one to eight.
pub open spec fn parsed_cpu_times(s: Seq<u8>) -> Option<CpuTimes> {
    if token(s, 0) != cpu_marker() {
        None
    } else {
        Some(
            CpuTimes {
                user: field_value(token(s, 1)),
                nice: field_value(token(s, 2)),
                system: field_value(token(s, 3)),
                idle: field_value(token(s, 4)),
                iowait: field_value(token(s, 5)),
                irq: field_value(token(s, 6)),
                softirq: field_value(token(s, 7)),
                steal: field_value(token(s, 8)),
            },
        )
    }
}

proof fn lemma_skip_blanks_bounds(s: Seq<u8>, i: int)
    requires
        0 <= i <= s.len(),
    ensures
        i <= skip_blanks(s, i) <= s.len(),
    decreases s.len() - i,
{
    if i < s.len() && is_blank(s[i]) {
        lemma_skip_blanks_bounds(s, i + 1);
    }
}

proof fn lemma_token_end_bounds(s: Seq<u8>, i: int)
    requires
        0 <= i <= s.len(),
    ensures
        i <= token_end(s, i) <= s.len(),
    decreases s.len() - i,
{
    if i < s.len() && !is_blank(s[i]) {
        lemma_token_end_bounds(s, i + 1);
    }
}

proof fn lemma_decimal_prefix_le(t: Seq<u8>, j: int)
    requires
        0 <= j <= t.len(),
    ensures
        decimal_value(t.subrange(0, j)) <= decimal_value(t),
    decreases t.len(),
{
    if j == t.len() {
        assert(t.subrange(0, j) =~= t);
    } else {
        assert(t.drop_last().subrange(0, j) =~= t.subrange(0, j));
        lemma_decimal_prefix_le(t.drop_last(), j);
    }
}

/// Index of the first non-blank at or after `i`.
fn skip_blanks_from(s: &[u8], i: usize) -> (r: usize)
    requires
        i <= s@.len(),
    ensures
        r == skip_blanks(s@, i as int),
{
    let mut j = i;
    while j < s.len() && is_blank_byte(s[j])
        invariant
            i <= j <= s@.len(),
            skip_blanks(s@, j as int) == skip_blanks(s@, i as int),
        decreases s@.len() - j,
    {
        j = j + 1;
    }
    j
}

/// Index of the first blank at or after `i`.
fn token_end_from(s: &[u8], i: usize) -> (r: usize)
    requires
        i <= s@.len(),
    ensures
        r == token_end(s@, i as int),
{
    let mut j = i;
    while j < s.len() && !is_blank_byte(s[j])
        invariant
            i <= j <= s@.len(),
            token_end(s@, j as int) == token_end(s@, i as int),
        decreases s@.len() - j,
    {
        j = j + 1;
    }
    j
}

fn is_blank_byte(b: u8) -> (r: bool)
    ensures
        r == is_blank(b),
{
    b == 9 || b == 10 || b == 11 || b == 12 || b == 13 || b == 32
}

/// The counter held by `s[start..end]`.
fn parse_field(s: &[u8], start: usize, end: usize) -> (r: u64)
    requires
        start <= end <= s@.len(),
    ensures
        r == field_value(s@.subrange(start as int, end as int)),
{
    let ghost t = s@.subrange(start as int, end as int);
    if start == end {
        return 0;
    }
    let mut acc: u64 = 0;
    let mut j = start;
    while j < end
        invariant
            start <= j <= end <= s@.len(),
            t == s@.subrange(start as int, end as int),
            forall|i: int| 0 <= i < j - start ==> is_digit(#[trigger] t[i]),
            acc == decimal_value(t.subrange(0, j - start)),
        decreases end - j,
    {
        let b = s[j];
        if !(48 <= b && b <= 57) {
            assert(!is_digit(t[j - start]));
            return 0;
        }
        let ghost k = j - start;
        assert(t.subrange(0, k + 1).drop_last() =~= t.subrange(0, k));
        if acc > (u64::MAX - (b - 48) as u64) / 10 {
            proof {
                assert(decimal_value(t.subrange(0, k + 1)) > u64::MAX) by (nonlinear_arith)
                    requires
                        decimal_value(t.subrange(0, k + 1)) == acc * 10 + (b - 48) as nat,
                        acc > (u64::MAX - (b - 48) as u64) / 10,
                        0 <= b - 48 <= 9,
                ;
                lemma_decimal_prefix_le(t, k + 1);
            }
            return 0;
        }
        acc = acc * 10 + (b - 48) as u64;
        j = j + 1;
    }
    assert(t.subrange(0, t.len() as int) =~= t);
    acc
}

/// Index where the field starting at or after `i` ends, with where it starts.
fn next_token(s: &[u8], i: usize) -> (r: (usize, usize))
    requires
        i <= s@.len(),
    ensures
        r.0 == skip_blanks(s@, i as int),
        r.1 == token_end(s@, r.0 as int),
        i <= r.0 <= r.1 <= s@.len(),
{
    let start = skip_blanks_from(s, i);
    proof { lemma_skip_blanks_bounds(s@, i as int); }
    let end = token_end_from(s, start);
    proof { lemma_token_end_bounds(s@, start as int); }
    (start, end)
}

/// Whether the line opens with the `cpu` marker of the global CPU line.
pub fn has_cpu_marker(line: &str) -> (r: bool)
    ensures
        r == (token(line.spec_bytes(), 0) == cpu_marker()),
{
    let s = line.as_bytes();
    let (start, end) = next_token(s, 0);
    if end - start == 3 && s[start] == 99 && s[start + 1] == 112 && s[start + 2] == 117 {
        assert(token(s@, 0) =~= cpu_marker());
        true
    } else {
        assert(token(s@, 0) !~= cpu_marker()) by {
            if end - start == 3 {
                assert(token(s@, 0)[0] == s@[start as int]);
                assert(token(s@, 0)[1] == s@[start + 1]);
                assert(token(s@, 0)[2] == s@[start + 2]);
            }
        }
        false
    }
}

/// Reads the counters of the global CPU line. A line without the `cpu`
/// marker means the kernel no longer exposes the expected format; callers
/// test it with `has_cpu_marker` and treat it as fatal.
pub fn parse_cpu_times(line: &str) -> (r: CpuTimes)
    requires
        token(line.spec_bytes(), 0) == cpu_marker(),
    ensures
        Some(r) == parsed_cpu_times(line.spec_bytes()),
{
    let s = line.as_bytes();
    let ghost sb = s@;
    let (start, end) = next_token(s, 0);
    let mut vals: Vec<u64> = Vec::new();
    let mut pos = end;
    let mut k: usize = 0;
    while k < 8
        invariant
            sb == s@,
            k <= 8,
            vals@.len() == k,
            0 <= pos <= sb.len(),
            pos == token_end(sb, token_start(sb, k as nat)),
            forall|i: int| 0 <= i < k ==> #[trigger] vals@[i] == field_value(token(sb, (i + 1) as nat)),
        decreases 8 - k,
    {
        let st = skip_blanks_from(s, pos);
        proof { lemma_skip_blanks_bounds(sb, pos as int); }
        let en = token_end_from(s, st);
        proof { lemma_token_end_bounds(sb, st as int); }
        assert(st == token_start(sb, (k + 1) as nat));
        let v = parse_field(s, st, en);
        vals.push(v);
        pos = en;
        k = k + 1;
    }
    assert(vals@[0] == field_value(token(sb, 1)));
    assert(vals@[1] == field_value(token(sb, 2)));
    assert(vals@[2] == field_value(token(sb, 3)));
    assert(vals@[3] == field_value(token(sb, 4)));
    assert(vals@[4] == field_value(token(sb, 5)));
    assert(vals@[5] == field_value(token(sb, 6)));
    assert(vals@[6] == field_value(token(sb, 7)));
    assert(vals@[7] == field_value(token(sb, 8)));
    CpuTimes {
        user: vals[0],
        nice: vals[1],
        system: vals[2],
        idle: vals[3],
        iowait: vals[4],
        irq: vals[5],
        softirq: vals[6],
        steal: vals[7],
    }
}


// ---------------------------------------------------------------------------
// Accounting between two samples.
// ---------------------------------------------------------------------------

/// All ticks elapsed since the previous sample.
pub open spec fn total_delta_of(prev_idle: int, prev_non_idle: int, times: CpuTimes) -> int {
    (times.idle_ticks() + times.non_idle_ticks()) - (prev_idle + prev_non_idle)
}

/// Non-idle ticks elapsed since the previous sample; 1 where that would be
/// exactly zero, so that an interval without activity stays distinct from
/// "no data".
pub open spec fn active_delta_of(prev_idle: int, prev_non_idle: int, times: CpuTimes) -> int {
    let active = total_delta_of(prev_idle, prev_non_idle, times) - (times.idle_ticks() - prev_idle);
    if active == 0 {
        1
    } else {
        active
    }
}

/// The active fraction `active / total` as (numerator, denominator); 0 (that
/// is 0 / 1) when no tick elapsed.
pub open spec fn fraction_of(active_delta: int, total_delta: int) -> (int, int) {
    if total_delta == 0 {
        (0, 1)
    } else {
        (active_delta, total_delta)
    }
}

/// The accounting of `times` against a previous sample.
pub open spec fn usage_of(prev_idle: int, prev_non_idle: int, times: CpuTimes) -> CpuUsage {
    CpuUsage {
        active_delta: active_delta_of(prev_idle, prev_non_idle, times) as i128,
        total_delta: total_delta_of(prev_idle, prev_non_idle, times) as i128,
    }
}

/// How busy the CPU was between two samples of the global counters.
#[derive(Clone, Copy, Debug, PartialEq, Eq)]
pub struct CpuUsage {
    /// Non-idle ticks elapsed (1 where none elapsed).
    pub active_delta: i128,
    /// All ticks elapsed.
    pub total_delta: i128,
}

impl CpuUsage {
    pub open spec fn fraction(self) -> (int, int) {
        fraction_of(self.active_delta as int, self.total_delta as int)
    }

    /// The share of the elapsed ticks that were active, as
    /// (numerator, denominator).
    pub fn active_fraction(&self) -> (r: (i128, i128))
        ensures
            r.0 == self.fraction().0,
            r.1 == self.fraction().1,
    {
        if self.total_delta == 0 {
            (0, 1)
        } else {
            (self.active_delta, self.total_delta)
        }
    }
}

/// The previous sample of the global counters, kept as idle and non-idle
/// totals; the basis of the next accounting.
pub struct CpuAccountant {
    prev_idle: u128,
    prev_non_idle: u128,
    has_prev: bool,
}

/// The accounting of a first sample, which has nothing to be measured
/// against: no data (an active delta of 0) and an active fraction of 0.
pub open spec fn no_data() -> CpuUsage {
    CpuUsage { active_delta: 0, total_delta: 0 }
}

impl CpuAccountant {
    #[verifier::type_invariant]
    spec fn totals_in_range(self) -> bool {
        self.prev_idle <= 2 * u64::MAX && self.prev_non_idle <= 6 * u64::MAX
    }

    pub closed spec fn prev_idle(self) -> int {
        self.prev_idle as int
    }

    pub closed spec fn prev_non_idle(self) -> int {
        self.prev_non_idle as int
    }

    /// Whether a previous sample has been kept.
    pub closed spec fn has_prev(self) -> bool {
        self.has_prev
    }

    /// What `update` returns for `times`: `no_data()` on the first sample,
    /// else the accounting against the previous one.
    pub open spec fn usage_for(self, times: CpuTimes) -> CpuUsage {
        if self.has_prev() {
            usage_of(self.prev_idle(), self.prev_non_idle(), times)
        } else {
            no_data()
        }
    }

    /// An accountant with no previous sample.
    pub fn new() -> (r: CpuAccountant)
        ensures
            !r.has_prev(),
    {
        CpuAccountant { prev_idle: 0, prev_non_idle: 0, has_prev: false }
    }

    /// Accounts for the ticks elapsed since the previous sample and keeps
    /// `times` as the basis of the next call. The first call has no previous
    /// sample: it returns an active delta of 0 and an active fraction of 0.
    pub fn update(&mut self, times: &CpuTimes) -> (r: CpuUsage)
        ensures
            r == old(self).usage_for(*times),
            !old(self).has_prev() ==> r.active_delta == 0 && r.fraction().0 == 0,
            old(self).has_prev() ==> r.total_delta == total_delta_of(
                old(self).prev_idle(),
                old(self).prev_non_idle(),
                *times,
            ) && r.active_delta == active_delta_of(
                old(self).prev_idle(),
                old(self).prev_non_idle(),
                *times,
            ),
            final(self).has_prev(),
            final(self).prev_idle() == times.idle_ticks(),
            final(self).prev_non_idle() == times.non_idle_ticks(),
    {
        proof { use_type_invariant(&*self); }
        let idle: u128 = times.idle as u128 + times.iowait as u128;
        let non_idle: u128 = times.user as u128 + times.nice as u128 + times.system as u128
            + times.irq as u128 + times.softirq as u128 + times.steal as u128;
        let total = idle as i128 + non_idle as i128;
        let prev_total = self.prev_idle as i128 + self.prev_non_idle as i128;
        let total_delta = total - prev_total;
        let idle_delta = idle as i128 - self.prev_idle as i128;
        let had_prev = self.has_prev;
        self.prev_idle = idle;
        self.prev_non_idle = non_idle;
        self.has_prev = true;
        if !had_prev {
            return CpuUsage { active_delta: 0, total_delta: 0 };
        }
        let active = total_delta - idle_delta;
        let active_delta = if active != 0 { active } else { 1 };
        CpuUsage { active_delta, total_delta }
    }
}

/// Counters that never go backwards give an active fraction in [0, 1], with a
/// positive denominator; it is exactly 0 when no tick elapsed.
pub proof fn lemma_active_fraction_in_unit_range(
    prev_idle: int,
    prev_non_idle: int,
    times: CpuTimes,
)
    requires
        0 <= prev_idle <= times.idle_ticks(),
        0 <= prev_non_idle <= times.non_idle_ticks(),
    ensures
        ({
            let total = total_delta_of(prev_idle, prev_non_idle, times);
            let f = fraction_of(active_delta_of(prev_idle, prev_non_idle, times), total);
            &&& f.1 > 0
            &&& 0 <= f.0 <= f.1
            &&& total == 0 ==> f.0 == 0
        }),
{
}

/// A second sample with the same totals as the first: the active delta is the
/// sentinel 1, not 0, and the active fraction is 0.
pub proof fn lemma_unchanged_totals(times: CpuTimes)
    ensures
        active_delta_of(times.idle_ticks(), times.non_idle_ticks(), times) == 1,
        total_delta_of(times.idle_ticks(), times.non_idle_ticks(), times) == 0,
        fraction_of(
            active_delta_of(times.idle_ticks(), times.non_idle_ticks(), times),
            total_delta_of(times.idle_ticks(), times.non_idle_ticks(), times),
        ).0 == 0,
{
}

// ---------------------------------------------------------------------------
// Per-process share.
// ---------------------------------------------------------------------------

/// Ticks a process has run, user plus system (saturating at `u64::MAX`).
pub open spec fn process_ticks(utime: u64, stime: u64) -> u64 {
    if utime + stime > u64::MAX {
        u64::MAX
    } else {
        (utime + stime) as u64
    }
}

/// Ticks run since the previous sample; 0 where the counter went backwards
/// (the pid now names another process).
pub open spec fn tick_diff(new_ticks: u64, prev_ticks: u64) -> int {
    if new_ticks >= prev_ticks {
        new_ticks - prev_ticks
    } else {
        0
    }
}

/// A process's CPU share in hundredths of a percent, rounded down.
/// In current-total mode it is `diff / active * 100`; in overall-total mode it
/// is further scaled by the active fraction `active / total`, which reduces to
/// `diff / total * 100`. It is 0 where the active delta is not positive, and
/// in overall-total mode where the total delta is not positive.
pub open spec fn cpu_share(diff: int, usage: CpuUsage, use_current_cpu_total: bool) -> int {
    if usage.active_delta <= 0 {
        0
    } else if use_current_cpu_total {
        diff * 10000 / (usage.active_delta as int)
    } else if usage.total_delta <= 0 {
        0
    } else {
        diff * 10000 / (usage.total_delta as int)
    }
}

/// The CPU share of a process that has run `utime + stime` ticks, of which
/// `prev_proc_time` were counted at the previous sample; also the tick count
/// to keep for the next sample.
pub fn get_cpu_usage(
    utime: u64,
    stime: u64,
    usage: &CpuUsage,
    prev_proc_time: u64,
    use_current_cpu_total: bool,
) -> (r: (u128, u64))
    ensures
        r.1 == process_ticks(utime, stime),
        r.0 == cpu_share(tick_diff(r.1, prev_proc_time), *usage, use_current_cpu_total),
{
    let new_proc_time = utime.saturating_add(stime);
    let diff: u64 = if new_proc_time >= prev_proc_time {
        new_proc_time - prev_proc_time
    } else {
        0
    };
    let scaled: i128 = diff as i128 * 10000;
    if usage.active_delta <= 0 {
        (0, new_proc_time)
    } else if use_current_cpu_total {
        let share = scaled / usage.active_delta;
        proof { lemma_div_nonneg(scaled as int, usage.active_delta as int); }
        (share as u128, new_proc_time)
    } else if usage.total_delta <= 0 {
        (0, new_proc_time)
    } else {
        let share = scaled / usage.total_delta;
        proof { lemma_div_nonneg(scaled as int, usage.total_delta as int); }
        (share as u128, new_proc_time)
    }
}

proof fn lemma_div_nonneg(a: int, b: int)
    requires
        a >= 0,
        b > 0,
    ensures
        0 <= a / b <= a,
{
    vstd::arithmetic::div_mod::lemma_div_pos_is_pos(a, b);
    vstd::arithmetic::div_mod::lemma_div_is_ordered_by_denominator(a, 1, b);
}

} // verus!
