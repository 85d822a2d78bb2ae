//! Timing statistics of the capture and detection pipeline.
use vstd::prelude::*;
use vstd::string::*;
use crate::text::{digit_char, int_decimal, i64_to_decimal};
use crate::wrappers::string_push;

verus! {

/// Running total, maximum and count of measured durations in microseconds.
#[derive(Clone, Copy, Debug, PartialEq, Eq, Structural)]
pub struct TimingAggregator {
    pub total_us: u64,
    pub max_us: u64,
    pub count: u32,
}

impl Default for TimingAggregator {
    fn default() -> (r: Self)
        ensures
            r.total_us == 0 && r.max_us == 0 && r.count == 0,
    {
        TimingAggregator { total_us: 0, max_us: 0, count: 0 }
    }
}

impl TimingAggregator {
    /// The total never exceeds `count` times the maximum.
    pub open spec fn consistent(&self) -> bool {
        self.total_us <= self.count * self.max_us
    }

    /// Adds one measurement.
    pub fn update(&mut self, elapsed_us: u64)
        requires
            old(self).total_us + elapsed_us <= u64::MAX,
            old(self).count < u32::MAX,
        ensures
            final(self).total_us == old(self).total_us + elapsed_us,
            final(self).max_us == (if elapsed_us > old(self).max_us { elapsed_us } else { old(self).max_us }),
            final(self).count == old(self).count + 1,
            old(self).consistent() ==> final(self).consistent(),
    {
        let ghost before = *self;
        self.total_us = self.total_us + elapsed_us;
        if elapsed_us > self.max_us {
            self.max_us = elapsed_us;
        }
        self.count = self.count + 1;
        proof {
            if before.consistent() {
                let m = self.max_us as int;
                assert(before.count * before.max_us <= before.count * m) by (nonlinear_arith)
                    requires
                        before.max_us <= m,
                ;
                assert(self.count * m == before.count * m + m) by (nonlinear_arith)
                    requires
                        self.count == before.count + 1,
                ;
            }
        }
    }

    /// Mean of the measurements, rounded down; 0 without measurements.
    pub fn avg_us(&self) -> (r: u64)
        ensures
            r == (if self.count == 0 { 0 } else { self.total_us / (self.count as u64) }),
            self.consistent() ==> r <= self.max_us,
    {
        if self.count == 0 {
            0
        } else {
            let r = self.total_us / self.count as u64;
            proof {
                if self.consistent() {
                    assert(self.total_us / (self.count as u64) <= self.max_us) by (nonlinear_arith)
                        requires
                            self.total_us <= self.count * self.max_us,
                            self.count > 0,
                    ;
                }
            }
            r
        }
    }

    /// Forgets all measurements.
    pub fn reset(&mut self)
        ensures
            final(self).total_us == 0 && final(self).max_us == 0 && final(self).count == 0,
            final(self).consistent(),
    {
        self.total_us = 0;
        self.max_us = 0;
        self.count = 0;
    }
}

/// Index of the 95th percentile in a sorted list of `len` samples:
/// `ceil(min(95 * len, usize::MAX) / 100) - 1`.
pub open spec fn p95_index(len: int) -> int {
    let scaled = if 95 * len > usize::MAX { usize::MAX as int } else { 95 * len };
    (scaled + 99) / 100 - 1
}

/// The 95th percentile of samples sorted in ascending order; 0 for no samples.
pub fn percentile_95(sorted_samples: &[u64]) -> (r: u64)
    ensures
        sorted_samples@.len() == 0 ==> r == 0,
        sorted_samples@.len() > 0 ==> 0 <= p95_index(sorted_samples@.len() as int) < sorted_samples@.len()
            && r == sorted_samples@[p95_index(sorted_samples@.len() as int)],
{
    let n = sorted_samples.len();
    if n == 0 {
        return 0;
    }
    let scaled: usize = if n > usize::MAX / 95 { usize::MAX } else { n * 95 };
    proof {
        if n > usize::MAX / 95 {
            assert(95 * n > usize::MAX);
        } else {
            assert(95 * n <= usize::MAX);
        }
    }
    let index = scaled / 100 + (if scaled % 100 != 0 { 1usize } else { 0usize }) - 1;
    proof {
        assert((scaled + 99) / 100 == scaled / 100 + (if scaled % 100 != 0 { 1int } else { 0int }));
    }
    sorted_samples[index]
}

/// The sum of the samples `s`.
pub open spec fn sample_sum(s: Seq<u64>) -> int
    decreases s.len(),
{
    if s.len() == 0 {
        0
    } else {
        sample_sum(s.drop_last()) + s.last()
    }
}

/// The capture line's timing figures for samples sorted in ascending order: the mean
/// (rounded down), the 95th percentile and the last sample, which is the largest; all
/// three are 0 for no samples.
pub open spec fn capture_summary_of(s: Seq<u64>) -> (u64, u64, u64) {
    if s.len() == 0 {
        (0, 0, 0)
    } else {
        ((sample_sum(s) / (s.len() as int)) as u64, s[p95_index(s.len() as int)], s.last())
    }
}

/// The sum of a prefix of samples is at most the sum of all of them.
proof fn lemma_prefix_sum_bounded(s: Seq<u64>, i: int)
    requires
        0 <= i <= s.len(),
    ensures
        0 <= sample_sum(s.take(i)) <= sample_sum(s),
    decreases s.len(),
{
    if i == s.len() {
        assert(s.take(i) =~= s);
        lemma_sum_nonnegative(s);
    } else {
        assert(s.drop_last().take(i) =~= s.take(i));
        lemma_prefix_sum_bounded(s.drop_last(), i);
    }
}

/// Samples never sum below zero.
proof fn lemma_sum_nonnegative(s: Seq<u64>)
    ensures
        sample_sum(s) >= 0,
    decreases s.len(),
{
    if s.len() > 0 {
        lemma_sum_nonnegative(s.drop_last());
    }
}

/// Mean, 95th percentile and maximum of the capture times `sorted_samples`, sorted in
/// ascending order, as the periodic log line shows them.
pub fn capture_summary(sorted_samples: &[u64]) -> (r: (u64, u64, u64))
    requires
        sample_sum(sorted_samples@) <= u64::MAX,
    ensures
        r == capture_summary_of(sorted_samples@),
{
    let n = sorted_samples.len();
    if n == 0 {
        return (0, 0, 0);
    }
    let mut total: u64 = 0;
    let mut i: usize = 0;
    while i < n
        invariant
            n == sorted_samples@.len(),
            i <= n,
            total == sample_sum(sorted_samples@.take(i as int)),
            sample_sum(sorted_samples@) <= u64::MAX,
        decreases n - i,
    {
        proof {
            let t = sorted_samples@.take(i + 1);
            assert(t.drop_last() =~= sorted_samples@.take(i as int));
            lemma_prefix_sum_bounded(sorted_samples@, i + 1);
        }
        total = total + sorted_samples[i];
        i = i + 1;
    }
    assert(sorted_samples@.take(n as int) =~= sorted_samples@);
    let p95 = percentile_95(sorted_samples);
    (total / (n as u64), p95, sorted_samples[n - 1])
}

/// The generation number after `current`: one more, wrapping, and never 0.
pub fn next_output_generation(current: u64) -> (r: u64)
    ensures
        r == (if current == u64::MAX { 1 } else { current + 1 }),
        r >= 1,
{
    let next = current.wrapping_add(1);
    if next < 1 {
        1
    } else {
        next
    }
}


/// The two-digit, zero-padded decimal text of `n < 100`.
pub open spec fn two_digits(n: nat) -> Seq<char> {
    seq![digit_char(n / 10), digit_char(n % 10)]
}

/// The three-digit, zero-padded decimal text of `n < 1000`.
pub open spec fn three_digits(n: nat) -> Seq<char> {
    seq![digit_char(n / 100), digit_char((n / 10) % 10), digit_char(n % 10)]
}

/// The time of day in Korea (UTC+9) at `secs` seconds and `millis` milliseconds after
/// the Unix epoch, as `HH:MM:SS.mmm`.
pub open spec fn clock_text_of(secs: nat, millis: nat) -> Seq<char> {
    let t = (secs + 9 * 3600) % 86400;
    two_digits(t / 3600) + seq![':'] + two_digits((t % 3600) / 60) + seq![':'] + two_digits(t % 60)
        + seq!['.'] + three_digits(millis)
}

fn digit_of(d: u64) -> (c: char)
    requires
        d < 10,
    ensures
        c == digit_char(d as nat),
{
    if d == 0 { '0' } else if d == 1 { '1' } else if d == 2 { '2' } else if d == 3 { '3' } else if d == 4 { '4' }
    else if d == 5 { '5' } else if d == 6 { '6' } else if d == 7 { '7' } else if d == 8 { '8' } else { '9' }
}

/// The log timestamp of the moment `secs` seconds and `millis` milliseconds after the epoch.
pub fn clock_text(secs: u64, millis: u32) -> (r: String)
    requires
        secs + 9 * 3600 <= u64::MAX,
        millis < 1000,
    ensures
        r@ == clock_text_of(secs as nat, millis as nat),
{
    let t = (secs + 9 * 3600) % 86400;
    let hours = t / 3600;
    let minutes = (t % 3600) / 60;
    let seconds = t % 60;
    let ms = millis as u64;
    let mut r = String::new();
    string_push(&mut r, digit_of(hours / 10));
    string_push(&mut r, digit_of(hours % 10));
    string_push(&mut r, ':');
    string_push(&mut r, digit_of(minutes / 10));
    string_push(&mut r, digit_of(minutes % 10));
    string_push(&mut r, ':');
    string_push(&mut r, digit_of(seconds / 10));
    string_push(&mut r, digit_of(seconds % 10));
    string_push(&mut r, '.');
    string_push(&mut r, digit_of(ms / 100));
    string_push(&mut r, digit_of((ms / 10) % 10));
    string_push(&mut r, digit_of(ms % 10));
    assert(r@ =~= clock_text_of(secs as nat, millis as nat));
    r
}

/// The lower-case hexadecimal digit for `d < 16`.
pub open spec fn hex_digit_char(d: nat) -> char {
    if d < 10 {
        digit_char(d)
    } else if d == 10 {
        'a'
    } else if d == 11 {
        'b'
    } else if d == 12 {
        'c'
    } else if d == 13 {
        'd'
    } else if d == 14 {
        'e'
    } else {
        'f'
    }
}

/// Lower-case hexadecimal digits of `n` without leading zeros (`{:x}`).
pub open spec fn nat_hex(n: nat) -> Seq<char>
    decreases n,
{
    if n < 16 {
        seq![hex_digit_char(n)]
    } else {
        nat_hex(n / 16).push(hex_digit_char(n % 16))
    }
}

fn hex_digit(d: u64) -> (c: char)
    requires
        d < 16,
    ensures
        c == hex_digit_char(d as nat),
{
    if d < 10 { digit_of(d) } else if d == 10 { 'a' } else if d == 11 { 'b' } else if d == 12 { 'c' }
    else if d == 13 { 'd' } else if d == 14 { 'e' } else { 'f' }
}

/// Appends the hexadecimal digits of `n` to `s`.
fn push_hex(s: &mut String, n: u64)
    ensures
        final(s)@ == old(s)@ + nat_hex(n as nat),
    decreases n,
{
    if n < 16 {
        string_push(s, hex_digit(n));
    } else {
        push_hex(s, n / 16);
        string_push(s, hex_digit(n % 16));
    }
}

/// What the tracker saw of the game window and the active window at one moment.
#[derive(Clone, Copy, Debug)]
pub struct WindowObservation {
    pub target_xid: u64,
    pub active_xid: Option<u64>,
    pub active_in_client_list: Option<bool>,
    /// Left, top, width and height of the game window.
    pub rect: (i32, i32, i32, i32),
    pub foreground: bool,
    pub fullscreen: bool,
}

/// `true` or `false`, as `{}` writes a `bool`.
pub open spec fn bool_text(b: bool) -> Seq<char> {
    if b { "true"@ } else { "false"@ }
}

/// The log line of a window observation.
pub open spec fn window_observation_text(w: WindowObservation) -> Seq<char> {
    "target=0x"@ + nat_hex(w.target_xid as nat) + ",active="@ + match w.active_xid {
        None => "none"@,
        Some(x) => "0x"@ + nat_hex(x as nat),
    } + ",active_client="@ + match w.active_in_client_list {
        None => "unknown"@,
        Some(m) => if m { "yes"@ } else { "no"@ },
    } + ",rect="@ + int_decimal(w.rect.2 as int) + "x"@ + int_decimal(w.rect.3 as int) + "@"@
        + int_decimal(w.rect.0 as int) + ","@ + int_decimal(w.rect.1 as int) + " foreground="@
        + bool_text(w.foreground) + " fullscreen="@ + bool_text(w.fullscreen)
}

fn push_bool(s: &mut String, b: bool)
    ensures
        final(s)@ == old(s)@ + bool_text(b),
{
    if b {
        s.append("true");
    } else {
        s.append("false");
    }
}

fn push_i32(s: &mut String, v: i32)
    ensures
        final(s)@ == old(s)@ + int_decimal(v as int),
{
    let t = i64_to_decimal(v as i64);
    s.append(t.as_str());
}

/// Formats a window observation for the telemetry log.
pub fn format_window_observation(w: WindowObservation) -> (r: String)
    ensures
        r@ == window_observation_text(w),
{
    let mut r = String::new();
    r.append("target=0x");
    push_hex(&mut r, w.target_xid);
    r.append(",active=");
    match w.active_xid {
        None => r.append("none"),
        Some(x) => {
            r.append("0x");
            push_hex(&mut r, x);
        },
    }
    r.append(",active_client=");
    match w.active_in_client_list {
        None => r.append("unknown"),
        Some(m) => if m {
            r.append("yes")
        } else {
            r.append("no")
        },
    }
    r.append(",rect=");
    push_i32(&mut r, w.rect.2);
    r.append("x");
    push_i32(&mut r, w.rect.3);
    r.append("@");
    push_i32(&mut r, w.rect.0);
    r.append(",");
    push_i32(&mut r, w.rect.1);
    r.append(" foreground=");
    push_bool(&mut r, w.foreground);
    r.append(" fullscreen=");
    push_bool(&mut r, w.fullscreen);
    assert(r@ =~= window_observation_text(w));
    r
}


/// Counters of the capture-to-overlay delivery path over one logging interval, and the
/// generations that the outputs passing through it carry. The caller keeps the clock:
/// each step takes the elapsed times it records.
#[derive(Debug)]
pub struct DeliveryCounters {
    pub session_started: bool,
    pub capture_attempts: u32,
    pub capture_successes: u32,
    pub capture_failures: u32,
    pub capture_samples_us: Vec<u64>,
    pub outputs_generated: u32,
    pub output_generation: u64,
    pub outputs_drained: u32,
    pub last_drained_generation: u64,
    pub output_to_drain: TimingAggregator,
    pub publish_calls: u32,
    pub publish_accepted: u32,
    pub last_published_generation: u64,
    pub drain_to_publish: TimingAggregator,
    pub snapshots_applied: u32,
    pub last_applied_generation: u64,
    pub publish_to_apply: TimingAggregator,
    /// Generation of the last applied snapshot, once one was applied.
    pub last_applied: Option<u64>,
    pub snapshots_presented: u32,
    pub last_presented_generation: u64,
    pub apply_to_present: TimingAggregator,
}

/// The aggregate after one more measurement.
pub open spec fn updated(a: TimingAggregator, elapsed_us: u64) -> TimingAggregator {
    TimingAggregator {
        total_us: (a.total_us + elapsed_us) as u64,
        max_us: if elapsed_us > a.max_us { elapsed_us } else { a.max_us },
        count: (a.count + 1) as u32,
    }
}

/// An aggregate can take the measurement `elapsed_us` without overflowing.
pub open spec fn can_update(a: TimingAggregator, elapsed_us: u64) -> bool {
    a.total_us + elapsed_us <= u64::MAX && a.count < u32::MAX
}

/// The aggregate with no measurement.
pub open spec fn empty_aggregate() -> TimingAggregator {
    TimingAggregator { total_us: 0, max_us: 0, count: 0 }
}

/// What presenting the snapshot of `generation` does to the counters: nothing when that
/// generation was the last one presented; else one more presentation, and the time since
/// it was applied (`apply_elapsed_us`) recorded when it is the last applied snapshot.
pub open spec fn presented(s: DeliveryCounters, generation: u64, apply_elapsed_us: u64) -> DeliveryCounters {
    if s.last_presented_generation == generation {
        s
    } else {
        DeliveryCounters {
            snapshots_presented: (s.snapshots_presented + 1) as u32,
            last_presented_generation: generation,
            apply_to_present: if s.last_applied == Some(generation) {
                updated(s.apply_to_present, apply_elapsed_us)
            } else {
                s.apply_to_present
            },
            ..s
        }
    }
}

/// The counters can present `generation` without overflowing.
pub open spec fn can_present(s: DeliveryCounters, generation: u64, apply_elapsed_us: u64) -> bool {
    s.last_presented_generation != generation ==> s.snapshots_presented < u32::MAX && (s.last_applied
        == Some(generation) ==> can_update(s.apply_to_present, apply_elapsed_us))
}

/// The counters of a new interval: every count and timing of `s` cleared (the capture
/// samples, which this leaves as they are, are emptied by the step that resets), the
/// session flag, the generations and the last applied snapshot kept.
pub open spec fn interval_reset(s: DeliveryCounters) -> DeliveryCounters {
    DeliveryCounters {
        capture_attempts: 0,
        capture_successes: 0,
        capture_failures: 0,
        outputs_generated: 0,
        outputs_drained: 0,
        output_to_drain: empty_aggregate(),
        publish_calls: 0,
        publish_accepted: 0,
        drain_to_publish: empty_aggregate(),
        snapshots_applied: 0,
        publish_to_apply: empty_aggregate(),
        snapshots_presented: 0,
        apply_to_present: empty_aggregate(),
        ..s
    }
}

impl DeliveryCounters {
    /// Counters before any session: all zero.
    pub fn new() -> (r: DeliveryCounters)
        ensures
            !r.session_started,
            r.capture_attempts == 0 && r.capture_successes == 0 && r.capture_failures == 0,
            r.capture_samples_us@.len() == 0,
            r.outputs_generated == 0 && r.output_generation == 0,
            r.outputs_drained == 0 && r.last_drained_generation == 0,
            r.output_to_drain == empty_aggregate(),
            r.publish_calls == 0 && r.publish_accepted == 0 && r.last_published_generation == 0,
            r.drain_to_publish == empty_aggregate(),
            r.snapshots_applied == 0 && r.last_applied_generation == 0,
            r.publish_to_apply == empty_aggregate(),
            r.last_applied is None,
            r.snapshots_presented == 0 && r.last_presented_generation == 0,
            r.apply_to_present == empty_aggregate(),
    {
        DeliveryCounters {
            session_started: false,
            capture_attempts: 0,
            capture_successes: 0,
            capture_failures: 0,
            capture_samples_us: Vec::new(),
            outputs_generated: 0,
            output_generation: 0,
            outputs_drained: 0,
            last_drained_generation: 0,
            output_to_drain: TimingAggregator::default(),
            publish_calls: 0,
            publish_accepted: 0,
            last_published_generation: 0,
            drain_to_publish: TimingAggregator::default(),
            snapshots_applied: 0,
            last_applied_generation: 0,
            publish_to_apply: TimingAggregator::default(),
            last_applied: None,
            snapshots_presented: 0,
            last_presented_generation: 0,
            apply_to_present: TimingAggregator::default(),
        }
    }

    /// Starts a new logging interval.
    pub fn reset_interval(&mut self)
        ensures
            final(self).capture_samples_us@.len() == 0,
            *final(self) == (DeliveryCounters { capture_samples_us: final(self).capture_samples_us, ..interval_reset(*old(self)) }),
    {
        self.capture_attempts = 0;
        self.capture_successes = 0;
        self.capture_failures = 0;
        self.capture_samples_us.clear();
        self.outputs_generated = 0;
        self.outputs_drained = 0;
        self.output_to_drain.reset();
        self.publish_calls = 0;
        self.publish_accepted = 0;
        self.drain_to_publish.reset();
        self.snapshots_applied = 0;
        self.publish_to_apply.reset();
        self.snapshots_presented = 0;
        self.apply_to_present.reset();
    }

    /// Starts a session: a new interval, and from now on the intervals are logged.
    pub fn start_session(&mut self)
        ensures
            final(self).capture_samples_us@.len() == 0,
            *final(self) == (DeliveryCounters {
                session_started: true,
                capture_samples_us: final(self).capture_samples_us,
                ..interval_reset(*old(self))
            }),
    {
        self.reset_interval();
        self.session_started = true;
    }

    /// One more capture attempt.
    pub fn record_capture_attempt(&mut self)
        requires
            old(self).capture_attempts < u32::MAX,
        ensures
            *final(self) == (DeliveryCounters { capture_attempts: (old(self).capture_attempts + 1) as u32, ..*old(self) }),
    {
        self.capture_attempts = self.capture_attempts + 1;
    }

    /// One more successful capture, which took `elapsed_us`.
    pub fn record_capture_success(&mut self, elapsed_us: u64)
        requires
            old(self).capture_successes < u32::MAX,
        ensures
            final(self).capture_samples_us@ == old(self).capture_samples_us@.push(elapsed_us),
            *final(self) == (DeliveryCounters {
                capture_successes: (old(self).capture_successes + 1) as u32,
                capture_samples_us: final(self).capture_samples_us,
                ..*old(self)
            }),
    {
        self.capture_successes = self.capture_successes + 1;
        self.capture_samples_us.push(elapsed_us);
    }

    /// One more failed capture.
    pub fn record_capture_failure(&mut self)
        requires
            old(self).capture_failures < u32::MAX,
        ensures
            *final(self) == (DeliveryCounters { capture_failures: (old(self).capture_failures + 1) as u32, ..*old(self) }),
    {
        self.capture_failures = self.capture_failures + 1;
    }

    /// A new detection output: counted, and given the next generation, which it returns.
    pub fn record_output_generated(&mut self) -> (generation: u64)
        requires
            old(self).outputs_generated < u32::MAX,
        ensures
            generation == (if old(self).output_generation == u64::MAX { 1 } else { old(self).output_generation + 1 }),
            generation >= 1,
            *final(self) == (DeliveryCounters {
                outputs_generated: (old(self).outputs_generated + 1) as u32,
                output_generation: generation,
                ..*old(self)
            }),
    {
        self.outputs_generated = self.outputs_generated + 1;
        self.output_generation = next_output_generation(self.output_generation);
        self.output_generation
    }

    /// The output of `generation` was drained, `elapsed_us` after it was generated.
    pub fn record_output_drained(&mut self, generation: u64, elapsed_us: u64)
        requires
            old(self).outputs_drained < u32::MAX,
            can_update(old(self).output_to_drain, elapsed_us),
        ensures
            *final(self) == (DeliveryCounters {
                outputs_drained: (old(self).outputs_drained + 1) as u32,
                last_drained_generation: generation,
                output_to_drain: updated(old(self).output_to_drain, elapsed_us),
                ..*old(self)
            }),
    {
        self.outputs_drained = self.outputs_drained + 1;
        self.last_drained_generation = generation;
        self.output_to_drain.update(elapsed_us);
    }

    /// The output of `generation` was offered for publishing; if `accepted`, it counts as
    /// published, with `drain_elapsed_us` since it was drained when it was.
    pub fn record_publish(&mut self, generation: u64, accepted: bool, drain_elapsed_us: Option<u64>)
        requires
            old(self).publish_calls < u32::MAX,
            accepted ==> old(self).publish_accepted < u32::MAX,
            accepted && drain_elapsed_us is Some ==> can_update(old(self).drain_to_publish, drain_elapsed_us->0),
        ensures
            !accepted ==> *final(self) == (DeliveryCounters { publish_calls: (old(self).publish_calls + 1) as u32, ..*old(self) }),
            accepted ==> *final(self) == (DeliveryCounters {
                publish_calls: (old(self).publish_calls + 1) as u32,
                publish_accepted: (old(self).publish_accepted + 1) as u32,
                last_published_generation: generation,
                drain_to_publish: match drain_elapsed_us {
                    Some(e) => updated(old(self).drain_to_publish, e),
                    None => old(self).drain_to_publish,
                },
                ..*old(self)
            }),
    {
        self.publish_calls = self.publish_calls + 1;
        if !accepted {
            return;
        }
        self.publish_accepted = self.publish_accepted + 1;
        self.last_published_generation = generation;
        match drain_elapsed_us {
            Some(e) => self.drain_to_publish.update(e),
            None => {},
        }
    }

    /// The snapshot of `generation` was applied, `publish_elapsed_us` after it was
    /// published when it was.
    pub fn record_snapshot_applied(&mut self, generation: u64, publish_elapsed_us: Option<u64>)
        requires
            old(self).snapshots_applied < u32::MAX,
            publish_elapsed_us is Some ==> can_update(old(self).publish_to_apply, publish_elapsed_us->0),
        ensures
            *final(self) == (DeliveryCounters {
                snapshots_applied: (old(self).snapshots_applied + 1) as u32,
                last_applied_generation: generation,
                last_applied: Some(generation),
                publish_to_apply: match publish_elapsed_us {
                    Some(e) => updated(old(self).publish_to_apply, e),
                    None => old(self).publish_to_apply,
                },
                ..*old(self)
            }),
    {
        self.snapshots_applied = self.snapshots_applied + 1;
        self.last_applied_generation = generation;
        self.last_applied = Some(generation);
        match publish_elapsed_us {
            Some(e) => self.publish_to_apply.update(e),
            None => {},
        }
    }

    /// The snapshot of `generation` was presented, `apply_elapsed_us` after the last
    /// snapshot was applied; returns whether it counted (a generation counts once in a row).
    pub fn record_snapshot_presented(&mut self, generation: u64, apply_elapsed_us: u64) -> (counted: bool)
        requires
            can_present(*old(self), generation, apply_elapsed_us),
        ensures
            counted == (old(self).last_presented_generation != generation),
            *final(self) == presented(*old(self), generation, apply_elapsed_us),
    {
        if self.last_presented_generation == generation {
            return false;
        }
        self.snapshots_presented = self.snapshots_presented + 1;
        self.last_presented_generation = generation;
        if self.last_applied == Some(generation) {
            self.apply_to_present.update(apply_elapsed_us);
        }
        true
    }
}

/// Presenting the same snapshot again changes nothing: a generation is counted once.
pub proof fn lemma_present_twice_counts_once(s: DeliveryCounters, generation: u64, e1: u64, e2: u64)
    ensures
        presented(presented(s, generation, e1), generation, e2) == presented(s, generation, e1),
        presented(s, generation, e1).last_presented_generation == generation,
{
}

} // verus!
