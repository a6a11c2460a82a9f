//! Where the time of each token goes: the measurements of a step, their summary as a table,
//! and their listing as CSV.
use crate::generation::PassMode;
use crate::payload::buf_len;
use crate::protocol::{Frame, FrameView};
use crate::text::{decimal, digits, flush_left, flush_right, push_decimal, push_flush_left, push_flush_right};
use vstd::prelude::*;
use vstd::relations::{sorted_by, total_ordering};
use vstd::seq_lib::lemma_sorted_unique;

verus! {

/// The measurements of one step, times in microseconds.
#[derive(Clone, Copy, PartialEq, Eq, Debug, Structural)]
pub struct StepTiming {
    pub local_us: u128,
    pub serialize_us: u128,
    pub roundtrip_us: u128,
    pub worker_us: u128,
    pub network_us: u128,
    pub deserialize_us: u128,
    pub sample_us: u128,
    pub activation_bytes: usize,
    pub logits_bytes: usize,
}

impl StepTiming {
    /// Nothing measured.
    pub open spec fn zero() -> StepTiming {
        StepTiming {
            local_us: 0,
            serialize_us: 0,
            roundtrip_us: 0,
            worker_us: 0,
            network_us: 0,
            deserialize_us: 0,
            sample_us: 0,
            activation_bytes: 0,
            logits_bytes: 0,
        }
    }
}

impl Default for StepTiming {
    fn default() -> (t: Self)
        ensures
            t == StepTiming::zero(),
    {
        StepTiming {
            local_us: 0,
            serialize_us: 0,
            roundtrip_us: 0,
            worker_us: 0,
            network_us: 0,
            deserialize_us: 0,
            sample_us: 0,
            activation_bytes: 0,
            logits_bytes: 0,
        }
    }
}

/// A stage of a step that the summary has a row for.
#[derive(Clone, Copy, PartialEq, Eq, Debug, Structural)]
pub enum Stage {
    Local,
    Serialize,
    Network,
    Worker,
    Deserialize,
    Sample,
    Roundtrip,
}

impl Stage {
    /// The time that a step spent in this stage.
    pub open spec fn spec_of(self, t: StepTiming) -> u128 {
        match self {
            Stage::Local => t.local_us,
            Stage::Serialize => t.serialize_us,
            Stage::Network => t.network_us,
            Stage::Worker => t.worker_us,
            Stage::Deserialize => t.deserialize_us,
            Stage::Sample => t.sample_us,
            Stage::Roundtrip => t.roundtrip_us,
        }
    }

    /// The time that a step spent in this stage.
    pub fn of(self, t: &StepTiming) -> (us: u128)
        ensures
            us == self.spec_of(*t),
    {
        match self {
            Stage::Local => t.local_us,
            Stage::Serialize => t.serialize_us,
            Stage::Network => t.network_us,
            Stage::Worker => t.worker_us,
            Stage::Deserialize => t.deserialize_us,
            Stage::Sample => t.sample_us,
            Stage::Roundtrip => t.roundtrip_us,
        }
    }
}

/// The times that the steps spent in a stage, in the order of the steps.
pub open spec fn stage_times(steps: Seq<StepTiming>, stage: Stage) -> Seq<u128> {
    steps.map_values(|t: StepTiming| stage.spec_of(t))
}

/// The sum of `values`.
pub open spec fn total(values: Seq<u128>) -> nat
    decreases values.len(),
{
    if values.len() == 0 {
        0
    } else {
        total(values.drop_last()) + values.last() as nat
    }
}

/// The order of times.
pub open spec fn no_later() -> spec_fn(u128, u128) -> bool {
    |a: u128, b: u128| a <= b
}

/// `values` from the smallest to the largest.
pub open spec fn ascending(values: Seq<u128>) -> Seq<u128> {
    values.sort_by(no_later())
}

/// How many of `n` sorted values make up `p` percent of them, and at least one.
pub open spec fn nearest_rank(p: int, n: int) -> int {
    if p * n <= 0 {
        1
    } else {
        (p * n + 99) / 100
    }
}

/// The `p`-th percentile of `sorted` by nearest rank: the value at the smallest rank that
/// reaches `p` percent of the values.
pub fn percentile(sorted: &[u128], p: usize) -> (value: u128)
    requires
        sorted@.len() > 0,
        p <= 100,
        p * sorted@.len() <= usize::MAX,
    ensures
        1 <= nearest_rank(p as int, sorted@.len() as int) <= sorted@.len(),
        value == sorted@[nearest_rank(p as int, sorted@.len() as int) - 1],
{
    let n: usize = sorted.len();
    let share: usize = p * n;
    proof {
        assert(0 <= p * n <= 100 * n) by (nonlinear_arith)
            requires
                0 <= p <= 100,
                0 <= n,
        ;
    }
    let mut rank: usize = share / 100;
    if share % 100 > 0 {
        rank = rank + 1;
    }
    if rank < 1 {
        rank = 1;
    }
    sorted[rank - 1]
}

/// `<[u128]>::sort_unstable` of std, which sorts a slice in place: afterwards it holds the
/// same values, from the smallest to the largest.
#[verifier::external_body]
fn sort_values(values: &mut Vec<u128>)
    ensures
        final(values)@.to_multiset() == old(values)@.to_multiset(),
        forall|i: int, j: int|
            0 <= i <= j < final(values)@.len() ==> final(values)@[i] <= final(values)@[j],
{
    values.sort_unstable()
}

/// What the summary says of the times of a stage.
#[derive(Clone, Copy, PartialEq, Eq, Debug, Structural)]
pub struct Summary {
    pub mean: u128,
    pub p50: u128,
    pub p90: u128,
    pub max: u128,
}

/// The mean, rounded down, two percentiles and the maximum of `values`.
pub open spec fn summary_of(values: Seq<u128>) -> Summary {
    let sorted = ascending(values);
    let n = values.len() as int;
    Summary {
        mean: (total(values) / values.len()) as u128,
        p50: sorted[nearest_rank(50, n) - 1],
        p90: sorted[nearest_rank(90, n) - 1],
        max: sorted[n - 1],
    }
}

/// Whether the arithmetic of a summary of `values` stays within its machine words.
pub open spec fn can_summarize(values: Seq<u128>) -> bool {
    total(values) <= u128::MAX && 90 * values.len() <= usize::MAX
}

pub(crate) proof fn no_later_is_total()
    ensures
        total_ordering(no_later()),
{
}

pub(crate) proof fn ascending_facts(values: Seq<u128>)
    ensures
        ascending(values).to_multiset() == values.to_multiset(),
        ascending(values).len() == values.len(),
        forall|i: int, j: int|
            0 <= i <= j < values.len() ==> ascending(values)[i] <= ascending(values)[j],
{
    no_later_is_total();
    values.lemma_sort_by_ensures(no_later());
    let sorted = ascending(values);
    values.to_multiset_ensures();
    sorted.to_multiset_ensures();
    assert forall|i: int, j: int| 0 <= i <= j < values.len() implies sorted[i] <= sorted[j] by {
        if i < j {
            let leq = no_later();
            assert(leq(sorted[i], sorted[j]));
        }
    }
}

proof fn total_monotonic(values: Seq<u128>, i: int)
    requires
        0 <= i <= values.len(),
    ensures
        total(values.take(i)) <= total(values),
    decreases values.len() - i,
{
    if i < values.len() {
        total_monotonic(values, i + 1);
        assert(values.take(i + 1).drop_last() =~= values.take(i));
    } else {
        assert(values.take(i) =~= values);
    }
}

/// Summarizes `values`, if there are any.
pub fn summarize_values(values: &Vec<u128>) -> (summary: Option<Summary>)
    requires
        can_summarize(values@),
    ensures
        summary == (if values@.len() == 0 {
            None
        } else {
            Some(summary_of(values@))
        }),
{
    let n: usize = values.len();
    if n == 0 {
        return None;
    }
    let mut sum: u128 = 0;
    let mut i: usize = 0;
    while i < n
        invariant
            i <= n == values@.len(),
            sum == total(values@.take(i as int)),
            total(values@) <= u128::MAX,
        decreases n - i,
    {
        proof {
            total_monotonic(values@, i + 1);
            assert(values@.take(i + 1).drop_last() =~= values@.take(i as int));
        }
        sum = sum + values[i];
        i = i + 1;
    }
    assert(values@.take(n as int) =~= values@);
    let mut sorted: Vec<u128> = values.clone();
    assert(sorted@ =~= values@);
    sort_values(&mut sorted);
    proof {
        no_later_is_total();
        values@.lemma_sort_by_ensures(no_later());
        assert(sorted_by(sorted@, no_later()));
        lemma_sorted_unique(sorted@, ascending(values@), no_later());
        ascending_facts(values@);
    }
    Some(
        Summary {
            mean: sum / (n as u128),
            p50: percentile(sorted.as_slice(), 50),
            p90: percentile(sorted.as_slice(), 90),
            max: sorted[n - 1],
        },
    )
}

/// A row of the table: a label, then four columns, then the end of the line.
pub open spec fn table_row(
    label: Seq<char>,
    a: Seq<char>,
    b: Seq<char>,
    c: Seq<char>,
    d: Seq<char>,
) -> Seq<char> {
    flush_left(label, 12).push(' ') + flush_right(a, 8).push(' ') + flush_right(b, 8).push(' ')
        + flush_right(c, 8).push(' ') + flush_right(d, 8).push('\n')
}

/// The row of a stage: nothing where there are no values.
pub open spec fn summary_row(label: Seq<char>, values: Seq<u128>) -> Seq<char> {
    if values.len() == 0 {
        Seq::empty()
    } else {
        let s = summary_of(values);
        table_row(
            label,
            digits(s.mean as nat),
            digits(s.p50 as nat),
            digits(s.p90 as nat),
            digits(s.max as nat),
        )
    }
}

fn push_row(out: &mut String, label: &str, a: &str, b: &str, c: &str, d: &str)
    ensures
        final(out)@ == old(out)@ + table_row(label@, a@, b@, c@, d@),
{
    push_flush_left(out, label, 12);
    out.push(' ');
    push_flush_right(out, a, 8);
    out.push(' ');
    push_flush_right(out, b, 8);
    out.push(' ');
    push_flush_right(out, c, 8);
    out.push(' ');
    push_flush_right(out, d, 8);
    out.push('\n');
    assert(out@ =~= old(out)@ + table_row(label@, a@, b@, c@, d@));
}

/// Appends the row of a stage: `label`, then mean, median, 90th percentile and maximum.
pub fn summarize(out: &mut String, label: &str, values: &Vec<u128>)
    requires
        can_summarize(values@),
    ensures
        final(out)@ == old(out)@ + summary_row(label@, values@),
{
    match summarize_values(values) {
        None => {
            assert(out@ =~= old(out)@ + summary_row(label@, values@));
        },
        Some(s) => {
            let mean = decimal(s.mean);
            let p50 = decimal(s.p50);
            let p90 = decimal(s.p90);
            let max = decimal(s.max);
            push_row(out, label, mean.as_str(), p50.as_str(), p90.as_str(), max.as_str());
        },
    }
}

/// Whether every stage of `steps` can be summarized.
pub open spec fn can_summarize_steps(steps: Seq<StepTiming>) -> bool {
    forall|stage: Stage| can_summarize(#[trigger] stage_times(steps, stage))
}

/// The times that the steps spent in a stage, in the order of the steps.
pub fn times_of(steps: &Vec<StepTiming>, stage: Stage) -> (values: Vec<u128>)
    ensures
        values@ == stage_times(steps@, stage),
{
    let mut values: Vec<u128> = Vec::new();
    let mut i: usize = 0;
    while i < steps.len()
        invariant
            i <= steps@.len(),
            values@ =~= stage_times(steps@, stage).take(i as int),
        decreases steps@.len() - i,
    {
        values.push(stage.of(&steps[i]));
        i = i + 1;
    }
    assert(stage_times(steps@, stage).take(i as int) =~= stage_times(steps@, stage));
    values
}

/// Whether `values` can be summarized.
pub fn check_summarize(values: &Vec<u128>) -> (ok: bool)
    ensures
        ok == can_summarize(values@),
{
    let mut sum: u128 = 0;
    let mut i: usize = 0;
    while i < values.len()
        invariant
            i <= values@.len(),
            sum == total(values@.take(i as int)),
        decreases values@.len() - i,
    {
        proof {
            total_monotonic(values@, i + 1);
            assert(values@.take(i + 1).drop_last() =~= values@.take(i as int));
        }
        match sum.checked_add(values[i]) {
            Some(next) => {
                sum = next;
            },
            None => {
                return false;
            },
        }
        i = i + 1;
    }
    assert(values@.take(i as int) =~= values@);
    values.len() <= usize::MAX / 90
}

/// Whether every stage of `steps` can be summarized.
pub fn check_summarize_steps(steps: &Vec<StepTiming>) -> (ok: bool)
    ensures
        ok == can_summarize_steps(steps@),
{
    let local = check_summarize(&times_of(steps, Stage::Local));
    let serialize = check_summarize(&times_of(steps, Stage::Serialize));
    let network = check_summarize(&times_of(steps, Stage::Network));
    let worker = check_summarize(&times_of(steps, Stage::Worker));
    let deserialize = check_summarize(&times_of(steps, Stage::Deserialize));
    let sample = check_summarize(&times_of(steps, Stage::Sample));
    let roundtrip = check_summarize(&times_of(steps, Stage::Roundtrip));
    local && serialize && network && worker && deserialize && sample && roundtrip
}

/// The line on the prefill pass.
pub open spec fn prefill_line(t: StepTiming) -> Seq<char> {
    "prefill: local="@ + digits(t.local_us as nat) + " net="@ + digits(t.network_us as nat)
        + " worker="@ + digits(t.worker_us as nat) + " sample="@ + digits(t.sample_us as nat)
        + " | activation="@ + digits(t.activation_bytes as nat) + "B logits="@ + digits(
        t.logits_bytes as nat,
    ) + "B\n"@
}

/// The summary of a run: a title, the table over the decode steps, and the prefill pass.
pub open spec fn timing_table(prefill: StepTiming, steps: Seq<StepTiming>) -> Seq<char> {
    "\nper-token timing over "@ + digits(steps.len()) + " decode tokens (\u{b5}s)\n"@ + table_row(
        "stage"@,
        "mean"@,
        "p50"@,
        "p90"@,
        "max"@,
    ) + summary_row("local"@, stage_times(steps, Stage::Local)) + summary_row(
        "serialize"@,
        stage_times(steps, Stage::Serialize),
    ) + summary_row("network"@, stage_times(steps, Stage::Network)) + summary_row(
        "worker"@,
        stage_times(steps, Stage::Worker),
    ) + summary_row("deserialize"@, stage_times(steps, Stage::Deserialize)) + summary_row(
        "sample"@,
        stage_times(steps, Stage::Sample),
    ) + summary_row("roundtrip"@, stage_times(steps, Stage::Roundtrip)) + prefill_line(prefill)
}

fn push_prefill_line(out: &mut String, t: &StepTiming)
    ensures
        final(out)@ == old(out)@ + prefill_line(*t),
{
    out.append("prefill: local=");
    push_decimal(out, t.local_us);
    out.append(" net=");
    push_decimal(out, t.network_us);
    out.append(" worker=");
    push_decimal(out, t.worker_us);
    out.append(" sample=");
    push_decimal(out, t.sample_us);
    out.append(" | activation=");
    push_decimal(out, t.activation_bytes as u128);
    out.append("B logits=");
    push_decimal(out, t.logits_bytes as u128);
    out.append("B\n");
    assert(out@ =~= old(out)@ + prefill_line(*t));
}

/// The summary of a run, as text.
pub fn timing_summary(prefill: &StepTiming, steps: &Vec<StepTiming>) -> (text: String)
    requires
        can_summarize_steps(steps@),
    ensures
        text@ == timing_table(*prefill, steps@),
{
    let mut out = String::new();
    out.append("\nper-token timing over ");
    push_decimal(&mut out, steps.len() as u128);
    out.append(" decode tokens (\u{b5}s)\n");
    push_row(&mut out, "stage", "mean", "p50", "p90", "max");
    summarize(&mut out, "local", &times_of(steps, Stage::Local));
    summarize(&mut out, "serialize", &times_of(steps, Stage::Serialize));
    summarize(&mut out, "network", &times_of(steps, Stage::Network));
    summarize(&mut out, "worker", &times_of(steps, Stage::Worker));
    summarize(&mut out, "deserialize", &times_of(steps, Stage::Deserialize));
    summarize(&mut out, "sample", &times_of(steps, Stage::Sample));
    summarize(&mut out, "roundtrip", &times_of(steps, Stage::Roundtrip));
    push_prefill_line(&mut out, prefill);
    assert(out@ =~= timing_table(*prefill, steps@));
    out
}

/// The names of the CSV columns.
pub open spec fn csv_header() -> Seq<char> {
    "token"@.push(',')
        + "phase"@.push(',')
        + "local_us"@.push(',')
        + "serialize_us"@.push(',')
        + "network_us"@.push(',')
        + "worker_us"@.push(',')
        + "roundtrip_us"@.push(',')
        + "deserialize_us"@.push(',')
        + "sample_us"@.push(',')
        + "activation_bytes"@.push(',')
        + "logits_bytes"@.push('\n')
}

/// The CSV row of one step.
pub open spec fn csv_row(token: nat, phase: Seq<char>, t: StepTiming) -> Seq<char> {
    digits(token).push(',') + phase.push(',') + digits(t.local_us as nat).push(',') + digits(
        t.serialize_us as nat,
    ).push(',') + digits(t.network_us as nat).push(',') + digits(t.worker_us as nat).push(',')
        + digits(t.roundtrip_us as nat).push(',') + digits(t.deserialize_us as nat).push(',')
        + digits(t.sample_us as nat).push(',') + digits(t.activation_bytes as nat).push(',')
        + digits(t.logits_bytes as nat).push('\n')
}

/// The CSV rows of the decode steps, which are counted from 1.
pub open spec fn csv_decode_rows(steps: Seq<StepTiming>) -> Seq<char>
    decreases steps.len(),
{
    if steps.len() == 0 {
        Seq::empty()
    } else {
        csv_decode_rows(steps.drop_last()) + csv_row(steps.len(), "decode"@, steps.last())
    }
}

/// The listing of a run: the column names, the prefill pass as token 0, the decode steps.
pub open spec fn csv_listing(prefill: StepTiming, steps: Seq<StepTiming>) -> Seq<char> {
    csv_header() + csv_row(0, "prefill"@, prefill) + csv_decode_rows(steps)
}

fn push_name(out: &mut String, name: &str, end: char)
    ensures
        final(out)@ == old(out)@ + name@.push(end),
{
    out.append(name);
    out.push(end);
    assert(out@ =~= old(out)@ + name@.push(end));
}

fn push_field(out: &mut String, n: u128, end: char)
    ensures
        final(out)@ == old(out)@ + digits(n as nat).push(end),
{
    push_decimal(out, n);
    out.push(end);
    assert(out@ =~= old(out)@ + digits(n as nat).push(end));
}

fn push_csv_row(out: &mut String, token: usize, phase: &str, t: &StepTiming)
    ensures
        final(out)@ == old(out)@ + csv_row(token as nat, phase@, *t),
{
    push_field(out, token as u128, ',');
    out.append(phase);
    out.push(',');
    push_field(out, t.local_us, ',');
    push_field(out, t.serialize_us, ',');
    push_field(out, t.network_us, ',');
    push_field(out, t.worker_us, ',');
    push_field(out, t.roundtrip_us, ',');
    push_field(out, t.deserialize_us, ',');
    push_field(out, t.sample_us, ',');
    push_field(out, t.activation_bytes as u128, ',');
    push_field(out, t.logits_bytes as u128, '\n');
    assert(out@ =~= old(out)@ + csv_row(token as nat, phase@, *t));
}

/// The listing of a run, as CSV text.
pub fn timing_csv(prefill: &StepTiming, steps: &Vec<StepTiming>) -> (text: String)
    ensures
        text@ == csv_listing(*prefill, steps@),
{
    let mut out = String::new();
    push_name(&mut out, "token", ',');
    push_name(&mut out, "phase", ',');
    push_name(&mut out, "local_us", ',');
    push_name(&mut out, "serialize_us", ',');
    push_name(&mut out, "network_us", ',');
    push_name(&mut out, "worker_us", ',');
    push_name(&mut out, "roundtrip_us", ',');
    push_name(&mut out, "deserialize_us", ',');
    push_name(&mut out, "sample_us", ',');
    push_name(&mut out, "activation_bytes", ',');
    push_name(&mut out, "logits_bytes", '\n');
    assert(out@ =~= csv_header());
    push_csv_row(&mut out, 0, "prefill", prefill);
    let ghost before = out@;
    let mut i: usize = 0;
    while i < steps.len()
        invariant
            i <= steps@.len(),
            out@ == before + csv_decode_rows(steps@.take(i as int)),
        decreases steps@.len() - i,
    {
        push_csv_row(&mut out, i + 1, "decode", &steps[i]);
        i = i + 1;
        proof {
            let t = steps@.take(i as int);
            assert(t.drop_last() =~= steps@.take(i - 1));
            assert(t.last() == steps@[i - 1]);
            assert(out@ =~= before + csv_decode_rows(t));
        }
    }
    assert(steps@.take(i as int) =~= steps@);
    out
}

impl StepTiming {
    /// The measurements once the hidden state is packed into `frame`.
    pub open spec fn after_packing(serialize_us: u128, frame: FrameView) -> StepTiming {
        StepTiming {
            serialize_us,
            activation_bytes: frame.payload.len() as usize,
            ..StepTiming::zero()
        }
    }

    /// The measurements once `reply` is there. What the round trip took beyond the worker's
    /// own time counts as network time, and that is nothing where the worker claims more.
    pub open spec fn after_reply(self, roundtrip_us: u128, reply: FrameView) -> StepTiming {
        StepTiming {
            roundtrip_us,
            worker_us: reply.worker_compute_us as u128,
            network_us: if roundtrip_us >= reply.worker_compute_us {
                (roundtrip_us - reply.worker_compute_us) as u128
            } else {
                0
            },
            logits_bytes: reply.payload.len() as usize,
            ..self
        }
    }

    /// Starts the measurements of an exchange with the packing of the hidden state.
    pub fn packed(serialize_us: u128, frame: &Frame) -> (t: Self)
        ensures
            t == StepTiming::after_packing(serialize_us, frame@),
            t.activation_bytes == frame@.payload.len(),
    {
        let mut t = StepTiming::default();
        t.serialize_us = serialize_us;
        t.activation_bytes = buf_len(&frame.payload);
        t
    }

    /// Adds what the worker's reply shows.
    pub fn replied(&mut self, roundtrip_us: u128, reply: &Frame)
        ensures
            *final(self) == old(self).after_reply(roundtrip_us, reply@),
            final(self).logits_bytes == reply@.payload.len(),
    {
        self.roundtrip_us = roundtrip_us;
        self.worker_us = reply.worker_compute_us as u128;
        self.network_us = self.roundtrip_us.saturating_sub(self.worker_us);
        self.logits_bytes = buf_len(&reply.payload);
    }
}

/// The measurements of a session: one prefill pass and the decode steps after it.
pub struct TimingLog {
    pub prefill: StepTiming,
    pub steps: Vec<StepTiming>,
}

impl TimingLog {
    /// A log without measurements.
    pub fn new() -> (log: Self)
        ensures
            log.prefill == StepTiming::zero(),
            log.steps@.len() == 0,
    {
        TimingLog { prefill: StepTiming::default(), steps: Vec::new() }
    }

    /// Enters the measurements of a pass: those of a decode pass behind the ones before.
    pub fn record(&mut self, mode: PassMode, t: StepTiming)
        ensures
            final(self).prefill == (if mode is Prefill {
                t
            } else {
                old(self).prefill
            }),
            final(self).prefill == log_prefill(old(self).prefill, mode, t),
            final(self).steps@ == log_steps(old(self).steps@, mode, t),
    {
        match mode {
            PassMode::Prefill => {
                self.prefill = t;
            },
            PassMode::Decode => {
                self.steps.push(t);
            },
        }
    }
}

/// The prefill pass of a log after the measurements of a pass were entered.
pub open spec fn log_prefill(prefill: StepTiming, mode: PassMode, t: StepTiming) -> StepTiming {
    match mode {
        PassMode::Prefill => t,
        PassMode::Decode => prefill,
    }
}

/// The decode steps of a log after the measurements of a pass were entered.
pub open spec fn log_steps(steps: Seq<StepTiming>, mode: PassMode, t: StepTiming) -> Seq<
    StepTiming,
> {
    match mode {
        PassMode::Prefill => steps,
        PassMode::Decode => steps.push(t),
    }
}

} // verus!
