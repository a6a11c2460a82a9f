//! What holds of percentiles, summaries and listings as a whole.
use crate::generation::PassMode;
use crate::payload::contents;
use crate::protocol::Frame;
use crate::text::{all_digits, digits, digits_spell, flush_left, flush_right, is_digit};
use crate::timing::{ascending, ascending_facts, can_summarize, can_summarize_steps, csv_decode_rows, csv_header, csv_listing, csv_row, log_prefill, log_steps, nearest_rank, no_later, no_later_is_total, stage_times, summary_of, summary_row, table_row, timing_table, total, Stage, StepTiming};
use vstd::prelude::*;
use vstd::seq_lib::{commutative_foldl, lemma_fold_left_permutation, lemma_sorted_unique};

verus! {

/// How many of `values` are at most `bound`.
pub open spec fn count_at_most(values: Seq<u128>, bound: u128) -> nat
    decreases values.len(),
{
    if values.len() == 0 {
        0
    } else {
        count_at_most(values.drop_last(), bound) + if values.last() <= bound {
            1nat
        } else {
            0nat
        }
    }
}

/// How many of `values` are below `bound`.
pub open spec fn count_below(values: Seq<u128>, bound: u128) -> nat
    decreases values.len(),
{
    if values.len() == 0 {
        0
    } else {
        count_below(values.drop_last(), bound) + if values.last() < bound {
            1nat
        } else {
            0nat
        }
    }
}

/// Whether `values` stand from the smallest to the largest.
pub open spec fn is_ascending(values: Seq<u128>) -> bool {
    forall|i: int, j: int| 0 <= i <= j < values.len() ==> values[i] <= values[j]
}

proof fn count_at_most_first(values: Seq<u128>, rank: int)
    requires
        is_ascending(values),
        1 <= rank <= values.len(),
    ensures
        count_at_most(values, values[rank - 1]) >= rank,
    decreases values.len(),
{
    count_at_most_prefix(values, values[rank - 1], rank);
}

proof fn count_at_most_prefix(values: Seq<u128>, bound: u128, k: int)
    requires
        0 <= k <= values.len(),
        forall|i: int| 0 <= i < k ==> values[i] <= bound,
    ensures
        count_at_most(values, bound) >= k,
    decreases values.len(),
{
    if values.len() > 0 {
        if k < values.len() {
            count_at_most_prefix(values.drop_last(), bound, k);
        } else {
            count_at_most_prefix(values.drop_last(), bound, k - 1);
        }
    }
}

proof fn count_below_suffix(values: Seq<u128>, bound: u128, k: int)
    requires
        0 <= k <= values.len(),
        forall|i: int| k <= i < values.len() ==> values[i] >= bound,
    ensures
        count_below(values, bound) <= k,
    decreases values.len(),
{
    if values.len() > 0 {
        if k < values.len() {
            count_below_suffix(values.drop_last(), bound, k);
        } else {
            count_below_suffix(values.drop_last(), bound, k - 1);
        }
    }
}

proof fn nearest_rank_bounds(p: int, n: int)
    requires
        0 <= p <= 100,
        n > 0,
    ensures
        1 <= nearest_rank(p, n) <= n,
        100 * nearest_rank(p, n) >= p * n,
        p > 0 ==> 100 * (nearest_rank(p, n) - 1) < p * n,
        0 <= p * n,
{
    assert(0 <= p * n <= 100 * n) by (nonlinear_arith)
        requires
            0 <= p <= 100,
            n > 0,
    ;
    assert(p > 0 ==> p * n > 0) by (nonlinear_arith)
        requires
            n > 0,
    ;
}

/// The `p`-th percentile is the nearest-rank one: at least `p` percent of the values are at
/// most it, and fewer than `p` percent are below it.
pub proof fn percentile_reaches_its_share(sorted: Seq<u128>, p: int)
    requires
        is_ascending(sorted),
        sorted.len() > 0,
        0 <= p <= 100,
    ensures
        ({
            let value = sorted[nearest_rank(p, sorted.len() as int) - 1];
            &&& 100 * count_at_most(sorted, value) >= p * sorted.len()
            &&& p > 0 ==> 100 * count_below(sorted, value) < p * sorted.len()
        }),
{
    let n = sorted.len() as int;
    let rank = nearest_rank(p, n);
    nearest_rank_bounds(p, n);
    count_at_most_first(sorted, rank);
    count_below_suffix(sorted, sorted[rank - 1], rank - 1);
}

/// A higher percentile is never smaller, and the 100th is the largest value.
pub proof fn percentiles_ascend(sorted: Seq<u128>, p: int, q: int)
    requires
        is_ascending(sorted),
        sorted.len() > 0,
        0 <= p <= q <= 100,
    ensures
        sorted[nearest_rank(p, sorted.len() as int) - 1] <= sorted[nearest_rank(
            q,
            sorted.len() as int,
        ) - 1],
        sorted[nearest_rank(100, sorted.len() as int) - 1] == sorted.last(),
{
    let n = sorted.len() as int;
    nearest_rank_bounds(p, n);
    nearest_rank_bounds(q, n);
    nearest_rank_bounds(100, n);
    assert(p * n <= q * n) by (nonlinear_arith)
        requires
            p <= q,
            n > 0,
    ;
    assert(nearest_rank(p, n) <= nearest_rank(q, n));
}

proof fn total_bounds(values: Seq<u128>, low: u128, high: u128)
    requires
        forall|i: int| 0 <= i < values.len() ==> low <= #[trigger] values[i] <= high,
    ensures
        low * values.len() <= total(values) <= high * values.len(),
    decreases values.len(),
{
    if values.len() > 0 {
        let n = values.len() as int;
        let rest = values.drop_last();
        assert(forall|i: int| 0 <= i < rest.len() ==> rest[i] == values[i]);
        total_bounds(rest, low, high);
        assert(low * n == low * (n - 1) + low) by (nonlinear_arith);
        assert(high * n == high * (n - 1) + high) by (nonlinear_arith);
    }
}

/// In a summary the median, the 90th percentile and the maximum stand in order and are among
/// the values, nothing is above the maximum, and the mean lies between the smallest value and
/// the maximum.
pub proof fn summary_stands_in_order(values: Seq<u128>)
    requires
        values.len() > 0,
    ensures
        ({
            let s = summary_of(values);
            &&& s.p50 <= s.p90 <= s.max
            &&& values.contains(s.p50) && values.contains(s.p90) && values.contains(s.max)
            &&& forall|i: int| 0 <= i < values.len() ==> #[trigger] values[i] <= s.max
            &&& ascending(values)[0] <= s.mean <= s.max
            &&& forall|i: int| 0 <= i < values.len() ==> ascending(values)[0] <= #[trigger] values[i]
        }),
{
    let sorted = ascending(values);
    let n = values.len() as int;
    ascending_facts(values);
    percentiles_ascend(sorted, 50, 90);
    percentiles_ascend(sorted, 90, 100);
    nearest_rank_bounds(50, n);
    nearest_rank_bounds(90, n);
    values.to_multiset_ensures();
    sorted.to_multiset_ensures();
    assert(sorted.contains(sorted[nearest_rank(50, n) - 1]));
    assert(sorted.contains(sorted[nearest_rank(90, n) - 1]));
    assert(sorted.contains(sorted[n - 1]));
    assert forall|v: u128| sorted.contains(v) <==> values.contains(v) by {
        assert(sorted.to_multiset().count(v) == values.to_multiset().count(v));
    }
    let low = sorted[0];
    let high = sorted[n - 1];
    assert forall|i: int| 0 <= i < n implies low <= #[trigger] values[i] <= high by {
        assert(values.contains(values[i]));
        assert(sorted.contains(values[i]));
        let j = choose|j: int| 0 <= j < sorted.len() && sorted[j] == values[i];
        assert(sorted[0] <= sorted[j] <= sorted[n - 1]);
    }
    total_bounds(values, low, high);
    let t = total(values) as int;
    assert(low <= t / n <= high) by (nonlinear_arith)
        requires
            low * n <= t <= high * n,
            n > 0,
    ;
}

proof fn total_is_fold(values: Seq<u128>)
    ensures
        total(values) == values.fold_left(0nat, |sum: nat, v: u128| sum + v as nat),
    decreases values.len(),
{
    if values.len() > 0 {
        total_is_fold(values.drop_last());
    }
}

/// The order in which the steps came does not show in the summary.
pub proof fn summary_ignores_order(a: Seq<u128>, b: Seq<u128>)
    requires
        a.to_multiset() == b.to_multiset(),
    ensures
        summary_of(a) == summary_of(b),
{
    no_later_is_total();
    a.lemma_sort_by_ensures(no_later());
    b.lemma_sort_by_ensures(no_later());
    lemma_sorted_unique(ascending(a), ascending(b), no_later());
    ascending_facts(a);
    ascending_facts(b);
    let f = |sum: nat, v: u128| sum + v as nat;
    assert(commutative_foldl(f));
    lemma_fold_left_permutation(a, b, f, 0nat);
    total_is_fold(a);
    total_is_fold(b);
}

/// How often `c` stands in `s`.
pub open spec fn occurrences(s: Seq<char>, c: char) -> nat
    decreases s.len(),
{
    if s.len() == 0 {
        0
    } else {
        occurrences(s.drop_last(), c) + if s.last() == c {
            1nat
        } else {
            0nat
        }
    }
}

proof fn occurrences_add(a: Seq<char>, b: Seq<char>, c: char)
    ensures
        occurrences(a + b, c) == occurrences(a, c) + occurrences(b, c),
    decreases b.len(),
{
    if b.len() == 0 {
        assert(a + b =~= a);
    } else {
        occurrences_add(a, b.drop_last(), c);
        assert((a + b).drop_last() =~= a + b.drop_last());
    }
}

proof fn occurrences_push(s: Seq<char>, d: char, c: char)
    ensures
        occurrences(s.push(d), c) == occurrences(s, c) + if d == c {
            1nat
        } else {
            0nat
        },
{
    assert(s.push(d).drop_last() =~= s);
}

proof fn occurrences_in_digits(s: Seq<char>, c: char)
    requires
        all_digits(s),
        !is_digit(c),
    ensures
        occurrences(s, c) == 0,
    decreases s.len(),
{
    if s.len() > 0 {
        assert(is_digit(s.last()));
        assert(all_digits(s.drop_last())) by {
            assert forall|i: int| 0 <= i < s.drop_last().len() implies is_digit(
                #[trigger] s.drop_last()[i],
            ) by {
                assert(is_digit(s[i]));
            }
        }
        occurrences_in_digits(s.drop_last(), c);
    }
}

/// A field of the listing holds neither its separator nor the other one before its end.
proof fn field_separators(n: nat, end: char, c: char)
    requires
        c == ',' || c == '\n',
    ensures
        occurrences(digits(n).push(end), c) == if end == c {
            1nat
        } else {
            0nat
        },
{
    digits_spell(n);
    occurrences_in_digits(digits(n), c);
    occurrences_push(digits(n), end, c);
}

proof fn row_separators(token: nat, phase: Seq<char>, t: StepTiming, c: char)
    requires
        c == ',' || c == '\n',
        occurrences(phase, c) == 0,
    ensures
        occurrences(csv_row(token, phase, t), c) == if c == ',' {
            10nat
        } else {
            1nat
        },
{
    let f0 = digits(token).push(',');
    let f1 = f0 + phase.push(',');
    let f2 = f1 + digits(t.local_us as nat).push(',');
    let f3 = f2 + digits(t.serialize_us as nat).push(',');
    let f4 = f3 + digits(t.network_us as nat).push(',');
    let f5 = f4 + digits(t.worker_us as nat).push(',');
    let f6 = f5 + digits(t.roundtrip_us as nat).push(',');
    let f7 = f6 + digits(t.deserialize_us as nat).push(',');
    let f8 = f7 + digits(t.sample_us as nat).push(',');
    let f9 = f8 + digits(t.activation_bytes as nat).push(',');
    field_separators(token, ',', c);
    occurrences_push(phase, ',', c);
    occurrences_add(f0, phase.push(','), c);
    field_separators(t.local_us as nat, ',', c);
    occurrences_add(f1, digits(t.local_us as nat).push(','), c);
    field_separators(t.serialize_us as nat, ',', c);
    occurrences_add(f2, digits(t.serialize_us as nat).push(','), c);
    field_separators(t.network_us as nat, ',', c);
    occurrences_add(f3, digits(t.network_us as nat).push(','), c);
    field_separators(t.worker_us as nat, ',', c);
    occurrences_add(f4, digits(t.worker_us as nat).push(','), c);
    field_separators(t.roundtrip_us as nat, ',', c);
    occurrences_add(f5, digits(t.roundtrip_us as nat).push(','), c);
    field_separators(t.deserialize_us as nat, ',', c);
    occurrences_add(f6, digits(t.deserialize_us as nat).push(','), c);
    field_separators(t.sample_us as nat, ',', c);
    occurrences_add(f7, digits(t.sample_us as nat).push(','), c);
    field_separators(t.activation_bytes as nat, ',', c);
    occurrences_add(f8, digits(t.activation_bytes as nat).push(','), c);
    field_separators(t.logits_bytes as nat, '\n', c);
    occurrences_add(f9, digits(t.logits_bytes as nat).push('\n'), c);
}

/// A word of small letters and underscores holds no separator.
proof fn occurrences_in_word(s: Seq<char>, c: char)
    requires
        forall|i: int| 0 <= i < s.len() ==> #[trigger] s[i] >= '_',
        c == ',' || c == '\n',
    ensures
        occurrences(s, c) == 0,
    decreases s.len(),
{
    if s.len() > 0 {
        assert(s.last() >= '_');
        occurrences_in_word(s.drop_last(), c);
    }
}

proof fn header_separators(c: char)
    requires
        c == ',' || c == '\n',
    ensures
        occurrences(csv_header(), c) == if c == ',' {
            10nat
        } else {
            1nat
        },
{
    reveal_strlit("token");
    reveal_strlit("phase");
    reveal_strlit("local_us");
    reveal_strlit("serialize_us");
    reveal_strlit("network_us");
    reveal_strlit("worker_us");
    reveal_strlit("roundtrip_us");
    reveal_strlit("deserialize_us");
    reveal_strlit("sample_us");
    reveal_strlit("activation_bytes");
    reveal_strlit("logits_bytes");
    occurrences_in_word("token"@, c);
    occurrences_in_word("phase"@, c);
    occurrences_in_word("local_us"@, c);
    occurrences_in_word("serialize_us"@, c);
    occurrences_in_word("network_us"@, c);
    occurrences_in_word("worker_us"@, c);
    occurrences_in_word("roundtrip_us"@, c);
    occurrences_in_word("deserialize_us"@, c);
    occurrences_in_word("sample_us"@, c);
    occurrences_in_word("activation_bytes"@, c);
    occurrences_in_word("logits_bytes"@, c);
    occurrences_push("token"@, ',', c);
    occurrences_push("phase"@, ',', c);
    occurrences_push("local_us"@, ',', c);
    occurrences_push("serialize_us"@, ',', c);
    occurrences_push("network_us"@, ',', c);
    occurrences_push("worker_us"@, ',', c);
    occurrences_push("roundtrip_us"@, ',', c);
    occurrences_push("deserialize_us"@, ',', c);
    occurrences_push("sample_us"@, ',', c);
    occurrences_push("activation_bytes"@, ',', c);
    occurrences_push("logits_bytes"@, '\n', c);
    let h0 = "token"@.push(',');
    let h1 = h0 + "phase"@.push(',');
    occurrences_add(h0, "phase"@.push(','), c);
    let h2 = h1 + "local_us"@.push(',');
    occurrences_add(h1, "local_us"@.push(','), c);
    let h3 = h2 + "serialize_us"@.push(',');
    occurrences_add(h2, "serialize_us"@.push(','), c);
    let h4 = h3 + "network_us"@.push(',');
    occurrences_add(h3, "network_us"@.push(','), c);
    let h5 = h4 + "worker_us"@.push(',');
    occurrences_add(h4, "worker_us"@.push(','), c);
    let h6 = h5 + "roundtrip_us"@.push(',');
    occurrences_add(h5, "roundtrip_us"@.push(','), c);
    let h7 = h6 + "deserialize_us"@.push(',');
    occurrences_add(h6, "deserialize_us"@.push(','), c);
    let h8 = h7 + "sample_us"@.push(',');
    occurrences_add(h7, "sample_us"@.push(','), c);
    let h9 = h8 + "activation_bytes"@.push(',');
    occurrences_add(h8, "activation_bytes"@.push(','), c);
    let h10 = h9 + "logits_bytes"@.push('\n');
    occurrences_add(h9, "logits_bytes"@.push('\n'), c);
}

/// Every row of the listing has as many fields as the row of column names, eleven, and ends
/// its line.
pub proof fn csv_rows_are_of_one_width(token: nat, t: StepTiming)
    ensures
        occurrences(csv_header(), ',') == 10,
        occurrences(csv_row(token, "prefill"@, t), ',') == 10,
        occurrences(csv_row(token, "decode"@, t), ',') == 10,
        occurrences(csv_header(), '\n') == 1,
        occurrences(csv_row(token, "prefill"@, t), '\n') == 1,
        occurrences(csv_row(token, "decode"@, t), '\n') == 1,
{
    reveal_strlit("prefill");
    reveal_strlit("decode");
    occurrences_in_word("prefill"@, ',');
    occurrences_in_word("prefill"@, '\n');
    occurrences_in_word("decode"@, ',');
    occurrences_in_word("decode"@, '\n');
    header_separators(',');
    header_separators('\n');
    row_separators(token, "prefill"@, t, ',');
    row_separators(token, "prefill"@, t, '\n');
    row_separators(token, "decode"@, t, ',');
    row_separators(token, "decode"@, t, '\n');
}

/// The listing has one line for the column names, one for the prefill pass and one for each
/// decode step.
pub proof fn csv_has_a_line_per_step(prefill: StepTiming, steps: Seq<StepTiming>)
    ensures
        occurrences(csv_listing(prefill, steps), '\n') == steps.len() + 2,
    decreases steps.len(),
{
    csv_rows_are_of_one_width(0, prefill);
    csv_decode_lines(steps);
    occurrences_add(csv_header(), csv_row(0, "prefill"@, prefill), '\n');
    occurrences_add(
        csv_header() + csv_row(0, "prefill"@, prefill),
        csv_decode_rows(steps),
        '\n',
    );
}

proof fn csv_decode_lines(steps: Seq<StepTiming>)
    ensures
        occurrences(csv_decode_rows(steps), '\n') == steps.len(),
    decreases steps.len(),
{
    if steps.len() > 0 {
        csv_decode_lines(steps.drop_last());
        csv_rows_are_of_one_width(steps.len(), steps.last());
        occurrences_add(
            csv_decode_rows(steps.drop_last()),
            csv_row(steps.len(), "decode"@, steps.last()),
            '\n',
        );
    }
}

/// The times of a stage are the values of the field of that name, one for each step and in the
/// order of the steps.
#[verifier::rlimit(40)]
pub proof fn stages_read_their_field(steps: Seq<StepTiming>, i: int)
    requires
        0 <= i < steps.len(),
    ensures
        stage_times(steps, Stage::Local).len() == steps.len(),
        stage_times(steps, Stage::Local)[i] == steps[i].local_us,
        stage_times(steps, Stage::Serialize).len() == steps.len(),
        stage_times(steps, Stage::Serialize)[i] == steps[i].serialize_us,
        stage_times(steps, Stage::Network).len() == steps.len(),
        stage_times(steps, Stage::Network)[i] == steps[i].network_us,
        stage_times(steps, Stage::Worker).len() == steps.len(),
        stage_times(steps, Stage::Worker)[i] == steps[i].worker_us,
        stage_times(steps, Stage::Deserialize).len() == steps.len(),
        stage_times(steps, Stage::Deserialize)[i] == steps[i].deserialize_us,
        stage_times(steps, Stage::Sample).len() == steps.len(),
        stage_times(steps, Stage::Sample)[i] == steps[i].sample_us,
        stage_times(steps, Stage::Roundtrip).len() == steps.len(),
        stage_times(steps, Stage::Roundtrip)[i] == steps[i].roundtrip_us,
        Stage::Local.spec_of(steps[i]) == steps[i].local_us,
        Stage::Serialize.spec_of(steps[i]) == steps[i].serialize_us,
        Stage::Network.spec_of(steps[i]) == steps[i].network_us,
        Stage::Worker.spec_of(steps[i]) == steps[i].worker_us,
        Stage::Deserialize.spec_of(steps[i]) == steps[i].deserialize_us,
        Stage::Sample.spec_of(steps[i]) == steps[i].sample_us,
        Stage::Roundtrip.spec_of(steps[i]) == steps[i].roundtrip_us,
{
}

/// No steps have no times.
pub proof fn no_steps_have_no_times(stage: Stage)
    ensures
        stage_times(Seq::empty(), stage).len() == 0,
{
}

/// The nearest rank is the smallest one, from the first on, that reaches `p` percent of `n`
/// values.
pub proof fn nearest_rank_is_the_smallest(p: int, n: int, rank: int)
    requires
        0 <= p <= 100,
        n > 0,
    ensures
        1 <= nearest_rank(p, n) <= n,
        100 * nearest_rank(p, n) >= p * n,
        1 <= rank && 100 * rank >= p * n ==> nearest_rank(p, n) <= rank,
{
    nearest_rank_bounds(p, n);
}

/// What a summary says of values: the mean is the largest number that, taken once for each value,
/// does not exceed their sum; the percentiles are the values at the nearest ranks among the same
/// values in ascending order; and the maximum is the last of those.
pub proof fn summary_says_of_values(values: Seq<u128>)
    requires
        values.len() > 0,
        total(values) <= u128::MAX,
    ensures
        ({
            let n = values.len() as int;
            let s = summary_of(values);
            let sorted = ascending(values);
            &&& s.mean * n <= total(values) < (s.mean + 1) * n
            &&& sorted.to_multiset() == values.to_multiset()
            &&& sorted.len() == n
            &&& forall|i: int, j: int| 0 <= i <= j < n ==> sorted[i] <= sorted[j]
            &&& forall|r: int|
                1 <= r <= n && 100 * r >= 50 * n && 100 * (r - 1) < 50 * n ==> s.p50
                    == #[trigger] sorted[r - 1]
            &&& forall|r: int|
                1 <= r <= n && 100 * r >= 90 * n && 100 * (r - 1) < 90 * n ==> s.p90
                    == #[trigger] sorted[r - 1]
            &&& s.max == sorted[n - 1]
        }),
{
    let n = values.len() as int;
    let sum = total(values) as int;
    ascending_facts(values);
    nearest_rank_bounds(50, n);
    nearest_rank_bounds(90, n);
    let mean = sum / n;
    assert(mean * n <= sum < (mean + 1) * n && 0 <= mean <= sum) by (nonlinear_arith)
        requires
            n > 0,
            sum >= 0,
            mean == sum / n,
    ;
}

/// A sum grows by each value that is added to it.
pub proof fn total_adds_up(values: Seq<u128>, v: u128)
    ensures
        total(Seq::empty()) == 0,
        total(values.push(v)) == total(values) + v,
        can_summarize(values) <==> total(values) <= u128::MAX && 90 * values.len() <= usize::MAX,
{
    assert(values.push(v).drop_last() =~= values);
}

/// A row of the table: the label flush left in twelve columns, then four times a blank and a
/// number flush right in eight columns. Where all fit, each stands in its own columns.
#[verifier::rlimit(40)]
pub proof fn rows_have_their_columns(
    label: Seq<char>,
    a: Seq<char>,
    b: Seq<char>,
    c: Seq<char>,
    d: Seq<char>,
)
    requires
        label.len() <= 12,
        a.len() <= 8,
        b.len() <= 8,
        c.len() <= 8,
        d.len() <= 8,
    ensures
        ({
            let row = table_row(label, a, b, c, d);
            &&& row.len() == 49
            &&& row.subrange(0, label.len() as int) == label
            &&& row.subrange(21 - a.len(), 21) == a
            &&& row.subrange(30 - b.len(), 30) == b
            &&& row.subrange(39 - c.len(), 39) == c
            &&& row.subrange(48 - d.len(), 48) == d
            &&& row[48] == '\n'
            &&& forall|i: int|
                label.len() <= i < 21 - a.len() || 21 <= i < 30 - b.len() || 30 <= i < 39 - c.len()
                    || 39 <= i < 48 - d.len() ==> #[trigger] row[i] == ' '
        }),
{
    let row = table_row(label, a, b, c, d);
    assert(row.subrange(0, label.len() as int) =~= label);
    assert(row.subrange(21 - a.len(), 21) =~= a);
    assert(row.subrange(30 - b.len(), 30) =~= b);
    assert(row.subrange(39 - c.len(), 39) =~= c);
    assert(row.subrange(48 - d.len(), 48) =~= d);
}

/// A row of any width is its label and its numbers, each set in its columns, with blanks between
/// them and the end of the line behind them.
pub proof fn rows_join_their_columns(
    label: Seq<char>,
    a: Seq<char>,
    b: Seq<char>,
    c: Seq<char>,
    d: Seq<char>,
)
    ensures
        table_row(label, a, b, c, d) == flush_left(label, 12) + seq![' '] + flush_right(a, 8)
            + seq![' '] + flush_right(b, 8) + seq![' '] + flush_right(c, 8) + seq![' ']
            + flush_right(d, 8) + seq!['\n'],
{
    assert(table_row(label, a, b, c, d) =~= flush_left(label, 12) + seq![' '] + flush_right(a, 8)
        + seq![' '] + flush_right(b, 8) + seq![' '] + flush_right(c, 8) + seq![' '] + flush_right(
        d,
        8,
    ) + seq!['\n']);
}

/// The row of a stage has its mean, its median, its 90th percentile and its maximum, in this
/// order; a stage without values has no row.
pub proof fn stages_have_their_row(label: Seq<char>, values: Seq<u128>)
    ensures
        values.len() == 0 ==> summary_row(label, values).len() == 0,
        values.len() > 0 ==> summary_row(label, values) == table_row(
            label,
            digits(summary_of(values).mean as nat),
            digits(summary_of(values).p50 as nat),
            digits(summary_of(values).p90 as nat),
            digits(summary_of(values).max as nat),
        ),
{
}

#[verifier::rlimit(40)]
proof fn columns_are_fields(steps: Seq<StepTiming>)
    ensures
        stage_times(steps, Stage::Local) == Seq::new(steps.len(), |i: int| steps[i].local_us),
        stage_times(steps, Stage::Serialize) == Seq::new(steps.len(), |i: int| steps[i].serialize_us),
        stage_times(steps, Stage::Network) == Seq::new(steps.len(), |i: int| steps[i].network_us),
        stage_times(steps, Stage::Worker) == Seq::new(steps.len(), |i: int| steps[i].worker_us),
        stage_times(steps, Stage::Deserialize) == Seq::new(steps.len(), |i: int| steps[i].deserialize_us),
        stage_times(steps, Stage::Sample) == Seq::new(steps.len(), |i: int| steps[i].sample_us),
        stage_times(steps, Stage::Roundtrip) == Seq::new(steps.len(), |i: int| steps[i].roundtrip_us),
{
    assert(stage_times(steps, Stage::Local) =~= Seq::new(steps.len(), |i: int| steps[i].local_us));
    assert(stage_times(steps, Stage::Serialize) =~= Seq::new(
        steps.len(),
        |i: int| steps[i].serialize_us,
    ));
    assert(stage_times(steps, Stage::Network) =~= Seq::new(
        steps.len(),
        |i: int| steps[i].network_us,
    ));
    assert(stage_times(steps, Stage::Worker) =~= Seq::new(steps.len(), |i: int| steps[i].worker_us));
    assert(stage_times(steps, Stage::Deserialize) =~= Seq::new(
        steps.len(),
        |i: int| steps[i].deserialize_us,
    ));
    assert(stage_times(steps, Stage::Sample) =~= Seq::new(steps.len(), |i: int| steps[i].sample_us));
    assert(stage_times(steps, Stage::Roundtrip) =~= Seq::new(
        steps.len(),
        |i: int| steps[i].roundtrip_us,
    ));
}

/// The table of a run: a title with the number of steps, the names of the columns, the rows of
/// the seven stages over the steps' own fields, and the prefill pass.
#[verifier::rlimit(40)]
pub proof fn the_table_has_its_lines(prefill: StepTiming, steps: Seq<StepTiming>)
    ensures
        timing_table(prefill, steps) == "\nper-token timing over "@ + digits(steps.len())
            + " decode tokens (\u{b5}s)\n"@ + table_row("stage"@, "mean"@, "p50"@, "p90"@, "max"@)
            + summary_row("local"@, Seq::new(steps.len(), |i: int| steps[i].local_us))
            + summary_row("serialize"@, Seq::new(steps.len(), |i: int| steps[i].serialize_us))
            + summary_row("network"@, Seq::new(steps.len(), |i: int| steps[i].network_us))
            + summary_row("worker"@, Seq::new(steps.len(), |i: int| steps[i].worker_us))
            + summary_row("deserialize"@, Seq::new(steps.len(), |i: int| steps[i].deserialize_us))
            + summary_row("sample"@, Seq::new(steps.len(), |i: int| steps[i].sample_us))
            + summary_row("roundtrip"@, Seq::new(steps.len(), |i: int| steps[i].roundtrip_us))
            + ("prefill: local="@ + digits(prefill.local_us as nat) + " net="@ + digits(
            prefill.network_us as nat,
        ) + " worker="@ + digits(prefill.worker_us as nat) + " sample="@ + digits(
            prefill.sample_us as nat,
        ) + " | activation="@ + digits(prefill.activation_bytes as nat) + "B logits="@ + digits(
            prefill.logits_bytes as nat,
        ) + "B\n"@),
{
    columns_are_fields(steps);
}

/// Steps can be summarized exactly where the seven columns of the table can.
pub proof fn steps_can_be_summarized(steps: Seq<StepTiming>)
    ensures
        can_summarize_steps(steps) <==> {
            &&& can_summarize(Seq::new(steps.len(), |i: int| steps[i].local_us))
            &&& can_summarize(Seq::new(steps.len(), |i: int| steps[i].serialize_us))
            &&& can_summarize(Seq::new(steps.len(), |i: int| steps[i].network_us))
            &&& can_summarize(Seq::new(steps.len(), |i: int| steps[i].worker_us))
            &&& can_summarize(Seq::new(steps.len(), |i: int| steps[i].deserialize_us))
            &&& can_summarize(Seq::new(steps.len(), |i: int| steps[i].sample_us))
            &&& can_summarize(Seq::new(steps.len(), |i: int| steps[i].roundtrip_us))
        },
{
    columns_are_fields(steps);
}

/// The listing grows by one row for each step: its number from 1 on, `decode`, its seven times
/// and its two sizes. It starts with the column names and the row of the prefill pass, number 0.
#[verifier::rlimit(40)]
pub proof fn the_listing_grows_by_rows(prefill: StepTiming, steps: Seq<StepTiming>, t: StepTiming)
    ensures
        csv_listing(prefill, Seq::empty()) == "token"@ + seq![','] + "phase"@ + seq![',']
            + "local_us"@ + seq![','] + "serialize_us"@ + seq![','] + "network_us"@ + seq![',']
            + "worker_us"@ + seq![','] + "roundtrip_us"@ + seq![','] + "deserialize_us"@ + seq![',']
            + "sample_us"@ + seq![','] + "activation_bytes"@ + seq![','] + "logits_bytes"@
            + seq!['\n'] + (digits(0) + seq![','] + "prefill"@ + seq![','] + digits(
            prefill.local_us as nat,
        ) + seq![','] + digits(prefill.serialize_us as nat) + seq![','] + digits(
            prefill.network_us as nat,
        ) + seq![','] + digits(prefill.worker_us as nat) + seq![','] + digits(
            prefill.roundtrip_us as nat,
        ) + seq![','] + digits(prefill.deserialize_us as nat) + seq![','] + digits(
            prefill.sample_us as nat,
        ) + seq![','] + digits(prefill.activation_bytes as nat) + seq![','] + digits(
            prefill.logits_bytes as nat,
        ) + seq!['\n']),
        csv_listing(prefill, steps.push(t)) == csv_listing(prefill, steps) + (digits(
            (steps.len() + 1) as nat,
        ) + seq![','] + "decode"@ + seq![','] + digits(t.local_us as nat) + seq![','] + digits(
            t.serialize_us as nat,
        ) + seq![','] + digits(t.network_us as nat) + seq![','] + digits(t.worker_us as nat)
            + seq![','] + digits(t.roundtrip_us as nat) + seq![','] + digits(
            t.deserialize_us as nat,
        ) + seq![','] + digits(t.sample_us as nat) + seq![','] + digits(t.activation_bytes as nat)
            + seq![','] + digits(t.logits_bytes as nat) + seq!['\n']),
{
    assert(steps.push(t).drop_last() =~= steps);
    csv_row_by_field(0, "prefill"@, prefill);
    csv_row_by_field((steps.len() + 1) as nat, "decode"@, t);
    assert(csv_header() =~= "token"@ + seq![','] + "phase"@ + seq![','] + "local_us"@ + seq![',']
        + "serialize_us"@ + seq![','] + "network_us"@ + seq![','] + "worker_us"@ + seq![',']
        + "roundtrip_us"@ + seq![','] + "deserialize_us"@ + seq![','] + "sample_us"@ + seq![',']
        + "activation_bytes"@ + seq![','] + "logits_bytes"@ + seq!['\n']);
    assert(csv_listing(prefill, Seq::empty()) =~= csv_header() + csv_row(0, "prefill"@, prefill));
    assert(csv_listing(prefill, steps.push(t)) =~= csv_listing(prefill, steps) + csv_row(
        (steps.len() + 1) as nat,
        "decode"@,
        t,
    ));
}

proof fn csv_row_by_field(token: nat, phase: Seq<char>, t: StepTiming)
    ensures
        csv_row(token, phase, t) == digits(token) + seq![','] + phase + seq![','] + digits(
            t.local_us as nat,
        ) + seq![','] + digits(t.serialize_us as nat) + seq![','] + digits(t.network_us as nat)
            + seq![','] + digits(t.worker_us as nat) + seq![','] + digits(t.roundtrip_us as nat)
            + seq![','] + digits(t.deserialize_us as nat) + seq![','] + digits(t.sample_us as nat)
            + seq![','] + digits(t.activation_bytes as nat) + seq![','] + digits(
            t.logits_bytes as nat,
        ) + seq!['\n'],
{
    assert(csv_row(token, phase, t) =~= digits(token) + seq![','] + phase + seq![','] + digits(
        t.local_us as nat,
    ) + seq![','] + digits(t.serialize_us as nat) + seq![','] + digits(t.network_us as nat)
        + seq![','] + digits(t.worker_us as nat) + seq![','] + digits(t.roundtrip_us as nat)
        + seq![','] + digits(t.deserialize_us as nat) + seq![','] + digits(t.sample_us as nat)
        + seq![','] + digits(t.activation_bytes as nat) + seq![','] + digits(t.logits_bytes as nat)
        + seq!['\n']);
}

/// What an exchange measures: the size of what was sent and of what came back, the worker's time
/// as the worker says, and as network time what the round trip took beyond that. Round trip and
/// worker's time, where the worker took no longer, make up the round trip.
pub proof fn an_exchange_is_accounted(
    packing_us: u128,
    sent: Frame,
    before: StepTiming,
    trip_us: u128,
    reply: Frame,
)
    requires
        contents(sent.payload).len() <= usize::MAX,
        contents(reply.payload).len() <= usize::MAX,
    ensures
        ({
            let t = StepTiming::after_packing(packing_us, sent@);
            &&& t.serialize_us == packing_us
            &&& t.activation_bytes == contents(sent.payload).len()
            &&& t.local_us == 0 && t.roundtrip_us == 0 && t.worker_us == 0 && t.network_us == 0
            &&& t.deserialize_us == 0 && t.sample_us == 0 && t.logits_bytes == 0
        }),
        ({
            let t = before.after_reply(trip_us, reply@);
            &&& t.roundtrip_us == trip_us
            &&& t.worker_us == reply.worker_compute_us
            &&& reply.worker_compute_us <= trip_us ==> t.network_us + t.worker_us == trip_us
            &&& reply.worker_compute_us > trip_us ==> t.network_us == 0
            &&& t.logits_bytes == contents(reply.payload).len()
            &&& t.local_us == before.local_us
            &&& t.serialize_us == before.serialize_us
            &&& t.deserialize_us == before.deserialize_us
            &&& t.sample_us == before.sample_us
            &&& t.activation_bytes == before.activation_bytes
        }),
{
}

/// Nothing measured is nothing everywhere.
pub proof fn zero_is_zero()
    ensures
        ({
            let t = StepTiming::zero();
            &&& t.local_us == 0 && t.serialize_us == 0 && t.roundtrip_us == 0 && t.worker_us == 0
            &&& t.network_us == 0 && t.deserialize_us == 0 && t.sample_us == 0
            &&& t.activation_bytes == 0 && t.logits_bytes == 0
        }),
{
}

/// A log keeps the measurements of the prefill pass, and apart from it those of each decode pass
/// as they are and in order.
pub proof fn the_log_keeps_passes_apart(
    prefill: StepTiming,
    steps: Seq<StepTiming>,
    t: StepTiming,
    i: int,
)
    ensures
        log_prefill(prefill, PassMode::Prefill, t) == t,
        log_prefill(prefill, PassMode::Decode, t) == prefill,
        log_steps(steps, PassMode::Prefill, t) == steps,
        log_steps(steps, PassMode::Decode, t).len() == steps.len() + 1,
        log_steps(steps, PassMode::Decode, t).last() == t,
        0 <= i < steps.len() ==> log_steps(steps, PassMode::Decode, t)[i] == steps[i],
{
}

} // verus!
