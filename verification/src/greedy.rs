//! The text that greedy decoding writes, and when a transcript stops where it should.
use vstd::prelude::*;

verus! {

/// What a model would write after `context` if it always took its first choice: up to `max`
/// tokens, and none behind `eos`. `choice` is the model's first choice after a context.
pub open spec fn greedy_text(
    choice: spec_fn(Seq<u32>) -> u32,
    context: Seq<u32>,
    eos: u32,
    max: nat,
) -> Seq<u32>
    decreases max,
{
    if max == 0 {
        Seq::empty()
    } else {
        let token = choice(context);
        if token == eos {
            seq![token]
        } else {
            seq![token] + greedy_text(choice, context.push(token), eos, (max - 1) as nat)
        }
    }
}

/// Whether `shown` is a beginning of the greedy text after `prompt` that the rest of the text
/// can be joined to.
pub open spec fn greedy_so_far(
    choice: spec_fn(Seq<u32>) -> u32,
    prompt: Seq<u32>,
    eos: u32,
    max: nat,
    shown: Seq<u32>,
) -> bool {
    &&& shown.len() <= max
    &&& greedy_text(choice, prompt, eos, max) == shown + greedy_text(
        choice,
        prompt + shown,
        eos,
        (max - shown.len()) as nat,
    )
}

/// Nothing shown is a beginning of every greedy text.
pub proof fn greedy_at_start(choice: spec_fn(Seq<u32>) -> u32, prompt: Seq<u32>, eos: u32, max: nat)
    ensures
        greedy_so_far(choice, prompt, eos, max, Seq::empty()),
{
    assert(prompt + Seq::<u32>::empty() =~= prompt);
    assert(Seq::<u32>::empty() + greedy_text(choice, prompt, eos, max) =~= greedy_text(
        choice,
        prompt,
        eos,
        max,
    ));
}

/// One more greedy choice is one more token of the greedy text, and the text is complete where
/// the choice ends it or was the last one allowed.
pub proof fn greedy_goes_on(
    choice: spec_fn(Seq<u32>) -> u32,
    prompt: Seq<u32>,
    eos: u32,
    max: nat,
    shown: Seq<u32>,
    token: u32,
)
    requires
        greedy_so_far(choice, prompt, eos, max, shown),
        shown.len() < max,
        token == choice(prompt + shown),
    ensures
        token == eos ==> greedy_text(choice, prompt, eos, max) == shown.push(token),
        token != eos ==> greedy_so_far(choice, prompt, eos, max, shown.push(token)),
        shown.len() + 1 == max ==> greedy_text(choice, prompt, eos, max) == shown.push(token),
{
    let left = (max - shown.len()) as nat;
    let rest = greedy_text(choice, prompt + shown, eos, left);
    assert((prompt + shown).push(token) =~= prompt + shown.push(token));
    if token == eos {
        assert(shown + rest =~= shown.push(token));
    } else {
        let after = greedy_text(choice, prompt + shown.push(token), eos, (left - 1) as nat);
        assert(rest == seq![token] + after);
        assert(shown + rest =~= shown.push(token) + after);
        if left == 1 {
            assert(after =~= Seq::<u32>::empty());
            assert(shown.push(token) + after =~= shown.push(token));
        }
    }
}

/// Whether a transcript shows what was sampled and stops where it should: it shows the
/// samples in order from the first on, up to `max` of them, none behind `eos`, and it stops
/// only at `eos` or at `max`.
pub open spec fn stops_right(shown: Seq<u32>, sampled: Seq<u32>, eos: u32, max: nat) -> bool {
    &&& shown.len() <= sampled.len()
    &&& shown == sampled.take(shown.len() as int)
    &&& shown.len() <= max
    &&& forall|i: int| 0 <= i < shown.len() - 1 ==> #[trigger] shown[i] != eos
    &&& shown.len() == max || (shown.len() > 0 && shown.last() == eos)
}

/// How many samples there are up to the first `eos`, that one with them. `None` where there is
/// no `eos` among them.
pub open spec fn first_eos(sampled: Seq<u32>, eos: u32) -> Option<nat>
    decreases sampled.len(),
{
    if sampled.len() == 0 {
        None
    } else if sampled[0] == eos {
        Some(1)
    } else {
        match first_eos(sampled.skip(1), eos) {
            Some(n) => Some(n + 1),
            None => None,
        }
    }
}

/// How many samples are shown: all up to the first `eos`, and no more than `max`.
pub open spec fn shown_count(sampled: Seq<u32>, eos: u32, max: nat) -> nat {
    match first_eos(sampled, eos) {
        Some(e) => if e < max {
            e
        } else {
            max
        },
        None => max,
    }
}

/// The first `eos` is the one that no other is before.
pub proof fn first_eos_is_first(sampled: Seq<u32>, eos: u32)
    ensures
        match first_eos(sampled, eos) {
            Some(e) => {
                &&& 1 <= e <= sampled.len()
                &&& sampled[e - 1] == eos
                &&& forall|i: int| 0 <= i < e - 1 ==> #[trigger] sampled[i] != eos
            },
            None => forall|i: int| 0 <= i < sampled.len() ==> #[trigger] sampled[i] != eos,
        },
    decreases sampled.len(),
{
    if sampled.len() > 0 && sampled[0] != eos {
        let rest = sampled.skip(1);
        first_eos_is_first(rest, eos);
        assert(forall|i: int| 1 <= i < sampled.len() ==> #[trigger] sampled[i] == rest[i - 1]);
    }
}

/// A transcript that stops where it should shows exactly as many samples as there are to show.
pub proof fn right_stop_fixes_the_count(shown: Seq<u32>, sampled: Seq<u32>, eos: u32, max: nat)
    requires
        stops_right(shown, sampled, eos, max),
    ensures
        shown.len() == shown_count(sampled, eos, max),
{
    first_eos_is_first(sampled, eos);
    assert(forall|i: int| 0 <= i < shown.len() ==> #[trigger] shown[i] == sampled[i]);
    if let Some(e) = first_eos(sampled, eos) {
        if e < shown.len() {
            assert(shown[e - 1] == eos);
        }
    }
    if shown.len() < max {
        assert(sampled[shown.len() - 1] == eos);
    }
}

/// Whether sampling stops as soon as it can: right at the shown `eos`, or with the one sample
/// behind `max` shown tokens that are none.
pub open spec fn samples_no_more(shown: Seq<u32>, sampled: Seq<u32>, eos: u32, max: nat) -> bool {
    ||| sampled == shown && shown.len() > 0 && shown.last() == eos
    ||| {
        &&& shown.len() == max
        &&& sampled.len() == max + 1
        &&& forall|i: int| 0 <= i < shown.len() ==> #[trigger] shown[i] != eos
    }
}

/// How many decode passes there are: as many as samples before the first `eos`, and no more than
/// `max`.
pub open spec fn decode_count(sampled: Seq<u32>, eos: u32, max: nat) -> nat {
    match first_eos(sampled, eos) {
        Some(e) => if e - 1 < max {
            (e - 1) as nat
        } else {
            max
        },
        None => max,
    }
}

/// Where sampling stops as soon as it can, each sample but the first took one of the decode
/// passes that there are to make.
pub proof fn right_stop_fixes_the_passes(shown: Seq<u32>, sampled: Seq<u32>, eos: u32, max: nat)
    requires
        stops_right(shown, sampled, eos, max),
        samples_no_more(shown, sampled, eos, max),
    ensures
        sampled.len() - 1 == decode_count(sampled, eos, max),
{
    first_eos_is_first(sampled, eos);
    assert(forall|i: int| 0 <= i < shown.len() ==> #[trigger] shown[i] == sampled[i]);
    if let Some(e) = first_eos(sampled, eos) {
        if e - 1 < shown.len() {
            assert(shown[e - 1] == eos);
        }
    }
    if sampled == shown && shown.len() > 0 && shown.last() == eos {
        assert(sampled[shown.len() - 1] == eos);
    }
}

/// Where a transcript should stop, it can stop in one way only.
pub proof fn stops_in_one_way(a: Seq<u32>, b: Seq<u32>, sampled: Seq<u32>, eos: u32, max: nat)
    requires
        stops_right(a, sampled, eos, max),
        stops_right(b, sampled, eos, max),
    ensures
        a == b,
{
    if a.len() < b.len() {
        assert(a.last() == sampled[a.len() - 1]);
        assert(b[a.len() - 1] == sampled[a.len() - 1]);
    } else if b.len() < a.len() {
        assert(b.last() == sampled[b.len() - 1]);
        assert(a[b.len() - 1] == sampled[b.len() - 1]);
    }
    assert(a =~= b);
}

} // verus!
