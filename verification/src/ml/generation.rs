//! How long a local language model generates for a prompt.
//!
//! The model gives one token after the prompt, then one more at each step;
//! generation stops after the end-of-sequence token or once the maximum
//! number of new tokens is reached (no token at all for a maximum of `0`).
use vstd::prelude::*;

verus! {

/// Whether generation goes on after `count` tokens, the last being `last`:
/// fewer than `max_new_tokens` were given and the last is not the end of
/// the sequence.
pub open spec fn goes_on(count: int, last: u32, eos: u32, max_new_tokens: int) -> bool {
    count < max_new_tokens && last != eos
}

/// Whether generation goes on after `count` tokens, the last being `last`.
pub fn keep_generating(count: usize, last: u32, eos: u32, max_new_tokens: usize) -> (r: bool)
    ensures
        r == goes_on(count as int, last, eos, max_new_tokens as int),
{
    count < max_new_tokens && last != eos
}

/// The number of tokens given when the model would sample `samples` in
/// turn: one more while generation goes on and samples are left, the first
/// one where the maximum allows any.
pub open spec fn generation_length(samples: Seq<u32>, eos: u32, max_new_tokens: int) -> int
    decreases samples.len(),
{
    if samples.len() == 0 {
        0
    } else {
        let k = generation_length(samples.drop_last(), eos, max_new_tokens);
        if k == samples.len() - 1 && (if k == 0 {
            max_new_tokens > 0
        } else {
            goes_on(k, samples[k - 1], eos, max_new_tokens)
        }) {
            k + 1
        } else {
            k
        }
    }
}

proof fn lemma_generation_length(samples: Seq<u32>, eos: u32, max_new_tokens: int)
    ensures
        0 <= generation_length(samples, eos, max_new_tokens) <= samples.len(),
        samples.len() > 0 && max_new_tokens > 0 ==> generation_length(samples, eos, max_new_tokens) > 0,
        max_new_tokens <= 0 ==> generation_length(samples, eos, max_new_tokens) == 0,
        forall|k: int|
            0 <= k < generation_length(samples, eos, max_new_tokens) - 1 ==> goes_on(k + 1, #[trigger] samples[k], eos, max_new_tokens),
        generation_length(samples, eos, max_new_tokens) < samples.len() ==> !goes_on(
            generation_length(samples, eos, max_new_tokens),
            samples[generation_length(samples, eos, max_new_tokens) - 1],
            eos,
            max_new_tokens,
        ),
    decreases samples.len(),
{
    if samples.len() > 0 {
        let p = samples.drop_last();
        lemma_generation_length(p, eos, max_new_tokens);
        assert forall|k: int|
            0 <= k < generation_length(samples, eos, max_new_tokens) - 1 implies goes_on(k + 1, #[trigger] samples[k], eos, max_new_tokens) by {
            assert(samples[k] == p[k]);
        }
        let g = generation_length(p, eos, max_new_tokens);
        if g < p.len() && g > 0 {
            assert(samples[g - 1] == p[g - 1]);
        } else if g > 0 {
            assert(samples[g - 1] == p[g - 1]);
        }
    }
}

/// The tokens given when the model would sample `samples` in turn.
pub fn generated_tokens(samples: &Vec<u32>, eos: u32, max_new_tokens: usize) -> (r: Vec<u32>)
    ensures
        r@ == samples@.subrange(0, generation_length(samples@, eos, max_new_tokens as int)),
{
    proof {
        lemma_generation_length(samples@, eos, max_new_tokens as int);
    }
    let ghost n = generation_length(samples@, eos, max_new_tokens as int);
    let mut r: Vec<u32> = Vec::new();
    if samples.len() == 0 || max_new_tokens == 0 {
        assert(r@ =~= samples@.subrange(0, n));
        return r;
    }
    r.push(samples[0]);
    let mut count: usize = 1;
    while count < samples.len() && keep_generating(count, samples[count - 1], eos, max_new_tokens)
        invariant
            1 <= count <= samples@.len(),
            count <= n,
            n == generation_length(samples@, eos, max_new_tokens as int),
            0 <= n <= samples@.len(),
            forall|k: int| 0 <= k < n - 1 ==> goes_on(k + 1, #[trigger] samples@[k], eos, max_new_tokens as int),
            n < samples@.len() ==> !goes_on(n, samples@[n - 1], eos, max_new_tokens as int),
            r@ == samples@.subrange(0, count as int),
        decreases samples@.len() - count,
    {
        r.push(samples[count]);
        count = count + 1;
        assert(r@ =~= samples@.subrange(0, count as int));
    }
    proof {
        if count < n {
            assert(goes_on(count as int, samples@[count - 1], eos, max_new_tokens as int));
        }
    }
    r
}

/// Generation never gives more than `max_new_tokens` tokens (none for
/// `0`), and the end-of-sequence token, if given, is the last one.
pub proof fn lemma_generation_bounds(samples: Seq<u32>, eos: u32, max_new_tokens: int)
    requires
        max_new_tokens >= 0,
    ensures
        generation_length(samples, eos, max_new_tokens) <= max_new_tokens,
        forall|k: int|
            0 <= k < generation_length(samples, eos, max_new_tokens) - 1 ==> #[trigger] samples[k] != eos,
{
    lemma_generation_length(samples, eos, max_new_tokens);
    let n = generation_length(samples, eos, max_new_tokens);
    if n > 1 {
        assert(goes_on((n - 2) + 1, samples[n - 2], eos, max_new_tokens));
    }
}

/// Where the repeat penalty applies: to the last `repeat_last_n` tokens, if
/// it is enabled and at least that many tokens were given; gives where that
/// window starts.
pub fn repeat_window(given: usize, apply: bool, repeat_last_n: usize) -> (r: Option<usize>)
    ensures
        r is Some <==> apply && given >= repeat_last_n,
        r matches Some(start) ==> start == given - repeat_last_n,
{
    if apply && given >= repeat_last_n {
        Some(given - repeat_last_n)
    } else {
        None
    }
}

} // verus!
