//! How a local speech model cuts audio into windows and what tokens it
//! decodes for each.
//!
//! Samples are buffered as they come; each time the buffer holds a full
//! window, the window is taken off its front and decoded; when the audio
//! ends, what is left is decoded as a last, shorter window.
use vstd::prelude::*;

verus! {

/// The tokens a decoding starts from: start of transcript, the language
/// where the model has one (a multilingual model), transcribe, and no
/// timestamps. A missing language token is `u32::MAX`.
pub fn prompt_tokens(sot: u32, language: u32, transcribe: u32, no_timestamps: u32) -> (r: Vec<u32>)
    ensures
        r@ == if language != u32::MAX {
            seq![sot, language, transcribe, no_timestamps]
        } else {
            seq![sot, transcribe, no_timestamps]
        },
{
    let mut r: Vec<u32> = Vec::new();
    r.push(sot);
    if language != u32::MAX {
        r.push(language);
    }
    r.push(transcribe);
    r.push(no_timestamps);
    r
}

/// The number of decoded tokens kept: at most `sample_len`, up to but not
/// including the end-of-transcript token.
pub open spec fn decoded_length(samples: Seq<u32>, eot: u32, sample_len: int) -> int
    decreases samples.len(),
{
    if samples.len() == 0 {
        0
    } else {
        let k = decoded_length(samples.drop_last(), eot, sample_len);
        if k == samples.len() - 1 && k < sample_len && samples[k] != eot {
            k + 1
        } else {
            k
        }
    }
}

proof fn lemma_decoded_length(samples: Seq<u32>, eot: u32, sample_len: int)
    ensures
        0 <= decoded_length(samples, eot, sample_len) <= samples.len(),
        forall|k: int| #![trigger samples[k]] 0 <= k < decoded_length(samples, eot, sample_len) ==> samples[k] != eot && k < sample_len,
        decoded_length(samples, eot, sample_len) < samples.len() ==> (decoded_length(samples, eot, sample_len)
            >= sample_len || samples[decoded_length(samples, eot, sample_len)] == eot),
    decreases samples.len(),
{
    if samples.len() > 0 {
        let p = samples.drop_last();
        lemma_decoded_length(p, eot, sample_len);
        assert forall|k: int| #![trigger samples[k]] 0 <= k < decoded_length(samples, eot, sample_len) implies samples[k] != eot && k < sample_len by {
            if k < p.len() {
                assert(samples[k] == p[k]);
            }
        }
        let g = decoded_length(p, eot, sample_len);
        if g < p.len() {
            assert(samples[g] == p[g]);
        }
    }
}

/// The tokens decoded for one window: the prompt, then the tokens the model
/// would pick in turn, at most `sample_len` of them, stopping before the
/// end-of-transcript token.
pub fn decoded_tokens(prompt: &Vec<u32>, samples: &Vec<u32>, eot: u32, sample_len: usize) -> (r: Vec<u32>)
    ensures
        r@ == prompt@ + samples@.subrange(0, decoded_length(samples@, eot, sample_len as int)),
{
    proof {
        lemma_decoded_length(samples@, eot, sample_len as int);
    }
    let ghost n = decoded_length(samples@, eot, sample_len as int);
    let mut r: Vec<u32> = Vec::new();
    let mut j: usize = 0;
    while j < prompt.len()
        invariant
            j <= prompt@.len(),
            r@ == prompt@.subrange(0, j as int),
        decreases prompt@.len() - j,
    {
        r.push(prompt[j]);
        j = j + 1;
        assert(r@ =~= prompt@.subrange(0, j as int));
    }
    let mut i: usize = 0;
    while i < sample_len && i < samples.len() && samples[i] != eot
        invariant
            i <= samples@.len(),
            i <= n,
            n == decoded_length(samples@, eot, sample_len as int),
            0 <= n <= samples@.len(),
            forall|k: int| #![trigger samples@[k]] 0 <= k < n ==> samples@[k] != eot && k < sample_len,
            n < samples@.len() ==> (n >= sample_len || samples@[n] == eot),
            r@ == prompt@ + samples@.subrange(0, i as int),
        decreases samples@.len() - i,
    {
        proof {
            if i == n {
                assert(n < samples@.len());
            }
        }
        r.push(samples[i]);
        i = i + 1;
        assert(r@ =~= prompt@ + samples@.subrange(0, i as int));
    }
    proof {
        if i < n {
            let k = i as int;
            assert(0 <= k < n);
            assert(samples@[k] != eot);
            assert(k < sample_len);
            assert(i < samples@.len());
            assert(false);
        }
    }
    r
}

/// The samples of a list of windows, one after the other.
pub open spec fn flatten<T>(windows: Seq<Seq<T>>) -> Seq<T>
    decreases windows.len(),
{
    if windows.len() == 0 {
        Seq::empty()
    } else {
        flatten(windows.drop_last()) + windows.last()
    }
}

/// Samples waiting for a full window of `size` of them.
pub struct Windower<T> {
    pub size: usize,
    pub buffer: Vec<T>,
}

impl<T: Copy> Windower<T> {
    /// The buffer holds less than a window, and windows are not empty.
    pub open spec fn wf(&self) -> bool {
        self.size > 0 && self.buffer@.len() < self.size
    }

    /// An empty buffer for windows of `size` samples.
    pub fn new(size: usize) -> (r: Windower<T>)
        requires
            size > 0,
        ensures
            r.wf(),
            r.size == size,
            r.buffer@.len() == 0,
    {
        Windower { size, buffer: Vec::new() }
    }

    /// Adds `samples` to the buffer and takes off its front every full
    /// window, in order.
    pub fn push(&mut self, samples: &Vec<T>) -> (windows: Vec<Vec<T>>)
        requires
            old(self).wf(),
        ensures
            final(self).wf(),
            final(self).size == old(self).size,
            flatten(windows@.map_values(|w: Vec<T>| w@)) + final(self).buffer@ == old(self).buffer@ + samples@,
            forall|k: int| 0 <= k < windows@.len() ==> (#[trigger] windows@[k])@.len() == old(self).size,
    {
        let ghost all = old(self).buffer@ + samples@;
        let mut windows: Vec<Vec<T>> = Vec::new();
        let mut current: Vec<T> = Vec::new();
        let mut j: usize = 0;
        while j < self.buffer.len()
            invariant
                j <= self.buffer@.len(),
                self.buffer@ == old(self).buffer@,
                current@ == self.buffer@.subrange(0, j as int),
            decreases self.buffer@.len() - j,
        {
            current.push(self.buffer[j]);
            j = j + 1;
            assert(current@ =~= self.buffer@.subrange(0, j as int));
        }
        assert(current@ =~= old(self).buffer@);
        let mut i: usize = 0;
        while i < samples.len()
            invariant
                self.size == old(self).size,
                self.size > 0,
                i <= samples@.len(),
                all == old(self).buffer@ + samples@,
                current@.len() < self.size,
                flatten(windows@.map_values(|w: Vec<T>| w@)) + current@ == all.subrange(0, old(self).buffer@.len() + i),
                forall|k: int| 0 <= k < windows@.len() ==> (#[trigger] windows@[k])@.len() == self.size,
            decreases samples@.len() - i,
        {
            let ghost w0 = windows@;
            current.push(samples[i]);
            i = i + 1;
            assert(all.subrange(0, old(self).buffer@.len() + i) =~= all.subrange(0, old(self).buffer@.len() + i - 1).push(samples@[i - 1]));
            if current.len() == self.size {
                let full = current;
                current = Vec::new();
                windows.push(full);
                assert(windows@.map_values(|w: Vec<T>| w@).drop_last() =~= w0.map_values(|w: Vec<T>| w@));
                assert(flatten(windows@.map_values(|w: Vec<T>| w@)) + current@ =~= flatten(w0.map_values(|w: Vec<T>| w@)) + full@);
            }
        }
        assert(all.subrange(0, (old(self).buffer@.len() + samples@.len()) as int) =~= all);
        self.buffer = current;
        windows
    }

    /// Takes what is left in the buffer, if anything, as a last window.
    pub fn finish(&mut self) -> (last: Option<Vec<T>>)
        requires
            old(self).wf(),
        ensures
            final(self).wf(),
            final(self).size == old(self).size,
            final(self).buffer@.len() == 0,
            match last {
                Some(w) => w@ == old(self).buffer@ && w@.len() > 0,
                None => old(self).buffer@.len() == 0,
            },
    {
        if self.buffer.len() == 0 {
            None
        } else {
            let mut rest: Vec<T> = Vec::new();
            let mut j: usize = 0;
            while j < self.buffer.len()
                invariant
                    j <= self.buffer@.len(),
                    self.buffer@ == old(self).buffer@,
                    rest@ == self.buffer@.subrange(0, j as int),
                decreases self.buffer@.len() - j,
            {
                rest.push(self.buffer[j]);
                j = j + 1;
                assert(rest@ =~= self.buffer@.subrange(0, j as int));
            }
            assert(rest@ =~= old(self).buffer@);
            self.buffer = Vec::new();
            Some(rest)
        }
    }
}

} // verus!
