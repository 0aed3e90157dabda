//! Chunked decode engine: the state machine that feeds a prompt through a
//! local generative model in bounded batches and generates one token at a
//! time with an early exit on a recognized output prefix.
//!
//! The engine owns the decisions of the inference loop — which slice of
//! the prompt to submit next, where the output distribution is requested,
//! when to stop, what verdict the output text carries — while the native
//! model calls themselves happen outside. A driver asks [`DecodeEngine::next_chunk`]
//! what to submit, performs the decode call, reports back through
//! [`DecodeEngine::chunk_submitted`] or [`DecodeEngine::decode_failed`],
//! and during generation hands each sampled token's text bytes to
//! [`DecodeEngine::token_generated`]. Every transition is a function of
//! the engine state and the reported event alone, which is what makes the
//! chunking laws provable.

use vstd::prelude::*;
use crate::text::{lower_spec, starts_with_spec, trim_spec, trim_bounds, window_starts_with_lower,
    utf8_lossy, utf8_lossy_of};
use crate::throttle::{ThrottleConfig, idle_for, spec_clamp_duty, spec_idle};

verus! {

/// The verdict of one triage inference: the model said keep, the model
/// said delete, or nothing recognizable came out and the conservative
/// fallback applies.
#[derive(Clone, Copy, Debug, PartialEq, Eq, Structural)]
pub enum Decision {
    Keep,
    Delete,
    FallbackKeep,
}

/// Where a decode session stands. A session is created directly into
/// `Prefilling` (an idle session is simply one that has not been created
/// yet); it leaves through `Done` with a decision, or through `Aborted`
/// when a decode call fails.
#[derive(Clone, Copy, Debug, PartialEq, Eq, Structural)]
pub enum Phase {
    Prefilling,
    Generating,
    Done(Decision),
    Aborted,
}

/// The recognized output prefixes, lowercase: a trimmed, case-folded
/// output starting with one of these ends generation early.
pub open spec fn delete_prefix() -> Seq<u8> {
    seq![100u8, 101u8, 108u8, 101u8, 116u8, 101u8]  // "delete"
}

/// See [`delete_prefix`].
pub open spec fn keep_prefix() -> Seq<u8> {
    seq![107u8, 101u8, 101u8, 112u8]  // "keep"
}

/// The early-exit rule: the verdict carried by an output buffer, if any.
/// The buffer is trimmed of ASCII whitespace and case-folded; a "delete"
/// prefix means delete, a "keep" prefix means keep, anything else is not
/// yet recognizable.
pub open spec fn spec_classify(out: Seq<u8>) -> Option<Decision> {
    let t = lower_spec(trim_spec(out));
    if starts_with_spec(t, delete_prefix()) {
        Some(Decision::Delete)
    } else if starts_with_spec(t, keep_prefix()) {
        Some(Decision::Keep)
    } else {
        None
    }
}

/// Apply the early-exit rule to an output buffer.
pub fn classify_output(out: &[u8]) -> (r: Option<Decision>)
    ensures
        r == spec_classify(out@),
{
    let (lo, hi) = trim_bounds(out);
    let delete_pat: [u8; 6] = [100, 101, 108, 101, 116, 101];
    let keep_pat: [u8; 4] = [107, 101, 101, 112];
    proof {
        assert(delete_pat@ =~= delete_prefix());
        assert(keep_pat@ =~= keep_prefix());
        assert(lower_spec(s_window(out@, lo as int, hi as int)) == lower_spec(trim_spec(out@)));
    }
    if window_starts_with_lower(out, lo, hi, delete_pat.as_slice()) {
        Some(Decision::Delete)
    } else if window_starts_with_lower(out, lo, hi, keep_pat.as_slice()) {
        Some(Decision::Keep)
    } else {
        None
    }
}

/// Helper naming the trimmed window of a buffer.
pub open spec fn s_window(s: Seq<u8>, lo: int, hi: int) -> Seq<u8> {
    s.subrange(lo, hi)
}

/// End of the prefill chunk that starts at `start`: `chunk_size` tokens,
/// or whatever remains of the prompt if that is less.
pub open spec fn spec_chunk_end(start: int, chunk_size: int, len: int) -> int {
    if start + chunk_size >= len {
        len
    } else {
        start + chunk_size
    }
}

/// One generation step as a pure function of the generation-relevant state
/// (tokens produced so far, output buffer, token budget) and the sampled
/// token's text bytes and end-of-sequence flag. Returns the new produced
/// count, the new buffer, and the phase the engine moves to.
///
/// An end-of-sequence token stops generation before emitting anything; the
/// buffer has not matched a recognized prefix (or generation would already
/// have ended), so the conservative fallback applies. Otherwise the text
/// is appended, the early-exit rule is checked, and an exhausted budget
/// falls back conservatively as well.
pub open spec fn spec_gen_step(
    produced: nat,
    buffer: Seq<u8>,
    max_tokens: nat,
    bytes: Seq<u8>,
    is_eog: bool,
) -> (nat, Seq<u8>, Phase) {
    if is_eog {
        (produced, buffer, Phase::Done(Decision::FallbackKeep))
    } else {
        let buffer2 = buffer + bytes;
        let produced2 = produced + 1;
        let phase = match spec_classify(buffer2) {
            Some(d) => Phase::Done(d),
            None => if produced2 >= max_tokens {
                Phase::Done(Decision::FallbackKeep)
            } else {
                Phase::Generating
            },
        };
        (produced2 as nat, buffer2, phase)
    }
}

/// Run [`spec_gen_step`] over a sequence of sampled-token events from a
/// given generation state, stopping at the first terminal phase; yields
/// `Generating` when the events run out first.
pub open spec fn spec_run_generation(
    produced: nat,
    buffer: Seq<u8>,
    max_tokens: nat,
    events: Seq<(Seq<u8>, bool)>,
) -> Phase
    decreases events.len(),
{
    if events.len() == 0 {
        Phase::Generating
    } else {
        let (produced2, buffer2, phase) = spec_gen_step(
            produced,
            buffer,
            max_tokens,
            events[0].0,
            events[0].1,
        );
        if phase is Generating {
            spec_run_generation(produced2, buffer2, max_tokens, events.drop_first())
        } else {
            phase
        }
    }
}

/// The prompt positions a prefill starting at `start` submits, chunk by
/// chunk, in submission order.
pub open spec fn spec_prefill_positions(start: int, len: int, chunk_size: int) -> Seq<int>
    decreases len - start,
{
    if start >= len || chunk_size < 1 {
        Seq::empty()
    } else {
        let end = spec_chunk_end(start, chunk_size, len);
        Seq::new((end - start) as nat, |i: int| start + i) + spec_prefill_positions(end, len,
            chunk_size)
    }
}

/// The prompt positions at which a prefill starting at `start` requests
/// the output distribution: the last token of a chunk, and only of the
/// final chunk.
pub open spec fn spec_logit_positions(start: int, len: int, chunk_size: int) -> Seq<int>
    decreases len - start,
{
    if start >= len || chunk_size < 1 {
        Seq::empty()
    } else {
        let end = spec_chunk_end(start, chunk_size, len);
        (if end == len {
            seq![len - 1]
        } else {
            Seq::empty()
        }) + spec_logit_positions(end, len, chunk_size)
    }
}

proof fn lemma_prefill_positions_complete(start: int, len: int, chunk_size: int)
    requires
        0 <= start <= len,
        1 <= chunk_size,
    ensures
        spec_prefill_positions(start, len, chunk_size) == Seq::new((len - start) as nat,
            |i: int| start + i),
    decreases len - start,
{
    if start >= len {
        assert(spec_prefill_positions(start, len, chunk_size) =~= Seq::new((len - start) as nat,
            |i: int| start + i));
    } else {
        let end = spec_chunk_end(start, chunk_size, len);
        lemma_prefill_positions_complete(end, len, chunk_size);
        assert(spec_prefill_positions(start, len, chunk_size) =~= Seq::new((len - start) as nat,
            |i: int| start + i));
    }
}

proof fn lemma_logit_positions_final_only(start: int, len: int, chunk_size: int)
    requires
        0 <= start < len,
        1 <= chunk_size,
    ensures
        spec_logit_positions(start, len, chunk_size) == seq![len - 1],
    decreases len - start,
{
    let end = spec_chunk_end(start, chunk_size, len);
    if end == len {
        assert(spec_logit_positions(end, len, chunk_size) =~= Seq::<int>::empty());
        assert(spec_logit_positions(start, len, chunk_size) =~= seq![len - 1]);
    } else {
        lemma_logit_positions_final_only(end, len, chunk_size);
        assert(spec_logit_positions(start, len, chunk_size) =~= seq![len - 1]);
    }
}

/// Chunk invariance, prefill half: whatever the chunk size, a prefill of a
/// prompt of `len` tokens submits every prompt position exactly once, in
/// order, and requests the output distribution only at the final position
/// — so the model state handed to generation does not depend on the chunk
/// size; chunking affects only memory and throttling granularity.
pub proof fn law_chunk_invariance(len: int, chunk_size1: int, chunk_size2: int)
    requires
        1 <= len,
        1 <= chunk_size1,
        1 <= chunk_size2,
    ensures
        spec_prefill_positions(0, len, chunk_size1) == spec_prefill_positions(0, len, chunk_size2),
        spec_logit_positions(0, len, chunk_size1) == spec_logit_positions(0, len, chunk_size2),
        spec_prefill_positions(0, len, chunk_size1) == Seq::new(len as nat, |i: int| i),
        spec_logit_positions(0, len, chunk_size1) == seq![len - 1],
{
    lemma_prefill_positions_complete(0, len, chunk_size1);
    lemma_prefill_positions_complete(0, len, chunk_size2);
    lemma_logit_positions_final_only(0, len, chunk_size1);
    lemma_logit_positions_final_only(0, len, chunk_size2);
    assert(Seq::new(len as nat, |i: int| 0 + i) =~= Seq::new(len as nat, |i: int| i));
}

/// Chunk invariance, generation half: two sessions over the same prompt
/// length and token budget enter generation in the same state whatever
/// their chunk sizes were (zero tokens produced, empty buffer, cursor at
/// the prompt length), and each generation step is a function of that
/// state and the sampled token alone — so identical token events yield
/// identical outcomes, which with a deterministic (greedy) sampler means
/// identical generated output.
pub proof fn law_generation_ignores_chunk_size(
    e1: DecodeEngine,
    e2: DecodeEngine,
    events: Seq<(Seq<u8>, bool)>,
)
    requires
        e1.wf(),
        e2.wf(),
        e1.phase_spec() is Generating,
        e2.phase_spec() is Generating,
        e1.produced_spec() == 0,
        e2.produced_spec() == 0,
        e1@ == Seq::<u8>::empty(),
        e2@ == Seq::<u8>::empty(),
        e1.prompt_len_spec() == e2.prompt_len_spec(),
        e1.config_spec().max_tokens == e2.config_spec().max_tokens,
    ensures
        e1.n_cur_spec() == e2.n_cur_spec(),
        spec_run_generation(e1.produced_spec() as nat, e1@, e1.config_spec().max_tokens as nat,
            events) == spec_run_generation(e2.produced_spec() as nat, e2@,
            e2.config_spec().max_tokens as nat, events),
{
}

/// A decode session: the prompt length in tokens, the throttle
/// configuration it was started with, the prefill cursor, the position
/// cursor `n_cur`, the count of generated tokens, the decoded output
/// buffer, and the phase.
pub struct DecodeEngine {
    config: ThrottleConfig,
    prompt_len: usize,
    next_pos: usize,
    n_cur: usize,
    produced: usize,
    buffer: Vec<u8>,
    phase: Phase,
}

impl View for DecodeEngine {
    type V = Seq<u8>;

    /// The decoded output buffer so far.
    closed spec fn view(&self) -> Seq<u8> {
        self.buffer@
    }
}

impl DecodeEngine {
    /// The configuration the session was started with; immutable for the
    /// session's lifetime.
    pub closed spec fn config_spec(&self) -> ThrottleConfig {
        self.config
    }

    /// Number of tokens in the prompt.
    pub closed spec fn prompt_len_spec(&self) -> int {
        self.prompt_len as int
    }

    /// Prompt tokens submitted so far.
    pub closed spec fn next_pos_spec(&self) -> int {
        self.next_pos as int
    }

    /// The position cursor: prompt tokens submitted plus generated tokens
    /// accepted. A generated token is fed back as a single-token batch at
    /// this position.
    pub closed spec fn n_cur_spec(&self) -> int {
        self.n_cur as int
    }

    /// Generated tokens so far.
    pub closed spec fn produced_spec(&self) -> int {
        self.produced as int
    }

    /// Where the session stands.
    pub closed spec fn phase_spec(&self) -> Phase {
        self.phase
    }

    pub open spec fn wf(&self) -> bool {
        &&& self.config_spec().wf()
        &&& 1 <= self.prompt_len_spec()
        &&& self.prompt_len_spec() + self.config_spec().max_tokens <= usize::MAX
        &&& self.phase_spec() is Prefilling ==> {
            &&& self.next_pos_spec() < self.prompt_len_spec()
            &&& self.n_cur_spec() == self.next_pos_spec()
            &&& self.produced_spec() == 0
            &&& self@.len() == 0
        }
        &&& self.phase_spec() is Generating ==> {
            &&& self.next_pos_spec() == self.prompt_len_spec()
            &&& self.produced_spec() < self.config_spec().max_tokens
            &&& self.n_cur_spec() == self.prompt_len_spec() + self.produced_spec()
        }
    }

    /// Start a decode session for a prompt of `prompt_len` tokens.
    pub fn new(prompt_len: usize, config: ThrottleConfig) -> (e: DecodeEngine)
        requires
            1 <= prompt_len,
            config.wf(),
            prompt_len + config.max_tokens <= usize::MAX,
        ensures
            e.wf(),
            e.config_spec() == config,
            e.prompt_len_spec() == prompt_len,
            e.next_pos_spec() == 0,
            e.n_cur_spec() == 0,
            e.produced_spec() == 0,
            e@.len() == 0,
            e.phase_spec() == Phase::Prefilling,
    {
        DecodeEngine {
            config,
            prompt_len,
            next_pos: 0,
            n_cur: 0,
            produced: 0,
            buffer: Vec::new(),
            phase: Phase::Prefilling,
        }
    }

    /// The next prefill chunk to submit: its start and end token indices,
    /// and whether its last token requests the output distribution.
    /// Only the final chunk does — intermediate positions never need
    /// logits, and computing them would waste the very compute the
    /// throttle is bounding.
    pub fn next_chunk(&self) -> (r: (usize, usize, bool))
        requires
            self.wf(),
            self.phase_spec() is Prefilling,
        ensures
            r.0 == self.next_pos_spec(),
            r.1 == spec_chunk_end(self.next_pos_spec(), self.config_spec().chunk_size as int,
                self.prompt_len_spec()),
            r.0 < r.1 <= self.prompt_len_spec(),
            r.2 == (r.1 == self.prompt_len_spec()),
    {
        let start = self.next_pos;
        let end = if self.prompt_len - start <= self.config.chunk_size {
            self.prompt_len
        } else {
            start + self.config.chunk_size
        };
        (start, end, end == self.prompt_len)
    }

    /// Record that the chunk returned by [`Self::next_chunk`] was decoded.
    /// The prefill cursor moves to the chunk's end; after the final chunk
    /// the position cursor equals the prompt length and generation begins
    /// — or the session finishes with the fallback at once when the token
    /// budget is zero.
    pub fn chunk_submitted(&mut self)
        requires
            old(self).wf(),
            old(self).phase_spec() is Prefilling,
        ensures
            final(self).wf(),
            final(self).config_spec() == old(self).config_spec(),
            final(self).prompt_len_spec() == old(self).prompt_len_spec(),
            final(self).produced_spec() == 0,
            final(self)@.len() == 0,
            final(self).next_pos_spec() == spec_chunk_end(old(self).next_pos_spec(),
                old(self).config_spec().chunk_size as int, old(self).prompt_len_spec()),
            final(self).n_cur_spec() == final(self).next_pos_spec(),
            final(self).phase_spec() == (if final(self).next_pos_spec()
                < old(self).prompt_len_spec() {
                Phase::Prefilling
            } else if old(self).config_spec().max_tokens == 0 {
                Phase::Done(Decision::FallbackKeep)
            } else {
                Phase::Generating
            }),
    {
        let end = if self.prompt_len - self.next_pos <= self.config.chunk_size {
            self.prompt_len
        } else {
            self.next_pos + self.config.chunk_size
        };
        self.next_pos = end;
        self.n_cur = end;
        if end == self.prompt_len {
            if self.config.max_tokens == 0 {
                self.phase = Phase::Done(Decision::FallbackKeep);
            } else {
                self.phase = Phase::Generating;
            }
        }
    }

    /// Record one sampled token during generation: its decoded text bytes
    /// and whether it is an end-of-sequence token. The transition is
    /// exactly [`spec_gen_step`] on the generation-relevant state; the
    /// position cursor advances with each accepted token.
    pub fn token_generated(&mut self, bytes: &[u8], is_eog: bool)
        requires
            old(self).wf(),
            old(self).phase_spec() is Generating,
            old(self)@.len() + bytes@.len() <= usize::MAX,
        ensures
            final(self).wf(),
            final(self).config_spec() == old(self).config_spec(),
            final(self).prompt_len_spec() == old(self).prompt_len_spec(),
            final(self).next_pos_spec() == old(self).next_pos_spec(),
            (final(self).produced_spec() as nat, final(self)@, final(self).phase_spec())
                == spec_gen_step(old(self).produced_spec() as nat, old(self)@,
                old(self).config_spec().max_tokens as nat, bytes@, is_eog),
            final(self).n_cur_spec() == if is_eog {
                old(self).n_cur_spec()
            } else {
                old(self).n_cur_spec() + 1
            },
    {
        if is_eog {
            self.phase = Phase::Done(Decision::FallbackKeep);
            return;
        }
        let mut i: usize = 0;
        while i < bytes.len()
            invariant
                0 <= i <= bytes@.len(),
                self.buffer@ == old(self)@ + bytes@.subrange(0, i as int),
                old(self)@.len() + bytes@.len() <= usize::MAX,
                self.config == old(self).config,
                self.prompt_len == old(self).prompt_len,
                self.next_pos == old(self).next_pos,
                self.n_cur == old(self).n_cur,
                self.produced == old(self).produced,
                self.phase == old(self).phase,
            decreases bytes@.len() - i,
        {
            self.buffer.push(bytes[i]);
            proof {
                assert(old(self)@ + bytes@.subrange(0, i as int + 1) =~= (old(self)@
                    + bytes@.subrange(0, i as int)).push(bytes@[i as int]));
            }
            i = i + 1;
        }
        proof {
            assert(self.buffer@ =~= old(self)@ + bytes@);
        }
        self.produced = self.produced + 1;
        self.n_cur = self.n_cur + 1;
        match classify_output(self.buffer.as_slice()) {
            Some(d) => {
                self.phase = Phase::Done(d);
            },
            None => {
                if self.produced >= self.config.max_tokens {
                    self.phase = Phase::Done(Decision::FallbackKeep);
                }
            },
        }
    }

    /// Record that a decode call failed: the session aborts and is not
    /// retried; the caller decides whether to skip the record or to
    /// propagate the failure.
    pub fn decode_failed(&mut self)
        requires
            old(self).wf(),
        ensures
            final(self).wf(),
            final(self).phase_spec() == Phase::Aborted,
            final(self)@ == old(self)@,
            final(self).config_spec() == old(self).config_spec(),
            final(self).prompt_len_spec() == old(self).prompt_len_spec(),
    {
        self.phase = Phase::Aborted;
    }

    /// The decision the session ended with, if it has ended with one.
    pub fn result(&self) -> (r: Option<Decision>)
        ensures
            r == (match self.phase_spec() {
                Phase::Done(d) => Some(d),
                _ => None::<Decision>,
            }),
    {
        match self.phase {
            Phase::Done(d) => Some(d),
            _ => None,
        }
    }

    /// Where the session stands.
    pub fn phase(&self) -> (r: Phase)
        ensures
            r == self.phase_spec(),
    {
        self.phase
    }

    /// The position cursor.
    pub fn position_cursor(&self) -> (r: usize)
        ensures
            r == self.n_cur_spec(),
    {
        self.n_cur
    }

    /// The decoded output text accumulated so far, as a string.
    pub fn response_text(&self) -> (r: String)
        ensures
            r@ == utf8_lossy_of(self@),
    {
        utf8_lossy(self.buffer.as_slice())
    }

    /// The pause owed after a non-final prefill chunk that took
    /// `active_ms` of compute: the duty-cycle idle period, but never less
    /// than the configured between-chunk delay.
    pub fn pause_after_chunk(&self, active_ms: u64) -> (r: u64)
        ensures
            r as int == {
                let idle = spec_idle(active_ms as int, spec_clamp_duty(
                    self.config_spec().target_duty as int));
                if idle >= self.config_spec().chunk_delay {
                    idle
                } else {
                    self.config_spec().chunk_delay as int
                }
            },
    {
        let idle = idle_for(active_ms, self.config.target_duty);
        if idle >= self.config.chunk_delay {
            idle
        } else {
            self.config.chunk_delay
        }
    }

    /// The pause owed after one generated token that took `active_ms` of
    /// compute: the duty-cycle idle period, but never less than the
    /// configured between-token delay.
    pub fn pause_after_token(&self, active_ms: u64) -> (r: u64)
        ensures
            r as int == {
                let idle = spec_idle(active_ms as int, spec_clamp_duty(
                    self.config_spec().target_duty as int));
                if idle >= self.config_spec().gen_delay {
                    idle
                } else {
                    self.config_spec().gen_delay as int
                }
            },
    {
        let idle = idle_for(active_ms, self.config.target_duty);
        if idle >= self.config.gen_delay {
            idle
        } else {
            self.config.gen_delay
        }
    }
}

} // verus!
