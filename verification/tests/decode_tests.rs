use cruft_crawler::decode::{classify_output, DecodeEngine, Decision, Phase};
use cruft_crawler::throttle::ThrottleConfig;

fn config(chunk_size: usize, max_tokens: usize) -> ThrottleConfig {
    ThrottleConfig { chunk_size, chunk_delay: 7, gen_delay: 11, max_tokens, target_duty: 250 }
}

/// Run the prefill to completion, returning the submitted chunks as
/// (start, end, wants_logits) triples.
fn run_prefill(engine: &mut DecodeEngine) -> Vec<(usize, usize, bool)> {
    let mut chunks = Vec::new();
    while engine.phase() == Phase::Prefilling {
        let (start, end, logits) = engine.next_chunk();
        chunks.push((start, end, logits));
        engine.chunk_submitted();
    }
    chunks
}

#[test]
fn classify_applies_trim_and_case_folding() {
    assert_eq!(classify_output(b"keep"), Some(Decision::Keep));
    assert_eq!(classify_output(b"  KEEP it around"), Some(Decision::Keep));
    assert_eq!(classify_output(b"\tDelete\n"), Some(Decision::Delete));
    assert_eq!(classify_output(b"DELETED FILES"), Some(Decision::Delete));
    assert_eq!(classify_output(b"maybe keep"), None);
    assert_eq!(classify_output(b""), None);
    assert_eq!(classify_output(b"   "), None);
}

#[test]
fn prefill_chunks_cover_prompt_and_request_logits_last() {
    for chunk_size in [1usize, 2, 3, 5, 7] {
        let mut engine = DecodeEngine::new(5, config(chunk_size, 4));
        let chunks = run_prefill(&mut engine);
        // contiguous cover of positions 0..5
        assert_eq!(chunks.first().unwrap().0, 0);
        assert_eq!(chunks.last().unwrap().1, 5);
        for w in chunks.windows(2) {
            assert_eq!(w[0].1, w[1].0);
        }
        // only the final chunk requests the output distribution
        for (i, c) in chunks.iter().enumerate() {
            assert_eq!(c.2, i == chunks.len() - 1, "chunk_size {chunk_size} chunk {i}");
        }
        assert_eq!(engine.phase(), Phase::Generating);
        assert_eq!(engine.position_cursor(), 5);
    }
}

#[test]
fn chunk_invariance_of_generated_output() {
    // chunk_size 1 and chunk_size len(prompt) give identical output for
    // the same (deterministic) sampled tokens
    let events: [(&[u8], bool); 3] = [(b" Del", false), (b"ete", false), (b" everything", false)];
    let mut results = Vec::new();
    for chunk_size in [1usize, 6] {
        let mut engine = DecodeEngine::new(6, config(chunk_size, 10));
        run_prefill(&mut engine);
        for (bytes, eog) in events.iter() {
            if engine.phase() != Phase::Generating {
                break;
            }
            engine.token_generated(bytes, *eog);
        }
        results.push((engine.phase(), engine.result(), engine.response_text(), engine.position_cursor()));
    }
    assert_eq!(results[0], results[1]);
    assert_eq!(results[0].1, Some(Decision::Delete));
}

#[test]
fn early_exit_returns_delete_without_spending_the_budget() {
    let mut engine = DecodeEngine::new(3, config(2, 10));
    run_prefill(&mut engine);
    engine.token_generated(b" De", false);
    assert_eq!(engine.phase(), Phase::Generating);
    engine.token_generated(b"lete the file", false);
    // two tokens in, eight of the budget untouched
    assert_eq!(engine.phase(), Phase::Done(Decision::Delete));
    assert_eq!(engine.result(), Some(Decision::Delete));
    assert_eq!(engine.position_cursor(), 3 + 2);
}

#[test]
fn unrecognized_output_falls_back_after_the_full_budget() {
    let mut engine = DecodeEngine::new(2, config(1, 3));
    run_prefill(&mut engine);
    engine.token_generated(b"um", false);
    engine.token_generated(b", well", false);
    assert_eq!(engine.phase(), Phase::Generating);
    engine.token_generated(b"...", false);
    assert_eq!(engine.phase(), Phase::Done(Decision::FallbackKeep));
    assert_eq!(engine.result(), Some(Decision::FallbackKeep));
}

#[test]
fn end_of_sequence_stops_before_emitting() {
    let mut engine = DecodeEngine::new(2, config(1, 5));
    run_prefill(&mut engine);
    engine.token_generated(b"hm", false);
    let cursor = engine.position_cursor();
    engine.token_generated(b"never appended", true);
    assert_eq!(engine.phase(), Phase::Done(Decision::FallbackKeep));
    assert_eq!(engine.response_text(), "hm");
    assert_eq!(engine.position_cursor(), cursor);
}

#[test]
fn decode_failure_aborts_the_session() {
    let mut engine = DecodeEngine::new(4, config(2, 5));
    let _ = engine.next_chunk();
    engine.decode_failed();
    assert_eq!(engine.phase(), Phase::Aborted);
    assert_eq!(engine.result(), None);
}

#[test]
fn zero_token_budget_falls_back_at_once() {
    let mut engine = DecodeEngine::new(2, config(1, 0));
    run_prefill(&mut engine);
    assert_eq!(engine.phase(), Phase::Done(Decision::FallbackKeep));
}

#[test]
fn response_text_decodes_utf8() {
    // multi-byte sequences come back as characters, not raw bytes
    let mut engine = DecodeEngine::new(1, config(1, 5));
    run_prefill(&mut engine);
    engine.token_generated(&[0xC3, 0xA9, 0x21], false);
    assert_eq!(engine.response_text(), "\u{e9}!");
    // malformed bytes become replacement characters
    let mut engine2 = DecodeEngine::new(1, config(1, 5));
    run_prefill(&mut engine2);
    engine2.token_generated(&[0xFF], false);
    assert_eq!(engine2.response_text(), "\u{fffd}");
}

#[test]
fn pauses_respect_the_configured_delays() {
    let engine = DecodeEngine::new(4, config(2, 5));
    // duty 250: idle(4) = 12 < chunk_delay 7? no: max(12, 7) = 12
    assert_eq!(engine.pause_after_chunk(4), 12);
    // tiny active time: the configured delay wins over the idle floor
    assert_eq!(engine.pause_after_chunk(0), 7);
    assert_eq!(engine.pause_after_token(0), 11);
    // long active time: the duty-cycle idle wins
    assert_eq!(engine.pause_after_token(100), 300);
}
