use voice_core::recognizer::{
    run_transcription, DecodeStep, EndpointConfig, Endpointer, SourceEvent, TimedEvent, Verdict,
};

fn config() -> EndpointConfig {
    EndpointConfig { silence_timeout_ms: 3000, artifact: "huh".to_string() }
}

fn chunk(at_ms: u64, step: DecodeStep) -> TimedEvent {
    TimedEvent { at_ms, event: SourceEvent::Chunk(step) }
}

fn running(at_ms: u64, partial: &str) -> TimedEvent {
    chunk(at_ms, DecodeStep::Running(partial.to_string()))
}

fn idle(at_ms: u64) -> TimedEvent {
    TimedEvent { at_ms, event: SourceEvent::Idle }
}

#[test]
fn finalized_transcript_is_returned() {
    let source = vec![
        running(100, ""),
        running(200, "turn on"),
        chunk(300, DecodeStep::Finalized("turn on the lights".to_string())),
    ];
    assert_eq!(run_transcription(&source, config()), Some("turn on the lights".to_string()));
}

#[test]
fn finalized_alone_is_returned() {
    let source = vec![chunk(50, DecodeStep::Finalized("turn on the lights".to_string()))];
    assert_eq!(run_transcription(&source, config()), Some("turn on the lights".to_string()));
}

#[test]
fn silent_source_ends_within_one_poll_of_timeout() {
    let poll = 100u64;
    let source: Vec<TimedEvent> = (1..=100).map(|k| running(k * poll, "")).collect();
    let mut ep = Endpointer::new(config());
    let mut ended_at = None;
    for ev in &source {
        if let Verdict::Done(t) = ep.step(ev) {
            assert_eq!(t, None);
            ended_at = Some(ev.at_ms);
            break;
        }
    }
    let at = ended_at.expect("the utterance must end");
    assert!(at >= 3000 && at <= 3000 + poll);
    assert_eq!(run_transcription(&source, config()), None);
}

#[test]
fn stalled_producer_ends_utterance() {
    let source = vec![running(100, ""), idle(1000), idle(3099), idle(3100), idle(3200)];
    let mut ep = Endpointer::new(config());
    let verdicts: Vec<bool> = source.iter().map(|e| matches!(ep.step(e), Verdict::Done(_))).collect();
    assert_eq!(verdicts, vec![false, false, false, true, true]);
    assert_eq!(run_transcription(&source, config()), None);
}

#[test]
fn artifact_token_means_nothing_said() {
    let source = vec![chunk(100, DecodeStep::Finalized("huh".to_string())), running(200, "hello")];
    assert_eq!(run_transcription(&source, config()), None);
}

#[test]
fn empty_final_result_means_nothing_said() {
    let source = vec![chunk(100, DecodeStep::Finalized(String::new()))];
    assert_eq!(run_transcription(&source, config()), None);
}

#[test]
fn failed_chunk_does_not_abort() {
    let source = vec![
        chunk(100, DecodeStep::Failed),
        chunk(200, DecodeStep::Failed),
        chunk(300, DecodeStep::Finalized("what time is it".to_string())),
    ];
    assert_eq!(run_transcription(&source, config()), Some("what time is it".to_string()));
}

#[test]
fn speech_heard_keeps_waiting_past_timeout() {
    let source = vec![
        running(100, "what"),
        running(4000, ""),
        running(5000, ""),
        chunk(6000, DecodeStep::Finalized("what is the weather".to_string())),
    ];
    assert_eq!(run_transcription(&source, config()), Some("what is the weather".to_string()));
}

#[test]
fn source_running_dry_means_nothing_said() {
    let source = vec![running(100, ""), running(200, "")];
    assert_eq!(run_transcription(&source, config()), None);
    assert_eq!(run_transcription(&vec![], config()), None);
}
