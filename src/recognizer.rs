use vstd::prelude::*;

verus! {

/// What the recognition engine reported after accepting one chunk.
#[derive(Clone, Debug)]
pub enum DecodeStep {
    /// Still listening; carries the best-effort partial transcript.
    Running(String),
    /// A pause in speech was detected; carries the best final transcript.
    Finalized(String),
    /// The engine could not process the chunk; the utterance goes on.
    Failed,
}

/// What one poll of the chunk source found.
#[derive(Clone, Debug)]
pub enum SourceEvent {
    /// A chunk arrived and was fed to the engine.
    Chunk(DecodeStep),
    /// No chunk was waiting.
    Idle,
}

/// One poll of the chunk source, stamped with the milliseconds elapsed since the utterance
/// began.
#[derive(Clone, Debug)]
pub struct TimedEvent {
    pub at_ms: u64,
    pub event: SourceEvent,
}

/// Endpointing policy of one utterance.
#[derive(Clone, Debug)]
pub struct EndpointConfig {
    /// How long silence, or a stalled producer, may last before the utterance is given up.
    pub silence_timeout_ms: u64,
    /// A one-word misfire that the engine emits on noise; never taken as a transcript.
    pub artifact: String,
}

/// The endpointing state of one utterance.
#[derive(Clone, Debug)]
pub struct Endpointer {
    pub config: EndpointConfig,
    /// When the last chunk arrived.
    pub last_data_ms: u64,
    /// Whether a partial transcript has been non-empty at some point.
    pub heard_speech: bool,
}

/// What the recognizer does after one event.
#[derive(Clone, Debug)]
pub enum Verdict {
    /// Keep polling.
    Continue,
    /// The utterance is over: the transcript, or `None` when nothing was said.
    Done(Option<String>),
}

/// A verdict as a value: `None` to keep polling, `Some(t)` once the utterance is over.
pub open spec fn verdict_view(v: Verdict) -> Option<Option<Seq<char>>> {
    match v {
        Verdict::Continue => None,
        Verdict::Done(t) => Some(opt_text(t)),
    }
}

pub open spec fn opt_text(t: Option<String>) -> Option<Seq<char>> {
    match t {
        Some(s) => Some(s@),
        None => None,
    }
}

/// At least `timeout` milliseconds lie between `since` and `now`.
pub open spec fn elapsed_at_least(now: u64, since: u64, timeout: u64) -> bool {
    now >= since && now - since >= timeout
}

/// The transcript that a final result yields: nothing for an empty result or the
/// engine's misfire token.
pub open spec fn final_transcript(text: Seq<char>, artifact: Seq<char>) -> Option<Seq<char>> {
    if text.len() == 0 || text == artifact {
        None
    } else {
        Some(text)
    }
}

/// The state after one event.
pub open spec fn next_state(st: Endpointer, ev: TimedEvent) -> Endpointer {
    match ev.event {
        SourceEvent::Idle => st,
        SourceEvent::Chunk(step) => Endpointer {
            last_data_ms: ev.at_ms,
            heard_speech: match step {
                DecodeStep::Running(p) => st.heard_speech || p@.len() > 0,
                _ => st.heard_speech,
            },
            ..st
        },
    }
}

/// The verdict after one event: `None` to keep polling.
pub open spec fn verdict_of(st: Endpointer, ev: TimedEvent) -> Option<Option<Seq<char>>> {
    let timeout = st.config.silence_timeout_ms;
    match ev.event {
        SourceEvent::Idle => if elapsed_at_least(ev.at_ms, st.last_data_ms, timeout) {
            Some(None)
        } else {
            None
        },
        SourceEvent::Chunk(DecodeStep::Running(p)) => if p@.len() == 0 && !st.heard_speech
            && ev.at_ms >= timeout {
            Some(None)
        } else {
            None
        },
        SourceEvent::Chunk(DecodeStep::Finalized(t)) => Some(
            final_transcript(t@, st.config.artifact@),
        ),
        SourceEvent::Chunk(DecodeStep::Failed) => None,
    }
}

/// The transcript of an utterance whose events are `events`: the first verdict that ends
/// it, or nothing when the source runs dry first.
pub open spec fn run_spec(st: Endpointer, events: Seq<TimedEvent>) -> Option<Seq<char>>
    decreases events.len(),
{
    if events.len() == 0 {
        None
    } else {
        match verdict_of(st, events[0]) {
            Some(t) => t,
            None => run_spec(next_state(st, events[0]), events.drop_first()),
        }
    }
}

/// The index of the event that ends the utterance, or the number of events when none does.
pub open spec fn stop_index(st: Endpointer, events: Seq<TimedEvent>) -> nat
    decreases events.len(),
{
    if events.len() == 0 {
        0
    } else {
        match verdict_of(st, events[0]) {
            Some(_) => 0,
            None => 1 + stop_index(next_state(st, events[0]), events.drop_first()),
        }
    }
}

/// The state of an utterance before any event.
pub open spec fn fresh(config: EndpointConfig) -> Endpointer {
    Endpointer { config, last_data_ms: 0, heard_speech: false }
}

/// A chunk that carries nothing but silence: the engine is running and has no words.
pub open spec fn is_silent(ev: TimedEvent) -> bool {
    match ev.event {
        SourceEvent::Chunk(DecodeStep::Running(p)) => p@.len() == 0,
        _ => false,
    }
}

/// A source that yields only silent chunks, the first within `poll_ms` of the start and
/// each next one within `poll_ms` of the one before, and that lasts at least until
/// `timeout_ms`.
pub open spec fn silent_source(events: Seq<TimedEvent>, poll_ms: nat, timeout_ms: nat) -> bool {
    &&& events.len() > 0
    &&& forall|i: int| 0 <= i < events.len() ==> is_silent(#[trigger] events[i])
    &&& events[0].at_ms <= poll_ms
    &&& forall|i: int|
        0 <= i < events.len() - 1 ==> #[trigger] events[i + 1].at_ms <= events[i].at_ms + poll_ms
    &&& events.last().at_ms >= timeout_ms
}

proof fn lemma_silent_suffix(st: Endpointer, events: Seq<TimedEvent>, prev: int, poll_ms: nat)
    requires
        !st.heard_speech,
        events.len() > 0,
        forall|i: int| 0 <= i < events.len() ==> is_silent(#[trigger] events[i]),
        forall|i: int|
            0 <= i < events.len() - 1 ==> #[trigger] events[i + 1].at_ms <= events[i].at_ms
                + poll_ms,
        events[0].at_ms <= prev + poll_ms,
        prev < st.config.silence_timeout_ms,
        events.last().at_ms >= st.config.silence_timeout_ms,
    ensures
        run_spec(st, events) == None::<Seq<char>>,
        stop_index(st, events) < events.len(),
        events[stop_index(st, events) as int].at_ms <= st.config.silence_timeout_ms + poll_ms,
    decreases events.len(),
{
    let e0 = events[0];
    assert(is_silent(events[0]));
    if e0.at_ms < st.config.silence_timeout_ms {
        let rest = events.drop_first();
        assert(events.len() > 1);
        assert forall|i: int| 0 <= i < rest.len() implies is_silent(#[trigger] rest[i]) by {
            assert(rest[i] == events[i + 1]);
        }
        assert forall|i: int| 0 <= i < rest.len() - 1 implies #[trigger] rest[i + 1].at_ms
            <= rest[i].at_ms + poll_ms by {
            assert(rest[i] == events[i + 1]);
            assert(rest[i + 1] == events[i + 2]);
        }
        assert(rest[0].at_ms <= e0.at_ms + poll_ms) by {
            assert(rest[0] == events[1]);
        }
        lemma_silent_suffix(next_state(st, e0), rest, e0.at_ms as int, poll_ms);
        let k = stop_index(next_state(st, e0), rest);
        assert(rest[k as int] == events[k + 1 as int]);
    }
}

/// Endpointing law: a chunk source that never produces non-silence ends the utterance with
/// no transcript, at the latest one polling interval after the silence window has passed.
pub proof fn lemma_silence_ends_utterance(config: EndpointConfig, events: Seq<TimedEvent>, poll_ms: nat)
    requires
        silent_source(events, poll_ms, config.silence_timeout_ms as nat),
    ensures
        run_spec(fresh(config), events) == None::<Seq<char>>,
        stop_index(fresh(config), events) < events.len(),
        events[stop_index(fresh(config), events) as int].at_ms <= config.silence_timeout_ms
            + poll_ms,
{
    assert(is_silent(events[0]));
    if config.silence_timeout_ms > 0 {
        lemma_silent_suffix(fresh(config), events, 0, poll_ms);
    }
}

/// The state after every event of `events`, in order.
pub open spec fn state_after(st: Endpointer, events: Seq<TimedEvent>) -> Endpointer
    decreases events.len(),
{
    if events.len() == 0 {
        st
    } else {
        state_after(next_state(st, events[0]), events.drop_first())
    }
}

proof fn lemma_state_after_config(st: Endpointer, events: Seq<TimedEvent>)
    ensures
        state_after(st, events).config == st.config,
    decreases events.len(),
{
    if events.len() > 0 {
        lemma_state_after_config(next_state(st, events[0]), events.drop_first());
    }
}

/// Events none of which ends the utterance leave the outcome to the events after them.
proof fn lemma_run_append(st: Endpointer, a: Seq<TimedEvent>, b: Seq<TimedEvent>)
    requires
        stop_index(st, a) == a.len(),
    ensures
        run_spec(st, a + b) == run_spec(state_after(st, a), b),
    decreases a.len(),
{
    if a.len() == 0 {
        assert(a + b =~= b);
    } else {
        assert((a + b)[0] == a[0]);
        assert((a + b).drop_first() =~= a.drop_first() + b);
        lemma_run_append(next_state(st, a[0]), a.drop_first(), b);
    }
}

/// Endpointing law: once the engine finalizes a transcript that is neither empty nor the
/// misfire token, after events none of which ended the utterance, that transcript is the
/// result, whatever the source yields afterwards.
pub proof fn lemma_finalized_transcript_returned(
    config: EndpointConfig,
    before: Seq<TimedEvent>,
    at_ms: u64,
    text: String,
    after: Seq<TimedEvent>,
)
    requires
        stop_index(fresh(config), before) == before.len(),
        text@.len() > 0,
        text@ != config.artifact@,
    ensures
        run_spec(
            fresh(config),
            before + seq![
                TimedEvent { at_ms, event: SourceEvent::Chunk(DecodeStep::Finalized(text)) },
            ] + after,
        ) == Some(text@),
{
    let ev = TimedEvent { at_ms, event: SourceEvent::Chunk(DecodeStep::Finalized(text)) };
    let rest = seq![ev] + after;
    assert(before + seq![ev] + after =~= before + rest);
    lemma_run_append(fresh(config), before, rest);
    lemma_state_after_config(fresh(config), before);
    assert(rest[0] == ev);
    let st = state_after(fresh(config), before);
    assert(verdict_of(st, ev) == Some(Some(text@)));
}

impl Endpointer {
    /// A fresh utterance: nothing heard, and the silence clock started at zero.
    pub fn new(config: EndpointConfig) -> (r: Endpointer)
        ensures
            r == fresh(config),
    {
        Endpointer { config, last_data_ms: 0, heard_speech: false }
    }

    /// Applies the endpointing policy to one event.
    pub fn step(&mut self, ev: &TimedEvent) -> (r: Verdict)
        ensures
            *final(self) == next_state(*old(self), *ev),
            verdict_view(r) == verdict_of(*old(self), *ev),
    {
        match &ev.event {
            SourceEvent::Idle => {
                if ev.at_ms >= self.last_data_ms && ev.at_ms - self.last_data_ms
                    >= self.config.silence_timeout_ms {
                    Verdict::Done(None)
                } else {
                    Verdict::Continue
                }
            },
            SourceEvent::Chunk(step) => {
                self.last_data_ms = ev.at_ms;
                match step {
                    DecodeStep::Running(p) => {
                        let empty = p.as_str().is_empty();
                        let was_heard = self.heard_speech;
                        if !empty {
                            self.heard_speech = true;
                        }
                        if empty && !was_heard && ev.at_ms >= self.config.silence_timeout_ms {
                            Verdict::Done(None)
                        } else {
                            Verdict::Continue
                        }
                    },
                    DecodeStep::Finalized(t) => {
                        if t.as_str().is_empty() || *t == self.config.artifact {
                            Verdict::Done(None)
                        } else {
                            Verdict::Done(Some(t.clone()))
                        }
                    },
                    DecodeStep::Failed => Verdict::Continue,
                }
            },
        }
    }
}

/// Runs the endpointing policy over a recorded chunk source, in order, until an event ends
/// the utterance or the source runs dry.
pub fn run_transcription(source: &Vec<TimedEvent>, config: EndpointConfig) -> (r: Option<
    String,
>)
    ensures
        opt_text(r) == run_spec(fresh(config), source@),
{
    let mut ep = Endpointer::new(config);
    let mut i: usize = 0;
    assert(source@.skip(0) =~= source@);
    while i < source.len()
        invariant
            i <= source@.len(),
            run_spec(ep, source@.skip(i as int)) == run_spec(
                fresh(config),
                source@,
            ),
        decreases source@.len() - i,
    {
        proof {
            assert(source@.skip(i as int).drop_first() =~= source@.skip(i + 1));
        }
        match ep.step(&source[i]) {
            Verdict::Done(t) => {
                return t;
            },
            Verdict::Continue => {},
        }
        i = i + 1;
    }
    None
}

} // verus!
