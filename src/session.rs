use vstd::prelude::*;

use crate::text::chars_of;

verus! {

/// Why a generation session ended.
#[derive(PartialEq, Eq, Structural, Clone, Copy, Debug)]
pub enum FinishReason {
    /// End of sequence, or a stop sequence was produced.
    Stop,
    /// The output budget was reached.
    Length,
    /// The backend failed.
    Error,
}

impl FinishReason {
    /// The wire name of the reason.
    pub fn as_str(&self) -> (r: &'static str)
        ensures
            r@ == finish_reason_text(*self),
    {
        match self {
            FinishReason::Stop => "stop",
            FinishReason::Length => "length",
            FinishReason::Error => "error",
        }
    }
}

pub open spec fn finish_reason_text(r: FinishReason) -> Seq<char> {
    match r {
        FinishReason::Stop => "stop"@,
        FinishReason::Length => "length"@,
        FinishReason::Error => "error"@,
    }
}

/// What a session hands to its consumer, in generation order.
pub enum GenerationEvent {
    /// A piece of generated text.
    Fragment(String),
    /// The terminal event: exactly one ends every session that is not cancelled.
    Finished { reason: FinishReason, tokens_generated: usize },
}

/// What one decode step of the backend produced.
pub enum BackendEvent {
    Piece { text: String, token: i32 },
    EndOfSequence,
    Failed(String),
}

/// What the producer does next.
pub enum SessionAction {
    /// Run one decode step of the backend and report it with `on_backend`.
    Decode,
    /// Deliver this event to the consumer and report with `on_delivery`.
    Emit(GenerationEvent),
    /// Nothing more: the session is over.
    Halt,
}

#[derive(PartialEq, Eq, Structural, Clone, Copy, Debug)]
pub enum Phase {
    Running,
    Finished,
    Cancelled,
}

/// A session as contracts see it.
pub struct SessionView {
    pub phase: Phase,
    pub produced: nat,
    pub max_output: nat,
    pub text: Seq<char>,
    pub tokens: Seq<i32>,
    pub stops: Seq<Seq<char>>,
}

/// An occurrence of `stop` ends inside `piece`, once `piece` is appended to `text`.
pub open spec fn completes_stop(text: Seq<char>, piece: Seq<char>, stop: Seq<char>) -> bool {
    &&& stop.len() > 0
    &&& exists|e: int|
        1 <= e <= piece.len() && stop.len() <= text.len() + e && #[trigger] (text + piece).subrange(
            text.len() + e - stop.len(),
            text.len() + e,
        ) == stop
}

pub open spec fn hits_stop(text: Seq<char>, piece: Seq<char>, stops: Seq<Seq<char>>) -> bool {
    exists|i: int| 0 <= i < stops.len() && completes_stop(text, piece, #[trigger] stops[i])
}

pub open spec fn finished_with(v: SessionView, reason: FinishReason) -> (SessionView, Option<GenerationEvent>) {
    (
        SessionView { phase: Phase::Finished, ..v },
        Some(GenerationEvent::Finished { reason, tokens_generated: v.produced as usize }),
    )
}

pub open spec fn advance_next(v: SessionView) -> (SessionView, SessionAction) {
    if v.phase != Phase::Running {
        (v, SessionAction::Halt)
    } else if v.produced < v.max_output {
        (v, SessionAction::Decode)
    } else {
        (
            SessionView { phase: Phase::Finished, ..v },
            SessionAction::Emit(
                GenerationEvent::Finished {
                    reason: FinishReason::Length,
                    tokens_generated: v.produced as usize,
                },
            ),
        )
    }
}

pub open spec fn backend_next(v: SessionView, ev: BackendEvent) -> (SessionView, Option<GenerationEvent>) {
    if v.phase != Phase::Running || v.produced >= v.max_output {
        (v, None)
    } else {
        match ev {
            BackendEvent::Piece { text, token } => {
                if hits_stop(v.text, text@, v.stops) {
                    finished_with(v, FinishReason::Stop)
                } else {
                    (
                        SessionView {
                            produced: v.produced + 1,
                            text: v.text + text@,
                            tokens: v.tokens.push(token),
                            ..v
                        },
                        Some(GenerationEvent::Fragment(text)),
                    )
                }
            },
            BackendEvent::EndOfSequence => finished_with(v, FinishReason::Stop),
            BackendEvent::Failed(_) => finished_with(v, FinishReason::Error),
        }
    }
}

pub open spec fn delivery_next(v: SessionView, delivered: bool) -> SessionView {
    if !delivered && v.phase == Phase::Running {
        SessionView { phase: Phase::Cancelled, ..v }
    } else {
        v
    }
}

/// One input that drives a session.
pub enum SessionInput {
    Advance,
    Backend(BackendEvent),
    Delivery(bool),
}

/// One step: the next state, the event handed to the consumer (if any), and
/// whether the backend is asked for a decode step.
pub open spec fn step(v: SessionView, input: SessionInput) -> (SessionView, Option<GenerationEvent>, bool) {
    match input {
        SessionInput::Advance => {
            let (w, a) = advance_next(v);
            match a {
                SessionAction::Emit(e) => (w, Some(e), false),
                SessionAction::Decode => (w, None, true),
                SessionAction::Halt => (w, None, false),
            }
        },
        SessionInput::Backend(ev) => {
            let (w, e) = backend_next(v, ev);
            (w, e, false)
        },
        SessionInput::Delivery(d) => (delivery_next(v, d), None, false),
    }
}

pub open spec fn is_terminal(e: Option<GenerationEvent>) -> bool {
    e matches Some(GenerationEvent::Finished { .. })
}

/// The state after `inputs`, the number of terminal events emitted, and the
/// number of decode steps asked for.
pub open spec fn run(v: SessionView, inputs: Seq<SessionInput>) -> (SessionView, nat, nat)
    decreases inputs.len(),
{
    if inputs.len() == 0 {
        (v, 0, 0)
    } else {
        let (w, terminals, decodes) = run(v, inputs.drop_last());
        let (x, e, d) = step(w, inputs.last());
        (
            x,
            if is_terminal(e) { terminals + 1 } else { terminals },
            if d { decodes + 1 } else { decodes },
        )
    }
}

proof fn lemma_step_terminal(v: SessionView, input: SessionInput)
    ensures
        is_terminal(step(v, input).1) <==> (v.phase == Phase::Running && step(v, input).0.phase
            == Phase::Finished),
        v.phase != Phase::Running ==> step(v, input).0 == v && step(v, input).1 is None
            && !step(v, input).2,
        step(v, input).0.max_output == v.max_output,
        v.produced <= v.max_output ==> step(v, input).0.produced <= v.max_output,
{
}

/// Exactly one terminal event: over any inputs, a session that starts running
/// emits one terminal event if it ends finished (completed or failed) and none
/// otherwise; never more than one.
pub proof fn lemma_one_terminal(v: SessionView, inputs: Seq<SessionInput>)
    requires
        v.phase == Phase::Running,
    ensures
        run(v, inputs).1 == (if run(v, inputs).0.phase == Phase::Finished { 1nat } else { 0nat }),
        run(v, inputs).1 <= 1,
    decreases inputs.len(),
{
    if inputs.len() > 0 {
        lemma_one_terminal(v, inputs.drop_last());
        let w = run(v, inputs.drop_last()).0;
        lemma_step_terminal(w, inputs.last());
    }
}

/// Cancellation: once the consumer is gone, no input makes the session ask
/// for another decode step or emit another event.
pub proof fn lemma_cancelled_is_silent(v: SessionView, inputs: Seq<SessionInput>)
    requires
        v.phase == Phase::Cancelled,
    ensures
        run(v, inputs).0 == v,
        run(v, inputs).1 == 0,
        run(v, inputs).2 == 0,
    decreases inputs.len(),
{
    if inputs.len() > 0 {
        lemma_cancelled_is_silent(v, inputs.drop_last());
        lemma_step_terminal(v, inputs.last());
    }
}

/// A failed delivery cancels a running session at once: its very next
/// advance halts without a decode step.
pub proof fn lemma_cancel_within_one_step(v: SessionView)
    requires
        v.phase == Phase::Running,
    ensures
        delivery_next(v, false).phase == Phase::Cancelled,
        advance_next(delivery_next(v, false)).1 is Halt,
{
}

/// The output budget holds in every state a session reaches.
pub proof fn lemma_budget_kept(v: SessionView, inputs: Seq<SessionInput>)
    requires
        v.produced <= v.max_output,
    ensures
        run(v, inputs).0.produced <= v.max_output,
        run(v, inputs).0.max_output == v.max_output,
    decreases inputs.len(),
{
    if inputs.len() > 0 {
        lemma_budget_kept(v, inputs.drop_last());
        lemma_step_terminal(run(v, inputs.drop_last()).0, inputs.last());
    }
}

/// The state of one generation request: its output budget, stop sequences,
/// what was produced so far, and whether it is running.
pub struct GenerationSession {
    max_output_tokens: usize,
    stops: Vec<Vec<char>>,
    text: String,
    text_chars: Vec<char>,
    tokens: Vec<i32>,
    produced: usize,
    phase: Phase,
    failure: Option<String>,
}

impl GenerationSession {
    pub closed spec fn view(&self) -> SessionView {
        SessionView {
            phase: self.phase,
            produced: self.produced as nat,
            max_output: self.max_output_tokens as nat,
            text: self.text@,
            tokens: self.tokens@,
            stops: self.stops@.map_values(|s: Vec<char>| s@),
        }
    }

    pub closed spec fn wf(&self) -> bool {
        &&& self.text_chars@ == self.text@
        &&& self.produced <= self.max_output_tokens
    }

    pub closed spec fn failure_message(&self) -> Option<String> {
        self.failure
    }

    /// A running session that may produce up to `max_output_tokens` fragments
    /// and stops early on any of `stop_sequences`.
    pub fn new(max_output_tokens: usize, stop_sequences: &Vec<String>) -> (r: Self)
        ensures
            r.wf(),
            r.view().phase == Phase::Running,
            r.view().produced == 0,
            r.view().max_output == max_output_tokens,
            r.view().text.len() == 0,
            r.view().tokens.len() == 0,
            r.view().stops == stop_sequences@.map_values(|s: String| s@),
            r.failure_message() is None,
    {
        let mut stops: Vec<Vec<char>> = Vec::new();
        let mut i: usize = 0;
        while i < stop_sequences.len()
            invariant
                i <= stop_sequences.len(),
                stops@.map_values(|s: Vec<char>| s@) =~= stop_sequences@.take(i as int).map_values(
                    |s: String| s@,
                ),
            decreases stop_sequences.len() - i,
        {
            let ghost before = stops@;
            let cs = chars_of(stop_sequences[i].as_str());
            stops.push(cs);
            assert(stops@.map_values(|s: Vec<char>| s@) =~= before.map_values(|s: Vec<char>| s@).push(
                stop_sequences@[i as int]@,
            ));
            assert(stop_sequences@.take(i + 1).map_values(|s: String| s@) =~= stop_sequences@.take(
                i as int,
            ).map_values(|s: String| s@).push(stop_sequences@[i as int]@));
            i = i + 1;
        }
        assert(stop_sequences@.take(i as int) =~= stop_sequences@);
        GenerationSession {
            max_output_tokens,
            stops,
            text: String::new(),
            text_chars: Vec::new(),
            tokens: Vec::new(),
            produced: 0,
            phase: Phase::Running,
            failure: None,
        }
    }

    /// The next thing the producer does: a decode step while the budget
    /// lasts, the terminal event once it is spent, and nothing after the end.
    pub fn advance(&mut self) -> (r: SessionAction)
        requires
            old(self).wf(),
        ensures
            final(self).wf(),
            (final(self).view(), r) == advance_next(old(self).view()),
            final(self).failure_message() == old(self).failure_message(),
    {
        if self.phase != Phase::Running {
            return SessionAction::Halt;
        }
        if self.produced < self.max_output_tokens {
            return SessionAction::Decode;
        }
        self.phase = Phase::Finished;
        SessionAction::Emit(
            GenerationEvent::Finished { reason: FinishReason::Length, tokens_generated: self.produced },
        )
    }

    /// Takes the outcome of a decode step. A piece becomes a fragment unless it
    /// completes a stop sequence; a stop sequence, the end of the sequence or a
    /// failure ends the session with its terminal event. Outside a decode step
    /// the event is ignored.
    pub fn on_backend(&mut self, ev: BackendEvent) -> (r: Option<GenerationEvent>)
        requires
            old(self).wf(),
        ensures
            final(self).wf(),
            (final(self).view(), r) == backend_next(old(self).view(), ev),
            match ev {
                BackendEvent::Failed(m) => if old(self).view().phase == Phase::Running
                    && old(self).view().produced < old(self).view().max_output {
                    final(self).failure_message() == Some(m)
                } else {
                    final(self).failure_message() == old(self).failure_message()
                },
                _ => final(self).failure_message() == old(self).failure_message(),
            },
    {
        if self.phase != Phase::Running || self.produced >= self.max_output_tokens {
            return None;
        }
        match ev {
            BackendEvent::Piece { text, token } => {
                let piece = chars_of(text.as_str());
                if self.hits_stop(&piece) {
                    self.phase = Phase::Finished;
                    Some(
                        GenerationEvent::Finished {
                            reason: FinishReason::Stop,
                            tokens_generated: self.produced,
                        },
                    )
                } else {
                    let mut piece = piece;
                    self.text.append(text.as_str());
                    self.text_chars.append(&mut piece);
                    self.tokens.push(token);
                    self.produced = self.produced + 1;
                    Some(GenerationEvent::Fragment(text))
                }
            },
            BackendEvent::EndOfSequence => {
                self.phase = Phase::Finished;
                Some(GenerationEvent::Finished { reason: FinishReason::Stop, tokens_generated: self.produced })
            },
            BackendEvent::Failed(m) => {
                self.phase = Phase::Finished;
                self.failure = Some(m);
                Some(GenerationEvent::Finished { reason: FinishReason::Error, tokens_generated: self.produced })
            },
        }
    }

    /// Reports whether the last event reached the consumer; a running session
    /// whose consumer is gone is cancelled.
    pub fn on_delivery(&mut self, delivered: bool)
        requires
            old(self).wf(),
        ensures
            final(self).wf(),
            final(self).view() == delivery_next(old(self).view(), delivered),
            final(self).failure_message() == old(self).failure_message(),
    {
        if !delivered && self.phase == Phase::Running {
            self.phase = Phase::Cancelled;
        }
    }

    fn hits_stop(&self, piece: &Vec<char>) -> (r: bool)
        requires
            self.wf(),
        ensures
            r == hits_stop(self.text@, piece@, self.view().stops),
    {
        let mut i: usize = 0;
        while i < self.stops.len()
            invariant
                self.wf(),
                i <= self.stops.len(),
                forall|j: int|
                    0 <= j < i ==> !completes_stop(self.text@, piece@, #[trigger] self.view().stops[j]),
            decreases self.stops.len() - i,
        {
            if completes(&self.text_chars, piece, &self.stops[i]) {
                assert(self.view().stops[i as int] == self.stops@[i as int]@);
                return true;
            }
            i = i + 1;
        }
        false
    }

    pub fn phase(&self) -> (r: Phase)
        ensures
            r == self.view().phase,
    {
        self.phase
    }

    pub fn tokens_generated(&self) -> (r: usize)
        ensures
            r == self.view().produced,
    {
        self.produced
    }

    pub fn tokens(&self) -> (r: &Vec<i32>)
        ensures
            r@ == self.view().tokens,
    {
        &self.tokens
    }

    pub fn text(&self) -> (r: &String)
        ensures
            r@ == self.view().text,
    {
        &self.text
    }

    /// The backend's message, if the session ended on a failure.
    pub fn failure(&self) -> (r: Option<&String>)
        ensures
            r matches Some(m) ==> self.failure_message() == Some(*m),
            r is None ==> self.failure_message() is None,
    {
        match &self.failure {
            Some(m) => Some(m),
            None => None,
        }
    }
}

/// Whether an occurrence of `stop` ends inside `piece` once it follows `text`.
fn completes(text: &Vec<char>, piece: &Vec<char>, stop: &Vec<char>) -> (r: bool)
    ensures
        r == completes_stop(text@, piece@, stop@),
{
    let l = stop.len();
    if l == 0 {
        return false;
    }
    let ghost whole = text@ + piece@;
    let mut k: usize = 0;
    while k < piece.len()
        invariant
            l == stop@.len() > 0,
            whole == text@ + piece@,
            k <= piece.len(),
            forall|f: int|
                1 <= f <= k && stop@.len() <= text@.len() + f ==> #[trigger] whole.subrange(
                    text@.len() + f - stop@.len(),
                    text@.len() + f,
                ) != stop@,
        decreases piece.len() - k,
    {
        let e = k + 1;
        // the occurrence would start `l - e` characters before the end of `text`
        let fits = l <= e || l - e <= text.len();
        if fits {
            let mut q: usize = 0;
            let mut same = true;
            while q < l
                invariant
                    l == stop@.len() > 0,
                    whole == text@ + piece@,
                    1 <= e <= piece.len(),
                    stop@.len() <= text@.len() + e,
                    q <= l,
                    same ==> forall|t: int|
                        0 <= t < q ==> whole[text@.len() + e - l + t] == stop@[t],
                    !same ==> whole.subrange(text@.len() + e - l, text@.len() + e) != stop@,
                decreases l - q,
            {
                let c = if e < l - q {
                    text[text.len() - (l - e - q)]
                } else {
                    piece[if l >= e { q - (l - e) } else { (e - l) + q }]
                };
                assert(c == whole[text@.len() + e - l + q]);
                if c != stop[q] {
                    same = false;
                    assert(whole.subrange(text@.len() + e - l, text@.len() + e)[q as int] != stop@[q as int]);
                }
                q = q + 1;
            }
            if same {
                assert(whole.subrange(text@.len() + e - l, text@.len() + e) =~= stop@);
                return true;
            }
        }
        k = k + 1;
    }
    false
}

} // verus!
