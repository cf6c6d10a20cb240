//! One streaming session per utterance, as a state machine: the caller owns
//! the WebSocket and the channels, feeds what happened, and performs the
//! actions that come back.

use vstd::prelude::*;

use crate::protocol::{client_message_json, encode_client_message, ClientMessage, ServerMessage};
use crate::text::{push_str, string_from_chars};

verus! {

/// Events surfaced to the UI layer while streaming.
#[derive(Debug)]
pub enum StreamEvent {
    Ready,
    Partial(String),
    Final { text: String, raw_text: String, duration_ms: u64 },
    Error(String),
    Closed,
}

/// Little-endian bytes of one sample.
pub open spec fn sample_le_bytes(s: i16) -> Seq<u8> {
    seq![((s as u16) & 0xff) as u8, ((s as u16) >> 8) as u8]
}

/// Little-endian bytes of the samples, in order (`pcm_s16le`).
pub open spec fn pcm_bytes(s: Seq<i16>) -> Seq<u8>
    decreases s.len(),
{
    if s.len() == 0 {
        seq![]
    } else {
        pcm_bytes(s.drop_last()) + sample_le_bytes(s.last())
    }
}

pub fn pcm_to_bytes(chunk: &[i16]) -> (bytes: Vec<u8>)
    ensures
        bytes@ == pcm_bytes(chunk@),
        bytes@.len() == 2 * chunk@.len(),
{
    let mut bytes: Vec<u8> = Vec::new();
    let mut i: usize = 0;
    while i < chunk.len()
        invariant
            i <= chunk@.len(),
            bytes@ == pcm_bytes(chunk@.take(i as int)),
            bytes@.len() == 2 * i,
        decreases chunk@.len() - i,
    {
        assert(chunk@.take(i + 1).drop_last() =~= chunk@.take(i as int));
        let u = chunk[i] as u16;
        bytes.push((u & 0xff) as u8);
        bytes.push((u >> 8) as u8);
        i = i + 1;
        assert(bytes@ =~= pcm_bytes(chunk@.take(i as int)));
    }
    assert(chunk@.take(chunk@.len() as int) =~= chunk@);
    bytes
}

/// Sample `i` is carried by bytes `2i` (low) and `2i + 1` (high).
proof fn lemma_pcm_bytes_index(s: Seq<i16>, i: int)
    requires
        0 <= i < s.len(),
    ensures
        pcm_bytes(s).len() == 2 * s.len(),
        pcm_bytes(s)[2 * i] == sample_le_bytes(s[i])[0],
        pcm_bytes(s)[2 * i + 1] == sample_le_bytes(s[i])[1],
    decreases s.len(),
{
    lemma_pcm_bytes_len(s.drop_last());
    if i < s.len() - 1 {
        lemma_pcm_bytes_index(s.drop_last(), i);
    }
}

proof fn lemma_pcm_bytes_len(s: Seq<i16>)
    ensures
        pcm_bytes(s).len() == 2 * s.len(),
    decreases s.len(),
{
    if s.len() > 0 {
        lemma_pcm_bytes_len(s.drop_last());
    }
}

/// The audio frame carries exactly the samples: reading each little-endian
/// byte pair back gives the sample it came from.
pub proof fn law_pcm_round_trip(s: Seq<i16>, i: int)
    requires
        0 <= i < s.len(),
    ensures
        pcm_bytes(s).len() == 2 * s.len(),
        ((pcm_bytes(s)[2 * i] as u16) | ((pcm_bytes(s)[2 * i + 1] as u16) << 8u16)) as i16 == s[i],
{
    lemma_pcm_bytes_index(s, i);
    let x = s[i];
    assert((((((x as u16) & 0xff) as u8) as u16) | (((((x as u16) >> 8u16) as u8) as u16) << 8u16)) as i16
        == x) by (bit_vector);
}

/// The event that a server message surfaces, and whether it is the final
/// transcript.
pub open spec fn server_event(msg: ServerMessage) -> (StreamEvent, bool) {
    match msg {
        ServerMessage::Ready => (StreamEvent::Ready, false),
        ServerMessage::Partial { text } => (StreamEvent::Partial(text), false),
        ServerMessage::Final { text, raw_text, duration_ms } => (
            StreamEvent::Final { text, raw_text, duration_ms },
            true,
        ),
        ServerMessage::Error { message } => (StreamEvent::Error(message), false),
    }
}

/// Map a parsed server text frame to the event it surfaces; true on `final`.
pub fn handle_server_message(msg: ServerMessage) -> (r: (StreamEvent, bool))
    ensures
        r == server_event(msg),
{
    match msg {
        ServerMessage::Ready => (StreamEvent::Ready, false),
        ServerMessage::Partial { text } => (StreamEvent::Partial(text), false),
        ServerMessage::Final { text, raw_text, duration_ms } => (
            StreamEvent::Final { text, raw_text, duration_ms },
            true,
        ),
        ServerMessage::Error { message } => (StreamEvent::Error(message), false),
    }
}

/// Where a streaming session stands: forwarding audio, waiting for the final
/// transcript after `stop`, or done.
#[derive(Debug, Clone, Copy, PartialEq, Eq, Structural)]
pub enum SessionPhase {
    Streaming,
    Draining,
    Finished,
}

/// Frames the session asks the caller to send on the WebSocket.
#[derive(Debug)]
pub enum Outgoing {
    /// JSON `start` text frame.
    Start(String),
    /// Binary audio frame.
    Audio(Vec<u8>),
    /// JSON `stop` text frame.
    Stop(String),
    /// Close frame; a failure to send it is ignored.
    Close,
}

/// What happened since the last step.
#[derive(Debug)]
pub enum SessionInput {
    /// The caller asked to end the utterance.
    StopRequested,
    /// A captured 16 kHz mono chunk.
    Audio(Vec<i16>),
    /// The capture channel closed.
    AudioEnded,
    /// A text frame that parsed as a server message.
    ServerText(ServerMessage),
    /// A text frame that did not parse; it holds the frame's text.
    BadServerText(String),
    /// A close frame, or the end of the server's stream.
    ServerClosed,
    /// Any other frame (binary, ping, pong).
    OtherFrame,
    /// The WebSocket failed; it holds the error's description.
    SocketError(String),
    /// No final transcript arrived in time after `stop`.
    DrainTimedOut,
}

#[derive(Debug)]
pub enum SessionAction {
    Send(Outgoing),
    Emit(StreamEvent),
}

/// Why a session ended in failure.
#[derive(Debug)]
pub enum StreamError {
    Connect { url: String, detail: String },
    SendStart(String),
    SendAudio(String),
    SendStop(String),
    BadServerMessage(String),
    Websocket(String),
    WebsocketWhileDraining(String),
}

/// The message the UI shows for a failed session.
pub open spec fn error_message(e: StreamError) -> Seq<char> {
    match e {
        StreamError::Connect { url, .. } => "failed to connect to gateway at "@ + url@,
        StreamError::SendStart(_) => "failed to send start message"@,
        StreamError::SendAudio(_) => "failed to send audio frame"@,
        StreamError::SendStop(_) => "failed to send stop message"@,
        StreamError::BadServerMessage(t) => "bad server message: "@ + t@,
        StreamError::Websocket(_) => "websocket error"@,
        StreamError::WebsocketWhileDraining(_) => "websocket error while draining"@,
    }
}

impl StreamError {
    pub fn message(&self) -> (m: String)
        ensures
            m@ == error_message(*self),
    {
        let mut out: Vec<char> = Vec::new();
        match self {
            StreamError::Connect { url, .. } => {
                push_str(&mut out, "failed to connect to gateway at ");
                push_str(&mut out, url.as_str());
            },
            StreamError::SendStart(_) => push_str(&mut out, "failed to send start message"),
            StreamError::SendAudio(_) => push_str(&mut out, "failed to send audio frame"),
            StreamError::SendStop(_) => push_str(&mut out, "failed to send stop message"),
            StreamError::BadServerMessage(t) => {
                push_str(&mut out, "bad server message: ");
                push_str(&mut out, t.as_str());
            },
            StreamError::Websocket(_) => push_str(&mut out, "websocket error"),
            StreamError::WebsocketWhileDraining(_) => push_str(&mut out, "websocket error while draining"),
        }
        assert(out@ =~= error_message(*self));
        string_from_chars(out.as_slice())
    }
}

/// The actions of one step, in order, and the session's result once it ends.
pub struct StepResult {
    pub actions: Vec<SessionAction>,
    pub outcome: Option<Result<(), StreamError>>,
}

pub struct StreamSession {
    phase: SessionPhase,
}

pub open spec fn is_stop_frame(a: SessionAction) -> bool {
    a matches SessionAction::Send(Outgoing::Stop(s)) && s@ == client_message_json(
        ClientMessage::Stop,
    )
}

pub open spec fn is_audio_frame(a: SessionAction) -> bool {
    a matches SessionAction::Send(Outgoing::Audio(_))
}

pub open spec fn is_close_frame(a: SessionAction) -> bool {
    a matches SessionAction::Send(Outgoing::Close)
}

pub open spec fn is_closed_event(a: SessionAction) -> bool {
    a matches SessionAction::Emit(StreamEvent::Closed)
}

pub open spec fn is_final_event(a: SessionAction) -> bool {
    a matches SessionAction::Emit(StreamEvent::Final { .. })
}

pub open spec fn is_error_event(a: SessionAction, msg: Seq<char>) -> bool {
    a matches SessionAction::Emit(StreamEvent::Error(s)) && s@ == msg
}

/// Close the socket, then report the session closed.
pub open spec fn closes(acts: Seq<SessionAction>, from: int) -> bool {
    &&& acts.len() == from + 2
    &&& is_close_frame(acts[from])
    &&& is_closed_event(acts[from + 1])
}

/// A server message while waiting in `phase`: its event is surfaced; the
/// final transcript ends the session cleanly.
pub open spec fn on_server_message(
    phase: SessionPhase,
    msg: ServerMessage,
    new: SessionPhase,
    acts: Seq<SessionAction>,
    outcome: Option<Result<(), StreamError>>,
) -> bool {
    let (ev, fin) = server_event(msg);
    &&& acts.len() >= 1
    &&& acts[0] == SessionAction::Emit(ev)
    &&& if fin {
        &&& new == SessionPhase::Finished
        &&& closes(acts, 1)
        &&& outcome matches Some(Ok(()))
    } else {
        &&& new == phase
        &&& acts.len() == 1
        &&& outcome is None
    }
}

/// One step of a streaming session: from `old` on `input` to `new`, with the
/// actions `acts` and, when the session ends, its `outcome`.
pub open spec fn step_spec(
    old: SessionPhase,
    input: SessionInput,
    new: SessionPhase,
    acts: Seq<SessionAction>,
    outcome: Option<Result<(), StreamError>>,
) -> bool {
    match old {
        SessionPhase::Finished => new == SessionPhase::Finished && acts.len() == 0 && outcome is None,
        SessionPhase::Streaming => match input {
            SessionInput::StopRequested | SessionInput::AudioEnded => {
                &&& new == SessionPhase::Draining
                &&& acts.len() == 1
                &&& is_stop_frame(acts[0])
                &&& outcome is None
            },
            SessionInput::Audio(chunk) => {
                &&& new == SessionPhase::Streaming
                &&& acts.len() == 1
                &&& acts[0] matches SessionAction::Send(Outgoing::Audio(b))
                &&& b@ == pcm_bytes(chunk@)
                &&& outcome is None
            },
            SessionInput::ServerText(msg) => on_server_message(old, msg, new, acts, outcome),
            SessionInput::BadServerText(t) => {
                &&& new == SessionPhase::Finished
                &&& acts.len() == 0
                &&& outcome matches Some(Err(StreamError::BadServerMessage(u)))
                &&& u == t
            },
            SessionInput::ServerClosed => {
                &&& new == SessionPhase::Finished
                &&& acts.len() == 1
                &&& is_closed_event(acts[0])
                &&& outcome matches Some(Ok(()))
            },
            SessionInput::SocketError(e) => {
                &&& new == SessionPhase::Finished
                &&& acts.len() == 0
                &&& outcome matches Some(Err(StreamError::Websocket(u)))
                &&& u == e
            },
            SessionInput::OtherFrame | SessionInput::DrainTimedOut => {
                new == old && acts.len() == 0 && outcome is None
            },
        },
        SessionPhase::Draining => match input {
            SessionInput::ServerText(msg) => on_server_message(old, msg, new, acts, outcome),
            SessionInput::BadServerText(t) => {
                &&& new == SessionPhase::Finished
                &&& acts.len() == 0
                &&& outcome matches Some(Err(StreamError::BadServerMessage(u)))
                &&& u == t
            },
            SessionInput::ServerClosed => {
                &&& new == SessionPhase::Finished
                &&& acts.len() == 3
                &&& is_error_event(acts[0], "connection closed before final transcript"@)
                &&& closes(acts, 1)
                &&& outcome matches Some(Ok(()))
            },
            SessionInput::SocketError(e) => {
                &&& new == SessionPhase::Finished
                &&& acts.len() == 0
                &&& outcome matches Some(Err(StreamError::WebsocketWhileDraining(u)))
                &&& u == e
            },
            SessionInput::DrainTimedOut => {
                &&& new == SessionPhase::Finished
                &&& acts.len() == 3
                &&& is_error_event(acts[0], "timed out waiting for final transcript"@)
                &&& closes(acts, 1)
                &&& outcome matches Some(Ok(()))
            },
            SessionInput::StopRequested
            | SessionInput::Audio(_)
            | SessionInput::AudioEnded
            | SessionInput::OtherFrame => new == old && acts.len() == 0 && outcome is None,
        },
    }
}

fn close_and_report(actions: &mut Vec<SessionAction>)
    ensures
        final(actions)@.len() == old(actions)@.len() + 2,
        final(actions)@.take(old(actions)@.len() as int) == old(actions)@,
        closes(final(actions)@, old(actions)@.len() as int),
{
    actions.push(SessionAction::Send(Outgoing::Close));
    actions.push(SessionAction::Emit(StreamEvent::Closed));
    assert(final(actions)@.take(old(actions)@.len() as int) =~= old(actions)@);
}

fn stop_frame() -> (a: SessionAction)
    ensures
        is_stop_frame(a),
{
    let stop = ClientMessage::Stop;
    SessionAction::Send(Outgoing::Stop(encode_client_message(&stop)))
}

impl StreamSession {
    pub closed spec fn phase_of(&self) -> SessionPhase {
        self.phase
    }

    /// Open a session: the `start` message is the first frame to send.
    pub fn open(start: &ClientMessage) -> (r: (StreamSession, Outgoing))
        ensures
            r.0.phase_of() == SessionPhase::Streaming,
            r.1 matches Outgoing::Start(s) && s@ == client_message_json(*start),
    {
        (StreamSession { phase: SessionPhase::Streaming }, Outgoing::Start(encode_client_message(start)))
    }

    pub fn phase(&self) -> (p: SessionPhase)
        ensures
            p == self.phase_of(),
    {
        self.phase
    }

    /// Advance the session on `input`.
    pub fn step(&mut self, input: SessionInput) -> (r: StepResult)
        ensures
            step_spec(old(self).phase_of(), input, final(self).phase_of(), r.actions@, r.outcome),
    {
        let mut actions: Vec<SessionAction> = Vec::new();
        let old_phase = self.phase;
        match self.phase {
            SessionPhase::Finished => {
                return StepResult { actions, outcome: None };
            },
            SessionPhase::Streaming => {},
            SessionPhase::Draining => {},
        }
        match input {
            SessionInput::StopRequested | SessionInput::AudioEnded => {
                if old_phase == SessionPhase::Streaming {
                    let a = stop_frame();
                    actions.push(a);
                    assert(actions@[0] == a);
                    self.phase = SessionPhase::Draining;
                }
                StepResult { actions, outcome: None }
            },
            SessionInput::Audio(chunk) => {
                if old_phase == SessionPhase::Streaming {
                    actions.push(SessionAction::Send(Outgoing::Audio(pcm_to_bytes(chunk.as_slice()))));
                }
                StepResult { actions, outcome: None }
            },
            SessionInput::ServerText(msg) => {
                let (ev, fin) = handle_server_message(msg);
                actions.push(SessionAction::Emit(ev));
                if fin {
                    close_and_report(&mut actions);
                    self.phase = SessionPhase::Finished;
                    StepResult { actions, outcome: Some(Ok(())) }
                } else {
                    StepResult { actions, outcome: None }
                }
            },
            SessionInput::BadServerText(t) => {
                self.phase = SessionPhase::Finished;
                StepResult { actions, outcome: Some(Err(StreamError::BadServerMessage(t))) }
            },
            SessionInput::ServerClosed => {
                if old_phase == SessionPhase::Streaming {
                    actions.push(SessionAction::Emit(StreamEvent::Closed));
                } else {
                    actions.push(
                        SessionAction::Emit(
                            StreamEvent::Error("connection closed before final transcript".to_owned()),
                        ),
                    );
                    close_and_report(&mut actions);
                }
                self.phase = SessionPhase::Finished;
                StepResult { actions, outcome: Some(Ok(())) }
            },
            SessionInput::SocketError(e) => {
                self.phase = SessionPhase::Finished;
                if old_phase == SessionPhase::Streaming {
                    StepResult { actions, outcome: Some(Err(StreamError::Websocket(e))) }
                } else {
                    StepResult { actions, outcome: Some(Err(StreamError::WebsocketWhileDraining(e))) }
                }
            },
            SessionInput::OtherFrame => StepResult { actions, outcome: None },
            SessionInput::DrainTimedOut => {
                if old_phase == SessionPhase::Streaming {
                    StepResult { actions, outcome: None }
                } else {
                    actions.push(
                        SessionAction::Emit(
                            StreamEvent::Error("timed out waiting for final transcript".to_owned()),
                        ),
                    );
                    close_and_report(&mut actions);
                    self.phase = SessionPhase::Finished;
                    StepResult { actions, outcome: Some(Ok(())) }
                }
            },
        }
    }
}

/// The error a failed send ends the session with; failing to send the close
/// frame is ignored.
pub fn send_failure(frame: &Outgoing, detail: String) -> (r: Option<StreamError>)
    ensures
        match frame {
            Outgoing::Start(_) => r == Some(StreamError::SendStart(detail)),
            Outgoing::Audio(_) => r == Some(StreamError::SendAudio(detail)),
            Outgoing::Stop(_) => r == Some(StreamError::SendStop(detail)),
            Outgoing::Close => r is None,
        },
{
    match frame {
        Outgoing::Start(_) => Some(StreamError::SendStart(detail)),
        Outgoing::Audio(_) => Some(StreamError::SendAudio(detail)),
        Outgoing::Stop(_) => Some(StreamError::SendStop(detail)),
        Outgoing::Close => None,
    }
}

pub open spec fn phase_rank(p: SessionPhase) -> int {
    match p {
        SessionPhase::Streaming => 0,
        SessionPhase::Draining => 1,
        SessionPhase::Finished => 2,
    }
}

/// `phases[k]` steps on `inputs[k]` to `phases[k + 1]` with the actions
/// `acts[k]` and the outcome `outcomes[k]`, for every `k`.
pub open spec fn is_run(
    phases: Seq<SessionPhase>,
    inputs: Seq<SessionInput>,
    acts: Seq<Seq<SessionAction>>,
    outcomes: Seq<Option<Result<(), StreamError>>>,
) -> bool {
    &&& phases.len() == inputs.len() + 1
    &&& acts.len() == inputs.len()
    &&& outcomes.len() == inputs.len()
    &&& forall|k: int|
        0 <= k < inputs.len() ==> #[trigger] step_spec(
            phases[k],
            inputs[k],
            phases[k + 1],
            acts[k],
            outcomes[k],
        )
}

pub open spec fn sends_stop(acts: Seq<SessionAction>) -> bool {
    exists|k: int| 0 <= k < acts.len() && is_stop_frame(#[trigger] acts[k])
}

pub open spec fn sends_audio(acts: Seq<SessionAction>) -> bool {
    exists|k: int| 0 <= k < acts.len() && is_audio_frame(#[trigger] acts[k])
}

pub open spec fn emits_final(acts: Seq<SessionAction>) -> bool {
    exists|k: int| 0 <= k < acts.len() && is_final_event(#[trigger] acts[k])
}

/// A step never moves a session back: streaming, then draining, then finished.
pub proof fn law_phase_never_goes_back(
    old: SessionPhase,
    input: SessionInput,
    new: SessionPhase,
    acts: Seq<SessionAction>,
    outcome: Option<Result<(), StreamError>>,
)
    requires
        step_spec(old, input, new, acts, outcome),
    ensures
        phase_rank(old) <= phase_rank(new),
        outcome is Some ==> new == SessionPhase::Finished,
        sends_stop(acts) ==> old == SessionPhase::Streaming && new == SessionPhase::Draining,
        sends_audio(acts) ==> old == SessionPhase::Streaming,
        emits_final(acts) ==> new == SessionPhase::Finished,
{
    if sends_stop(acts) {
        let k = choose|k: int| 0 <= k < acts.len() && is_stop_frame(#[trigger] acts[k]);
        assert(is_stop_frame(acts[k]));
    }
    if sends_audio(acts) {
        let k = choose|k: int| 0 <= k < acts.len() && is_audio_frame(#[trigger] acts[k]);
        assert(is_audio_frame(acts[k]));
    }
    if emits_final(acts) {
        let k = choose|k: int| 0 <= k < acts.len() && is_final_event(#[trigger] acts[k]);
        assert(is_final_event(acts[k]));
        match input {
            SessionInput::ServerText(msg) => {
                assert(msg is Final);
            },
            _ => {},
        }
    }
}

proof fn lemma_run_rank_monotone(
    phases: Seq<SessionPhase>,
    inputs: Seq<SessionInput>,
    acts: Seq<Seq<SessionAction>>,
    outcomes: Seq<Option<Result<(), StreamError>>>,
    i: int,
    j: int,
)
    requires
        is_run(phases, inputs, acts, outcomes),
        0 <= i <= j <= inputs.len(),
    ensures
        phase_rank(phases[i]) <= phase_rank(phases[j]),
        phases[i] == SessionPhase::Finished ==> phases[j] == SessionPhase::Finished,
    decreases j - i,
{
    if i < j {
        lemma_run_rank_monotone(phases, inputs, acts, outcomes, i, j - 1);
        let k = j - 1;
        assert(step_spec(phases[k], inputs[k], phases[k + 1], acts[k], outcomes[k]));
        law_phase_never_goes_back(phases[k], inputs[k], phases[k + 1], acts[k], outcomes[k]);
    }
}

/// Over a whole session, the `stop` frame is sent at most once, and no audio
/// frame is sent after it.
pub proof fn law_stop_sent_once_and_last(
    phases: Seq<SessionPhase>,
    inputs: Seq<SessionInput>,
    acts: Seq<Seq<SessionAction>>,
    outcomes: Seq<Option<Result<(), StreamError>>>,
    i: int,
    j: int,
)
    requires
        is_run(phases, inputs, acts, outcomes),
        0 <= i < j < inputs.len(),
        sends_stop(acts[i]),
    ensures
        !sends_stop(acts[j]),
        !sends_audio(acts[j]),
{
    assert(step_spec(phases[i], inputs[i], phases[i + 1], acts[i], outcomes[i]));
    law_phase_never_goes_back(phases[i], inputs[i], phases[i + 1], acts[i], outcomes[i]);
    lemma_run_rank_monotone(phases, inputs, acts, outcomes, i + 1, j);
    assert(step_spec(phases[j], inputs[j], phases[j + 1], acts[j], outcomes[j]));
    law_phase_never_goes_back(phases[j], inputs[j], phases[j + 1], acts[j], outcomes[j]);
}

/// Once a session has ended (with a result), later steps do nothing; in
/// particular at most one final transcript is ever surfaced.
pub proof fn law_nothing_after_end(
    phases: Seq<SessionPhase>,
    inputs: Seq<SessionInput>,
    acts: Seq<Seq<SessionAction>>,
    outcomes: Seq<Option<Result<(), StreamError>>>,
    i: int,
    j: int,
)
    requires
        is_run(phases, inputs, acts, outcomes),
        0 <= i < j < inputs.len(),
        outcomes[i] is Some || emits_final(acts[i]),
    ensures
        acts[j].len() == 0,
        outcomes[j] is None,
        !emits_final(acts[j]),
{
    assert(step_spec(phases[i], inputs[i], phases[i + 1], acts[i], outcomes[i]));
    law_phase_never_goes_back(phases[i], inputs[i], phases[i + 1], acts[i], outcomes[i]);
    lemma_run_rank_monotone(phases, inputs, acts, outcomes, i + 1, j);
    assert(step_spec(phases[j], inputs[j], phases[j + 1], acts[j], outcomes[j]));
}

/// A session that ends cleanly reports `Closed` as its very last action; one
/// that ends in an error takes no action in that step.
pub proof fn law_clean_end_reports_closed(
    old: SessionPhase,
    input: SessionInput,
    new: SessionPhase,
    acts: Seq<SessionAction>,
    outcome: Option<Result<(), StreamError>>,
)
    requires
        step_spec(old, input, new, acts, outcome),
    ensures
        outcome matches Some(Ok(())) ==> acts.len() > 0 && is_closed_event(acts.last()),
        outcome matches Some(Err(_)) ==> acts.len() == 0,
        outcome is None ==> forall|k: int| 0 <= k < acts.len() ==> !is_closed_event(#[trigger] acts[k]),
{
}

/// A server message surfaces as its own event, its fields unchanged: the
/// final transcript's polished `text`, its `raw_text` and its duration are
/// passed on as they came, and the final transcript ends the session.
pub proof fn law_server_message_passed_on_unchanged(
    before: SessionPhase,
    msg: ServerMessage,
    after: SessionPhase,
    acts: Seq<SessionAction>,
    outcome: Option<Result<(), StreamError>>,
)
    requires
        before != SessionPhase::Finished,
        step_spec(before, SessionInput::ServerText(msg), after, acts, outcome),
    ensures
        acts.len() >= 1,
        msg is Ready ==> acts[0] == SessionAction::Emit(StreamEvent::Ready) && after == before,
        msg matches ServerMessage::Partial { text } ==> acts[0] == SessionAction::Emit(
            StreamEvent::Partial(text),
        ) && after == before,
        msg matches ServerMessage::Final { text, raw_text, duration_ms } ==> acts[0]
            == SessionAction::Emit(
            StreamEvent::Final { text: text, raw_text: raw_text, duration_ms: duration_ms },
        ) && after == SessionPhase::Finished && outcome matches Some(Ok(())),
        msg matches ServerMessage::Error { message } ==> acts[0] == SessionAction::Emit(
            StreamEvent::Error(message),
        ) && after == before,
{
    assert(on_server_message(before, msg, after, acts, outcome));
}

} // verus!
