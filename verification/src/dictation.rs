//! Dictation session decisions: the start message of an utterance, what the
//! app does on each streaming event, the latest transcript, and the tray
//! and HUD presentation.

use vstd::prelude::*;

use crate::client::StreamEvent;
use crate::config::AppConfig;
use crate::dictionary::{expand_spec, SnippetEngine};
use crate::protocol::{string_views, AudioSpec, ClientMessage, PolishOptions, SessionContext};

verus! {

/// Dictation lifecycle as reflected in the tray icon, so the user can tell
/// when a recording started and when the transcript has landed.
#[derive(Debug, Clone, Copy, PartialEq, Eq, Structural)]
pub enum TrayStatus {
    Idle,
    Recording,
    Transcribing,
}

pub open spec fn tooltip_spec(status: TrayStatus) -> Seq<char> {
    match status {
        TrayStatus::Idle => "Whispr — voice to text anywhere"@,
        TrayStatus::Recording => "Whispr — recording… (press the hotkey to stop)"@,
        TrayStatus::Transcribing => "Whispr — transcribing…"@,
    }
}

/// Tray tooltip for a status.
pub fn tray_tooltip(status: TrayStatus) -> (t: &'static str)
    ensures
        t@ == tooltip_spec(status),
{
    match status {
        TrayStatus::Idle => "Whispr — voice to text anywhere",
        TrayStatus::Recording => "Whispr — recording… (press the hotkey to stop)",
        TrayStatus::Transcribing => "Whispr — transcribing…",
    }
}

/// Colour of the tray state light: red while recording, amber while a
/// transcript is pending; idle shows the app icon instead.
pub fn tray_dot_color(status: TrayStatus) -> (c: Option<[u8; 3]>)
    ensures
        status == TrayStatus::Idle ==> c is None,
        status == TrayStatus::Recording ==> c == Some([0xE5u8, 0x3Eu8, 0x3Eu8]),
        status == TrayStatus::Transcribing ==> c == Some([0xF0u8, 0xA8u8, 0x2Eu8]),
{
    match status {
        TrayStatus::Idle => None,
        TrayStatus::Recording => Some([0xE5, 0x3E, 0x3E]),
        TrayStatus::Transcribing => Some([0xF0, 0xA8, 0x2E]),
    }
}

/// Side of the square tray state light, in pixels.
pub const DOT_SIZE: usize = 32;

/// Pixel `i` (row-major) of the state light lies in the filled circle of
/// radius `0.42 * 32` about the centre `(15.5, 15.5)`: in doubled coordinates
/// the squared distance of the pixel centre is at most `4 * 13.44^2`, that is
/// at most 722 (the squares of odd numbers leave no value in between).
pub open spec fn in_dot(i: int) -> bool {
    let dx = 2 * (i % 32) - 31;
    let dy = 2 * (i / 32) - 31;
    dx * dx + dy * dy <= 722
}

/// RGBA of pixel `i`: opaque `rgb` inside the circle, transparent outside.
pub open spec fn dot_pixel(rgb: [u8; 3], i: int) -> Seq<u8> {
    if in_dot(i) {
        seq![rgb[0], rgb[1], rgb[2], 0xFFu8]
    } else {
        seq![0u8, 0u8, 0u8, 0u8]
    }
}

/// 32×32 RGBA "state light": a filled circle in `rgb`, so no icon assets are
/// needed per state.
pub fn dot_icon_rgba(rgb: [u8; 3]) -> (px: Vec<u8>)
    ensures
        px@.len() == 4 * 1024,
        forall|i: int| 0 <= i < 1024 ==> #[trigger] px@.subrange(4 * i, 4 * i + 4) == dot_pixel(rgb, i),
{
    let mut px: Vec<u8> = Vec::new();
    let mut i: usize = 0;
    while i < 1024
        invariant
            i <= 1024,
            px@.len() == 4 * i,
            forall|k: int| 0 <= k < i ==> #[trigger] px@.subrange(4 * k, 4 * k + 4) == dot_pixel(rgb, k),
        decreases 1024 - i,
    {
        let x = (i % 32) as i32;
        let y = (i / 32) as i32;
        let dx = 2 * x - 31;
        let dy = 2 * y - 31;
        let ghost before = px@;
        assert(0 <= dx * dx <= 961) by (nonlinear_arith)
            requires
                -31 <= dx <= 31,
        ;
        assert(0 <= dy * dy <= 961) by (nonlinear_arith)
            requires
                -31 <= dy <= 31,
        ;
        if dx * dx + dy * dy <= 722 {
            px.push(rgb[0]);
            px.push(rgb[1]);
            px.push(rgb[2]);
            px.push(0xFF);
        } else {
            px.push(0);
            px.push(0);
            px.push(0);
            px.push(0);
        }
        assert(px@.subrange(4 * i as int, 4 * i + 4) =~= dot_pixel(rgb, i as int));
        assert forall|k: int| 0 <= k < i + 1 implies #[trigger] px@.subrange(4 * k, 4 * k + 4)
            == dot_pixel(rgb, k) by {
            if k < i {
                assert(px@.subrange(4 * k, 4 * k + 4) =~= before.subrange(4 * k, 4 * k + 4));
            }
        }
        i = i + 1;
    }
    px
}

/// Where the HUD goes: centred horizontally, 80 px above the bottom edge of
/// the primary monitor (clamped at 0 when the window does not fit).
pub fn hud_position(screen_width: u32, screen_height: u32, win_width: u32, win_height: u32) -> (p: (
    i32,
    i32,
))
    requires
        win_height + 80 <= u32::MAX,
    ensures
        p.0 == (if screen_width >= win_width { (screen_width - win_width) / 2 } else { 0 }) as i32,
        p.1 == (if screen_height >= win_height + 80 { screen_height - (win_height + 80) } else { 0 }) as i32,
{
    let x = screen_width.saturating_sub(win_width) / 2;
    let y = screen_height.saturating_sub(win_height + 80);
    (x as i32, y as i32)
}

/// Most recent non-empty final transcript of this app run, for the tray
/// "Copy Latest Transcript" action and its global hotkey.
pub struct LatestTranscript {
    text: String,
}

/// What the latest transcript is after recording each of `finals` in turn:
/// the last non-empty one, or `start` if all are empty.
pub open spec fn latest_after(start: Seq<char>, finals: Seq<Seq<char>>) -> Seq<char>
    decreases finals.len(),
{
    if finals.len() == 0 {
        start
    } else if finals.last().len() > 0 {
        finals.last()
    } else {
        latest_after(start, finals.drop_last())
    }
}

impl LatestTranscript {
    pub closed spec fn view_text(&self) -> Seq<char> {
        self.text@
    }

    pub fn new() -> (r: Self)
        ensures
            r.view_text().len() == 0,
    {
        LatestTranscript { text: String::new() }
    }

    /// Keep `text` when it is non-empty; an empty final leaves the latest
    /// transcript as it was.
    pub fn record(&mut self, text: &str)
        ensures
            final(self).view_text() == latest_after(old(self).view_text(), seq![text@]),
    {
        if !text.is_empty() {
            self.text = text.to_owned();
        }
        proof {
            reveal_with_fuel(latest_after, 2);
            assert(seq![text@].drop_last() =~= Seq::<Seq<char>>::empty());
        }
    }

    /// The transcript to copy, or `None` when there is none yet.
    pub fn for_copy(&self) -> (r: Option<String>)
        ensures
            self.view_text().len() == 0 ==> r is None,
            self.view_text().len() > 0 ==> (r matches Some(t) && t@ == self.view_text()),
    {
        if self.text.as_str().is_empty() {
            None
        } else {
            Some(self.text.clone())
        }
    }
}

/// Recording several finals in turn keeps the last non-empty one.
pub proof fn law_latest_is_last_nonempty(start: Seq<char>, finals: Seq<Seq<char>>, more: Seq<char>)
    ensures
        latest_after(latest_after(start, finals), seq![more]) == latest_after(start, finals.push(more)),
{
    reveal_with_fuel(latest_after, 2);
    assert(finals.push(more).drop_last() =~= finals);
    assert(seq![more].drop_last() =~= Seq::<Seq<char>>::empty());
}

fn clone_strings(v: &Vec<String>) -> (r: Vec<String>)
    ensures
        string_views(r@) == string_views(v@),
{
    let mut r: Vec<String> = Vec::new();
    let mut i: usize = 0;
    while i < v.len()
        invariant
            i <= v@.len(),
            r@.len() == i,
            string_views(r@) =~= string_views(v@.take(i as int)),
        decreases v@.len() - i,
    {
        let s = v[i].clone();
        assert(s@ == v@[i as int]@);
        let ghost before = r@;
        let ghost sv = s;
        r.push(s);
        assert forall|j: int| 0 <= j < i + 1 implies #[trigger] string_views(r@)[j] == string_views(
            v@.take(i + 1),
        )[j] by {
            if j < i {
                assert(string_views(before)[j] == string_views(v@.take(i as int))[j]);
            }
        }
        i = i + 1;
        assert(string_views(r@) =~= string_views(v@.take(i as int)));
    }
    assert(v@.take(v@.len() as int) =~= v@);
    r
}

/// The `start` message of an utterance: 16 kHz mono PCM, the configured
/// language, dictionary and polish mode, no session context.
pub fn start_message(cfg: &AppConfig) -> (m: ClientMessage)
    ensures
        m matches ClientMessage::Start { audio, language, context, dictionary, polish } && {
            &&& audio.format@ == crate::protocol::AUDIO_FORMAT@
            &&& audio.sample_rate == crate::audio::TARGET_SAMPLE_RATE
            &&& audio.channels == 1
            &&& language@ == cfg.language@
            &&& context.app is None
            &&& context.style is None
            &&& string_views(dictionary@) == string_views(cfg.dictionary@)
            &&& polish.mode@ == cfg.polish_mode@
        },
{
    ClientMessage::Start {
        audio: AudioSpec::default(),
        language: cfg.language.clone(),
        context: SessionContext::default(),
        dictionary: clone_strings(&cfg.dictionary),
        polish: PolishOptions { mode: cfg.polish_mode.clone() },
    }
}

/// What the app does in response to a streaming event.
#[derive(Debug)]
pub enum UiAction {
    /// Tell the UI the gateway is ready.
    Ready,
    /// Show a partial transcript.
    Partial(String),
    /// Remember this as the latest transcript.
    RememberLatest(String),
    /// Show the final transcript.
    Final { text: String, raw_text: String, duration_ms: u64 },
    /// Stop capture and drop the session.
    FinishSession,
    /// Insert this text into the focused application.
    Insert(String),
    /// Hide the HUD after leaving the transcript visible for a while.
    HideHudLater,
    /// Show an error.
    Error(String),
}

pub open spec fn is_text_action(a: UiAction, tag: int, t: Seq<char>) -> bool {
    match a {
        UiAction::Partial(s) => tag == 0 && s@ == t,
        UiAction::RememberLatest(s) => tag == 1 && s@ == t,
        UiAction::Insert(s) => tag == 2 && s@ == t,
        UiAction::Error(s) => tag == 3 && s@ == t,
        _ => false,
    }
}

/// The actions for one streaming event. A final transcript is expanded with
/// the snippets; a non-empty result is remembered and inserted after the
/// session is finished; the HUD hides itself afterwards when configured so.
/// An error, or the connection closing, finishes the session too, so that
/// capture does not outlive the stream.
pub open spec fn event_actions(
    event: StreamEvent,
    snippets: Seq<(Seq<char>, Seq<char>)>,
    show_hud: bool,
    autohide_hud: bool,
    acts: Seq<UiAction>,
) -> bool {
    match event {
        StreamEvent::Ready => acts.len() == 1 && acts[0] is Ready,
        StreamEvent::Partial(t) => acts.len() == 1 && is_text_action(acts[0], 0, t@),
        StreamEvent::Final { text, raw_text, duration_ms } => {
            let ft = expand_spec(snippets, text@);
            let hide = show_hud && autohide_hud;
            let k = if ft.len() > 0 { 1int } else { 0int };
            &&& acts.len() == 2 + 2 * k + (if hide { 1int } else { 0int })
            &&& ft.len() > 0 ==> is_text_action(acts[0], 1, ft)
            &&& (acts[k] matches UiAction::Final { text: f, raw_text: r, duration_ms: d } && f@ == ft
                && r == raw_text && d == duration_ms)
            &&& acts[k + 1] is FinishSession
            &&& ft.len() > 0 ==> is_text_action(acts[k + 2], 2, ft)
            &&& hide ==> acts.last() is HideHudLater
        },
        StreamEvent::Error(m) => acts.len() == 2 && is_text_action(acts[0], 3, m@)
            && acts[1] is FinishSession,
        StreamEvent::Closed => acts.len() == 1 && acts[0] is FinishSession,
    }
}

pub fn on_stream_event(
    event: StreamEvent,
    snippets: &SnippetEngine,
    show_hud: bool,
    autohide_hud: bool,
) -> (acts: Vec<UiAction>)
    ensures
        event_actions(event, snippets@, show_hud, autohide_hud, acts@),
{
    let mut acts: Vec<UiAction> = Vec::new();
    match event {
        StreamEvent::Ready => {
            acts.push(UiAction::Ready);
        },
        StreamEvent::Partial(text) => {
            acts.push(UiAction::Partial(text));
        },
        StreamEvent::Final { text, raw_text, duration_ms } => {
            let final_text = snippets.expand(text.as_str());
            let nonempty = !final_text.as_str().is_empty();
            if nonempty {
                acts.push(UiAction::RememberLatest(final_text.clone()));
            }
            acts.push(UiAction::Final { text: final_text.clone(), raw_text, duration_ms });
            acts.push(UiAction::FinishSession);
            if nonempty {
                acts.push(UiAction::Insert(final_text));
            }
            if show_hud && autohide_hud {
                acts.push(UiAction::HideHudLater);
            }
        },
        StreamEvent::Error(message) => {
            acts.push(UiAction::Error(message));
            acts.push(UiAction::FinishSession);
        },
        StreamEvent::Closed => {
            acts.push(UiAction::FinishSession);
        },
    }
    acts
}

/// Something the app shows after a change of the dictation lifecycle.
#[derive(Debug, PartialEq, Eq)]
pub enum Notice {
    /// Tell the UI whether it is recording.
    Recording(bool),
    /// Show this tray status.
    Tray(TrayStatus),
    /// Show an error.
    Error(String),
}

/// What a press of the dictation hotkey asks the app to do.
#[derive(Debug, Clone, Copy, PartialEq, Eq, Structural)]
pub enum Press {
    /// Stop the running session: signal the stream to stop, stop capture.
    StopSession,
    /// Start a session: capture, stream, and handle its events.
    StartSession,
}

/// The dictation session as the tray and the UI show it: whether a session
/// is running, and the tray status.
pub struct Lifecycle {
    active: bool,
    tray: TrayStatus,
}

impl Lifecycle {
    pub closed spec fn active_of(&self) -> bool {
        self.active
    }

    pub closed spec fn tray_of(&self) -> TrayStatus {
        self.tray
    }

    /// The tray shows a recording only while a session is running.
    pub closed spec fn wf(&self) -> bool {
        self.tray == TrayStatus::Recording ==> self.active
    }

    pub fn new() -> (r: Self)
        ensures
            r.wf(),
            !r.active_of(),
            r.tray_of() == TrayStatus::Idle,
    {
        Lifecycle { active: false, tray: TrayStatus::Idle }
    }

    /// Whether a session is running (the HUD level meter runs meanwhile).
    pub fn is_active(&self) -> (b: bool)
        ensures
            b == self.active_of(),
    {
        self.active
    }

    /// A press of the dictation hotkey. A running session is stopped: the UI
    /// is told recording ended and the tray shows the transcript is on its
    /// way. Otherwise a new session is asked for, and nothing changes until
    /// [`Lifecycle::started`] reports how starting it went.
    pub fn press(&mut self) -> (r: (Press, Vec<Notice>))
        requires
            old(self).wf(),
        ensures
            final(self).wf(),
            old(self).active_of() ==> {
                &&& r.0 == Press::StopSession
                &&& !final(self).active_of()
                &&& final(self).tray_of() == TrayStatus::Transcribing
                &&& r.1@ == seq![Notice::Recording(false), Notice::Tray(TrayStatus::Transcribing)]
            },
            !old(self).active_of() ==> {
                &&& r.0 == Press::StartSession
                &&& final(self).active_of() == old(self).active_of()
                &&& final(self).tray_of() == old(self).tray_of()
                &&& r.1@.len() == 0
            },
    {
        let mut notices: Vec<Notice> = Vec::new();
        if self.active {
            self.active = false;
            self.tray = TrayStatus::Transcribing;
            notices.push(Notice::Recording(false));
            notices.push(Notice::Tray(TrayStatus::Transcribing));
            (Press::StopSession, notices)
        } else {
            (Press::StartSession, notices)
        }
    }

    /// How starting a session went. On success the session runs, the UI is
    /// told it is recording and the tray shows the red light; on failure the
    /// error is shown and nothing else changes.
    pub fn started(&mut self, outcome: Result<(), String>) -> (notices: Vec<Notice>)
        requires
            old(self).wf(),
        ensures
            final(self).wf(),
            outcome is Ok ==> {
                &&& final(self).active_of()
                &&& final(self).tray_of() == TrayStatus::Recording
                &&& notices@ == seq![Notice::Recording(true), Notice::Tray(TrayStatus::Recording)]
            },
            outcome matches Err(e) ==> {
                &&& final(self).active_of() == old(self).active_of()
                &&& final(self).tray_of() == old(self).tray_of()
                &&& notices@.len() == 1
                &&& notices@[0] matches Notice::Error(m) && m@ == e@
            },
    {
        let mut notices: Vec<Notice> = Vec::new();
        match outcome {
            Ok(()) => {
                self.active = true;
                self.tray = TrayStatus::Recording;
                notices.push(Notice::Recording(true));
                notices.push(Notice::Tray(TrayStatus::Recording));
            },
            Err(e) => {
                notices.push(Notice::Error(e));
            },
        }
        notices
    }

    /// The session is over (the final transcript landed, the stream failed,
    /// or the server closed the connection): it is dropped, the UI is told
    /// recording ended and the tray goes idle.
    pub fn finish(&mut self) -> (notices: Vec<Notice>)
        requires
            old(self).wf(),
        ensures
            final(self).wf(),
            !final(self).active_of(),
            final(self).tray_of() == TrayStatus::Idle,
            notices@ == seq![Notice::Recording(false), Notice::Tray(TrayStatus::Idle)],
    {
        self.active = false;
        self.tray = TrayStatus::Idle;
        let mut notices: Vec<Notice> = Vec::new();
        notices.push(Notice::Recording(false));
        notices.push(Notice::Tray(TrayStatus::Idle));
        notices
    }
}

/// The tray never shows a recording without a running session: every
/// lifecycle change keeps this, from the first state on.
pub proof fn law_recording_shown_only_while_active(l: Lifecycle)
    requires
        l.wf(),
    ensures
        l.tray_of() == TrayStatus::Recording ==> l.active_of(),
{
}

/// Every event that ends a stream (the final transcript, an error, the
/// connection closing) finishes the session: no capture outlives its stream.
pub proof fn law_stream_end_finishes_session(
    event: StreamEvent,
    snippets: Seq<(Seq<char>, Seq<char>)>,
    show_hud: bool,
    autohide_hud: bool,
    acts: Seq<UiAction>,
)
    requires
        event_actions(event, snippets, show_hud, autohide_hud, acts),
        !(event is Ready),
        !(event is Partial),
    ensures
        exists|k: int| 0 <= k < acts.len() && (#[trigger] acts[k]) is FinishSession,
{
    match event {
        StreamEvent::Final { text, .. } => {
            let k = if expand_spec(snippets, text@).len() > 0 { 1int } else { 0int };
            assert(acts[k + 1] is FinishSession);
        },
        StreamEvent::Error(_) => {
            assert(acts[1] is FinishSession);
        },
        StreamEvent::Closed => {
            assert(acts[0] is FinishSession);
        },
        _ => {},
    }
}

} // verus!
