//! Wire types of the streaming protocol and the JSON text frames the client
//! sends: `{"type":"start",...}` opening an utterance and `{"type":"stop"}`
//! closing it. Audio travels separately, as raw PCM in binary frames.

use vstd::prelude::*;

use crate::audio::TARGET_SAMPLE_RATE;
use crate::text::{decimal, decimal_chars, push_all, push_str, string_from_chars};

verus! {

/// The only audio encoding on the wire: PCM signed 16-bit little-endian.
pub const AUDIO_FORMAT: &'static str = "pcm_s16le";

#[derive(Debug)]
pub struct AudioSpec {
    pub format: String,
    pub sample_rate: u32,
    pub channels: u16,
}

impl Default for AudioSpec {
    fn default() -> (r: Self)
        ensures
            r.format@ == AUDIO_FORMAT@,
            r.sample_rate == TARGET_SAMPLE_RATE,
            r.channels == 1,
    {
        AudioSpec { format: AUDIO_FORMAT.to_owned(), sample_rate: TARGET_SAMPLE_RATE, channels: 1 }
    }
}

#[derive(Debug)]
pub struct SessionContext {
    pub app: Option<String>,
    pub style: Option<String>,
}

impl Default for SessionContext {
    fn default() -> (r: Self)
        ensures
            r.app is None,
            r.style is None,
    {
        SessionContext { app: None, style: None }
    }
}

#[derive(Debug)]
pub struct PolishOptions {
    /// "none" | "fillers" | "full"
    pub mode: String,
}

impl Default for PolishOptions {
    fn default() -> (r: Self)
        ensures
            r.mode@ == "fillers"@,
    {
        PolishOptions { mode: "fillers".to_owned() }
    }
}

/// Client -> server control messages.
#[derive(Debug)]
pub enum ClientMessage {
    Start {
        audio: AudioSpec,
        language: String,
        context: SessionContext,
        dictionary: Vec<String>,
        polish: PolishOptions,
    },
    Stop,
}

/// Server -> client messages.
#[derive(Debug)]
pub enum ServerMessage {
    Ready,
    Partial { text: String },
    Final { text: String, raw_text: String, duration_ms: u64 },
    Error { message: String },
}

/// How one character stands inside a JSON string literal: quote, backslash
/// and the control characters below U+0020 are escaped, everything else
/// stands for itself.
pub open spec fn json_escape_char(c: char) -> Seq<char> {
    if c == '"' {
        seq!['\\', '"']
    } else if c == '\\' {
        seq!['\\', '\\']
    } else if c == '\u{8}' {
        seq!['\\', 'b']
    } else if c == '\u{9}' {
        seq!['\\', 't']
    } else if c == '\u{a}' {
        seq!['\\', 'n']
    } else if c == '\u{c}' {
        seq!['\\', 'f']
    } else if c == '\u{d}' {
        seq!['\\', 'r']
    } else if (c as u32) < 0x20 {
        seq!['\\', 'u', '0', '0', hex_digit((c as u32 / 16) as nat), hex_digit((c as u32 % 16) as nat)]
    } else {
        seq![c]
    }
}

/// Lowercase hexadecimal digit for `d < 16`.
pub open spec fn hex_digit(d: nat) -> char {
    if d < 10 {
        (('0' as nat) + d) as char
    } else {
        (('a' as nat) + (d - 10)) as char
    }
}

pub open spec fn json_escape(s: Seq<char>) -> Seq<char>
    decreases s.len(),
{
    if s.len() == 0 {
        seq![]
    } else {
        json_escape(s.drop_last()) + json_escape_char(s.last())
    }
}

/// `s` as a JSON string literal.
pub open spec fn json_string(s: Seq<char>) -> Seq<char> {
    seq!['"'] + json_escape(s) + seq!['"']
}

/// JSON strings separated by commas.
pub open spec fn json_string_items(items: Seq<Seq<char>>) -> Seq<char>
    decreases items.len(),
{
    if items.len() == 0 {
        seq![]
    } else if items.len() == 1 {
        json_string(items[0])
    } else {
        json_string_items(items.drop_last()) + seq![','] + json_string(items.last())
    }
}

pub open spec fn audio_json(a: AudioSpec) -> Seq<char> {
    "{\"format\":"@ + json_string(a.format@) + ",\"sample_rate\":"@ + decimal(a.sample_rate as nat)
        + ",\"channels\":"@ + decimal(a.channels as nat) + "}"@
}

/// Absent fields are left out.
pub open spec fn context_json(c: SessionContext) -> Seq<char> {
    match (c.app, c.style) {
        (None, None) => "{}"@,
        (Some(app), None) => "{\"app\":"@ + json_string(app@) + "}"@,
        (None, Some(style)) => "{\"style\":"@ + json_string(style@) + "}"@,
        (Some(app), Some(style)) => "{\"app\":"@ + json_string(app@) + ",\"style\":"@ + json_string(
            style@,
        ) + "}"@,
    }
}

pub open spec fn string_views(v: Seq<String>) -> Seq<Seq<char>> {
    v.map_values(|s: String| s@)
}

/// The JSON text frame of a control message: an object tagged by `"type"`,
/// fields in declaration order, no whitespace.
pub open spec fn client_message_json(m: ClientMessage) -> Seq<char> {
    match m {
        ClientMessage::Start { audio, language, context, dictionary, polish } => "{\"type\":\"start\",\"audio\":"@
            + audio_json(audio) + ",\"language\":"@ + json_string(language@) + ",\"context\":"@
            + context_json(context) + ",\"dictionary\":["@ + json_string_items(
            string_views(dictionary@),
        ) + "],\"polish\":{\"mode\":"@ + json_string(polish.mode@) + "}}"@,
        ClientMessage::Stop => "{\"type\":\"stop\"}"@,
    }
}

/// Every control frame is a JSON object tagged by `"type"`: `start` or
/// `stop`.
pub proof fn law_control_frames_are_tagged(m: ClientMessage)
    ensures
        m is Start ==> client_message_json(m).take(16) == "{\"type\":\"start\","@,
        m is Stop ==> client_message_json(m) == "{\"type\":\"stop\"}"@,
{
    reveal_strlit("{\"type\":\"start\",");
    reveal_strlit("{\"type\":\"start\",\"audio\":");
    match m {
        ClientMessage::Start { audio, language, context, dictionary, polish } => {
            let head = "{\"type\":\"start\",\"audio\":"@;
            let rest = audio_json(audio) + ",\"language\":"@ + json_string(language@) + ",\"context\":"@
                + context_json(context) + ",\"dictionary\":["@ + json_string_items(
                string_views(dictionary@),
            ) + "],\"polish\":{\"mode\":"@ + json_string(polish.mode@) + "}}"@;
            assert(client_message_json(m) =~= head + rest);
            assert((head + rest).take(16) =~= head.take(16));
            assert(head.take(16) =~= "{\"type\":\"start\","@);
        },
        ClientMessage::Stop => {},
    }
}

/// Calls `serde_json::to_string` on a string slice. The contract claims what
/// serde_json's `format_escaped_str` writes: the characters between double
/// quotes, with `"`, `\` and the control characters below U+0020 escaped
/// (`\b \t \n \f \r` where they exist, `\u00XX` in lowercase hex
/// otherwise) and every other character as it is; and that serializing a
/// string never fails, as it only writes into a `Vec`.
#[verifier::external_body]
fn json_quote(s: &str) -> (r: String)
    ensures
        r@ == json_string(s@),
{
    match serde_json::to_string(s) {
        Ok(json) => json,
        Err(_) => String::new(),
    }
}

fn push_json_string(out: &mut Vec<char>, s: &str)
    ensures
        final(out)@ == old(out)@ + json_string(s@),
{
    let q = json_quote(s);
    push_str(out, q.as_str());
}

fn push_decimal(out: &mut Vec<char>, n: u64)
    ensures
        final(out)@ == old(out)@ + decimal(n as nat),
{
    let d = decimal_chars(n);
    push_all(out, d.as_slice());
}

fn push_context(out: &mut Vec<char>, c: &SessionContext)
    ensures
        final(out)@ == old(out)@ + context_json(*c),
{
    match (&c.app, &c.style) {
        (None, None) => {
            push_str(out, "{}");
        },
        (Some(app), None) => {
            push_str(out, "{\"app\":");
            push_json_string(out, app.as_str());
            push_str(out, "}");
        },
        (None, Some(style)) => {
            push_str(out, "{\"style\":");
            push_json_string(out, style.as_str());
            push_str(out, "}");
        },
        (Some(app), Some(style)) => {
            push_str(out, "{\"app\":");
            push_json_string(out, app.as_str());
            push_str(out, ",\"style\":");
            push_json_string(out, style.as_str());
            push_str(out, "}");
        },
    }
    assert(final(out)@ =~= old(out)@ + context_json(*c));
}

fn push_string_items(out: &mut Vec<char>, items: &Vec<String>)
    ensures
        final(out)@ == old(out)@ + json_string_items(string_views(items@)),
{
    let ghost sv = string_views(items@);
    let mut i: usize = 0;
    while i < items.len()
        invariant
            i <= items@.len(),
            sv == string_views(items@),
            out@ == old(out)@ + json_string_items(sv.take(i as int)),
        decreases items@.len() - i,
    {
        assert(sv.take(i + 1).drop_last() =~= sv.take(i as int));
        assert(sv.take(i + 1).last() == items@[i as int]@);
        if i > 0 {
            out.push(',');
        }
        push_json_string(out, items[i].as_str());
        if i == 0 {
            assert(out@ =~= old(out)@ + json_string_items(sv.take(1)));
        } else {
            let ghost t = sv.take(i + 1);
            assert(t.len() == i + 1);
            assert(json_string_items(t) == json_string_items(t.drop_last()) + seq![','] + json_string(
                t.last(),
            ));
            assert(out@ =~= old(out)@ + json_string_items(sv.take(i + 1)));
        }
        i = i + 1;
    }
    assert(sv.take(items@.len() as int) =~= sv);
}

/// The JSON text frame for `msg`, byte for byte what `serde_json` writes for
/// the tagged message.
pub fn encode_client_message(msg: &ClientMessage) -> (r: String)
    ensures
        r@ == client_message_json(*msg),
{
    let mut out: Vec<char> = Vec::new();
    match msg {
        ClientMessage::Start { audio, language, context, dictionary, polish } => {
            push_str(&mut out, "{\"type\":\"start\",\"audio\":");
            push_str(&mut out, "{\"format\":");
            push_json_string(&mut out, audio.format.as_str());
            push_str(&mut out, ",\"sample_rate\":");
            push_decimal(&mut out, audio.sample_rate as u64);
            push_str(&mut out, ",\"channels\":");
            push_decimal(&mut out, audio.channels as u64);
            push_str(&mut out, "}");
            push_str(&mut out, ",\"language\":");
            push_json_string(&mut out, language.as_str());
            push_str(&mut out, ",\"context\":");
            push_context(&mut out, context);
            push_str(&mut out, ",\"dictionary\":[");
            push_string_items(&mut out, dictionary);
            push_str(&mut out, "],\"polish\":{\"mode\":");
            push_json_string(&mut out, polish.mode.as_str());
            push_str(&mut out, "}}");
        },
        ClientMessage::Stop => {
            push_str(&mut out, "{\"type\":\"stop\"}");
        },
    }
    assert(out@ =~= client_message_json(*msg));
    string_from_chars(out.as_slice())
}

/// The dictionary is a JSON array body: no terms give nothing, one term is
/// that term's JSON string, and each further term follows a comma.
pub proof fn law_string_items_are_comma_separated(items: Seq<Seq<char>>, x: Seq<char>)
    ensures
        json_string_items(Seq::<Seq<char>>::empty()) == Seq::<char>::empty(),
        json_string_items(seq![x]) == json_string(x),
        items.len() > 0 ==> json_string_items(items.push(x)) == json_string_items(items) + seq![',']
            + json_string(x),
{
    if items.len() > 0 {
        assert(items.push(x).drop_last() =~= items);
    }
}

} // verus!
