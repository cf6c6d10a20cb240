//! Persistent app configuration: the settings and their defaults. Reading and
//! writing `config_dir/whispr/config.json` is the application's job.

use vstd::prelude::*;

use crate::dictionary::Snippet;
use crate::text::str_eq;

verus! {

pub struct AppConfig {
    /// Gateway websocket endpoint.
    pub gateway_url: String,
    /// Global hotkey (Tauri global-shortcut syntax).
    pub hotkey: String,
    /// BCP-47 language code or "auto".
    pub language: String,
    /// "none" | "fillers" | "full".
    pub polish_mode: String,
    /// "auto" | "paste" | "type".
    pub insert_method: String,
    /// Audio chunk size sent over the wire, in ms.
    pub chunk_ms: u32,
    /// Input device name, or `None` to follow the system default.
    pub microphone: Option<String>,
    /// End the utterance automatically after trailing silence.
    pub auto_stop: bool,
    /// Show the recording HUD. Disabled by default for unobtrusive dictation.
    pub show_hud: bool,
    /// Hide the HUD a few seconds after a final transcript is received.
    pub autohide_hud: bool,
    /// Start and stop the local gateway together with the app (loopback
    /// gateway_url only). An already-running gateway is detected and left alone.
    pub manage_gateway: bool,
    /// STT provider for the managed gateway: "auto" | "whisper_local" |
    /// "deepgram" | "mock". "auto" lets the gateway pick the best available.
    pub stt_provider: String,
    /// faster-whisper model name or CTranslate2 dir for the managed gateway.
    pub whisper_model: String,
    /// Whisper device: "auto" | "cuda" | "cpu".
    pub whisper_device: String,
    /// Whisper compute type: "default" | "float16" | "int8_float16" | "int8".
    pub whisper_compute: String,
    pub dictionary: Vec<String>,
    pub snippets: Vec<Snippet>,
}

/// The defaults, which also fill in every setting missing from a saved file.
pub open spec fn is_default_config(c: AppConfig) -> bool {
    &&& c.gateway_url@ == "ws://127.0.0.1:8765/v1/stream"@
    &&& c.hotkey@ == "ctrl+shift+space"@
    &&& c.language@ == "auto"@
    &&& c.polish_mode@ == "fillers"@
    &&& c.insert_method@ == "auto"@
    &&& c.chunk_ms == 100
    &&& c.microphone is None
    &&& !c.auto_stop
    &&& !c.show_hud
    &&& c.autohide_hud
    &&& c.manage_gateway
    &&& c.stt_provider@ == "auto"@
    &&& c.whisper_model@ == "large-v3"@
    &&& c.whisper_device@ == "auto"@
    &&& c.whisper_compute@ == "default"@
    &&& c.dictionary@.len() == 0
    &&& c.snippets@.len() == 0
}

impl Default for AppConfig {
    fn default() -> (c: Self)
        ensures
            is_default_config(c),
    {
        AppConfig {
            gateway_url: "ws://127.0.0.1:8765/v1/stream".to_owned(),
            hotkey: "ctrl+shift+space".to_owned(),
            language: "auto".to_owned(),
            polish_mode: "fillers".to_owned(),
            insert_method: "auto".to_owned(),
            chunk_ms: 100,
            microphone: None,
            auto_stop: false,
            show_hud: false,
            autohide_hud: true,
            manage_gateway: true,
            stt_provider: "auto".to_owned(),
            whisper_model: "large-v3".to_owned(),
            whisper_device: "auto".to_owned(),
            whisper_compute: "default".to_owned(),
            dictionary: Vec::new(),
            snippets: Vec::new(),
        }
    }
}

/// Settings that the managed gateway is started with.
pub open spec fn gateway_settings_differ(a: AppConfig, b: AppConfig) -> bool {
    ||| a.manage_gateway != b.manage_gateway
    ||| a.gateway_url@ != b.gateway_url@
    ||| a.stt_provider@ != b.stt_provider@
    ||| a.whisper_model@ != b.whisper_model@
    ||| a.whisper_device@ != b.whisper_device@
    ||| a.whisper_compute@ != b.whisper_compute@
}

impl AppConfig {
    /// Whether saving `self` over `previous` needs the managed gateway
    /// restarted.
    pub fn gateway_changed(&self, previous: &AppConfig) -> (r: bool)
        ensures
            r == gateway_settings_differ(*previous, *self),
    {
        previous.manage_gateway != self.manage_gateway || !str_eq(
            previous.gateway_url.as_str(),
            self.gateway_url.as_str(),
        ) || !str_eq(previous.stt_provider.as_str(), self.stt_provider.as_str()) || !str_eq(
            previous.whisper_model.as_str(),
            self.whisper_model.as_str(),
        ) || !str_eq(previous.whisper_device.as_str(), self.whisper_device.as_str()) || !str_eq(
            previous.whisper_compute.as_str(),
            self.whisper_compute.as_str(),
        )
    }

    /// Whether saving `self` over `previous` needs the global hotkey
    /// registered again.
    pub fn hotkey_changed(&self, previous: &AppConfig) -> (r: bool)
        ensures
            r == (previous.hotkey@ != self.hotkey@),
    {
        !str_eq(previous.hotkey.as_str(), self.hotkey.as_str())
    }
}

} // verus!
