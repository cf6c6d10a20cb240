//! Tier-1 native accessibility insertion, per platform.
//!
//! Contract: insert `text` at the caret of the focused editable element and
//! return Ok, or return an error to fall through to the paste tier. Native
//! backends are planned:
//!
//! - macOS: AXUIElementSetAttributeValue(kAXSelectedTextAttribute) on the
//!   focused element (requires AXIsProcessTrusted).
//! - Windows: IUIAutomation focused element -> ValuePattern.SetValue /
//!   TextPattern selection insertion.
//! - Linux: AT-SPI2 org.a11y.atspi EditableText.InsertText on the focused
//!   object (X11 & Wayland; coverage varies by toolkit).

use vstd::prelude::*;

use crate::insert::InsertError;

verus! {

/// The operating system the app runs on.
#[derive(Debug, Clone, Copy, PartialEq, Eq, Structural)]
pub enum TargetOs {
    Linux,
    MacOs,
    Windows,
    Other,
}

pub open spec fn unavailable_message(os: TargetOs) -> Seq<char> {
    match os {
        TargetOs::Linux => "AT-SPI insertion not yet implemented on Linux"@,
        TargetOs::MacOs => "AX insertion not yet implemented on macOS"@,
        TargetOs::Windows => "UIA insertion not yet implemented on Windows"@,
        TargetOs::Other => "no accessibility backend for this platform"@,
    }
}

/// No platform has a native backend yet: always an error naming the missing
/// backend, so that insertion falls through to the paste tier.
pub fn insert(_text: &str, os: TargetOs) -> (r: Result<(), InsertError>)
    ensures
        r matches Err(e) && e.message@ == unavailable_message(os),
{
    let message = match os {
        TargetOs::Linux => "AT-SPI insertion not yet implemented on Linux",
        TargetOs::MacOs => "AX insertion not yet implemented on macOS",
        TargetOs::Windows => "UIA insertion not yet implemented on Windows",
        TargetOs::Other => "no accessibility backend for this platform",
    };
    Err(InsertError { message: message.to_owned() })
}

} // verus!
