//! Cross-application text insertion with tiered fallbacks.
//!
//! Tier 1 — native accessibility API at the caret (AX / UIA / AT-SPI); every
//!          platform reports it unavailable for now, falling through to tier 2.
//! Tier 2 — clipboard paste: save clipboard, set text, synthesize
//!          Cmd/Ctrl+V, restore clipboard. The workhorse in practice.
//! Tier 3 — synthetic keystrokes typing the text (slow, last resort).
//!
//! The tiers themselves act on the desktop; this module decides which tier
//! to try next and what the insertion as a whole reports.

pub mod accessibility;

use vstd::prelude::*;

use crate::text::str_eq;

verus! {

#[derive(Debug, Clone, Copy, PartialEq, Eq, Structural)]
pub enum InsertMethod {
    /// Try accessibility, then paste, then typing.
    Auto,
    Accessibility,
    Paste,
    Type,
}

/// Which tier actually performed the insertion.
#[derive(Debug, Clone, Copy, PartialEq, Eq, Structural)]
pub enum InsertedVia {
    Accessibility,
    Paste,
    Type,
}

/// A tier for the caller to attempt.
#[derive(Debug, Clone, Copy, PartialEq, Eq, Structural)]
pub enum InsertTier {
    Accessibility,
    Paste,
    Type,
}

/// Why an insertion tier failed.
#[derive(Debug, PartialEq, Eq)]
pub struct InsertError {
    pub message: String,
}

/// What to do next: stop with a result, or attempt a tier.
#[derive(Debug, PartialEq, Eq)]
pub enum InsertStep {
    Done(Result<InsertedVia, InsertError>),
    Attempt(InsertTier),
}

pub open spec fn parse_spec(s: Seq<char>) -> InsertMethod {
    if s == "accessibility"@ {
        InsertMethod::Accessibility
    } else if s == "paste"@ {
        InsertMethod::Paste
    } else if s == "type"@ {
        InsertMethod::Type
    } else {
        InsertMethod::Auto
    }
}

/// The first tier a method tries.
pub open spec fn first_tier(method: InsertMethod) -> InsertTier {
    match method {
        InsertMethod::Auto | InsertMethod::Accessibility => InsertTier::Accessibility,
        InsertMethod::Paste => InsertTier::Paste,
        InsertMethod::Type => InsertTier::Type,
    }
}

pub open spec fn via_of(tier: InsertTier) -> InsertedVia {
    match tier {
        InsertTier::Accessibility => InsertedVia::Accessibility,
        InsertTier::Paste => InsertedVia::Paste,
        InsertTier::Type => InsertedVia::Type,
    }
}

/// The tier `Auto` falls back to after `tier` fails, if any.
pub open spec fn fallback(method: InsertMethod, tier: InsertTier) -> Option<InsertTier> {
    match (method, tier) {
        (InsertMethod::Auto, InsertTier::Accessibility) => Some(InsertTier::Paste),
        (InsertMethod::Auto, InsertTier::Paste) => Some(InsertTier::Type),
        _ => None,
    }
}

impl InsertMethod {
    /// Settings value -> method; anything unknown falls back to `Auto`.
    pub fn parse(s: &str) -> (m: Self)
        ensures
            m == parse_spec(s@),
    {
        if str_eq(s, "accessibility") {
            InsertMethod::Accessibility
        } else if str_eq(s, "paste") {
            InsertMethod::Paste
        } else if str_eq(s, "type") {
            InsertMethod::Type
        } else {
            InsertMethod::Auto
        }
    }
}

/// Start inserting `text` into the focused application: empty text is done
/// at once (reported as typed) without touching clipboard or keyboard;
/// otherwise the method's first tier is attempted.
pub fn insert_text(text: &str, method: InsertMethod) -> (step: InsertStep)
    ensures
        text@.len() == 0 ==> step == InsertStep::Done(Ok(InsertedVia::Type)),
        text@.len() > 0 ==> step == InsertStep::Attempt(first_tier(method)),
{
    if text.is_empty() {
        return InsertStep::Done(Ok(InsertedVia::Type));
    }
    match method {
        InsertMethod::Auto | InsertMethod::Accessibility => InsertStep::Attempt(InsertTier::Accessibility),
        InsertMethod::Paste => InsertStep::Attempt(InsertTier::Paste),
        InsertMethod::Type => InsertStep::Attempt(InsertTier::Type),
    }
}

/// After attempting `tier` for `method`: success is reported as that tier;
/// a failure falls through to the next tier under `Auto`, and is reported
/// as the insertion's error otherwise.
pub fn after_attempt(method: InsertMethod, tier: InsertTier, outcome: Result<(), InsertError>) -> (step:
    InsertStep)
    ensures
        match outcome {
            Ok(()) => step == InsertStep::Done(Ok(via_of(tier))),
            Err(e) => match fallback(method, tier) {
                Some(next) => step == InsertStep::Attempt(next),
                None => step == InsertStep::Done(Err(e)),
            },
        },
{
    match outcome {
        Ok(()) => InsertStep::Done(
            Ok(
                match tier {
                    InsertTier::Accessibility => InsertedVia::Accessibility,
                    InsertTier::Paste => InsertedVia::Paste,
                    InsertTier::Type => InsertedVia::Type,
                },
            ),
        ),
        Err(e) => match (method, tier) {
            (InsertMethod::Auto, InsertTier::Accessibility) => InsertStep::Attempt(InsertTier::Paste),
            (InsertMethod::Auto, InsertTier::Paste) => InsertStep::Attempt(InsertTier::Type),
            _ => InsertStep::Done(Err(e)),
        },
    }
}

/// `Auto` tries accessibility, then paste, then typing, and nothing after
/// typing; every other method tries only its own tier.
pub proof fn law_tier_order(method: InsertMethod, tier: InsertTier)
    ensures
        method == InsertMethod::Auto ==> first_tier(method) == InsertTier::Accessibility
            && fallback(method, InsertTier::Accessibility) == Some(InsertTier::Paste)
            && fallback(method, InsertTier::Paste) == Some(InsertTier::Type)
            && fallback(method, InsertTier::Type) is None,
        method != InsertMethod::Auto ==> fallback(method, tier) is None,
{
}

} // verus!
