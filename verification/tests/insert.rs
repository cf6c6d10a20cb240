use whispr::insert::accessibility::{insert, TargetOs};
use whispr::insert::{
    after_attempt, insert_text, InsertError, InsertMethod, InsertStep, InsertTier, InsertedVia,
};

#[test]
fn insertion_method_values_match_settings_ui() {
    assert_eq!(InsertMethod::parse("auto"), InsertMethod::Auto);
    assert_eq!(InsertMethod::parse("paste"), InsertMethod::Paste);
    assert_eq!(InsertMethod::parse("type"), InsertMethod::Type);
    assert_eq!(
        InsertMethod::parse("accessibility"),
        InsertMethod::Accessibility
    );
}

#[test]
fn unknown_insertion_method_falls_back_safely() {
    assert_eq!(InsertMethod::parse("invalid"), InsertMethod::Auto);
}

#[test]
fn empty_text_does_not_touch_clipboard_or_keyboard() {
    assert_eq!(
        insert_text("", InsertMethod::Auto),
        InsertStep::Done(Ok(InsertedVia::Type))
    );
}

fn failed(msg: &str) -> Result<(), InsertError> {
    Err(InsertError { message: msg.to_string() })
}

#[test]
fn auto_falls_through_accessibility_paste_then_type() {
    assert_eq!(
        insert_text("hello", InsertMethod::Auto),
        InsertStep::Attempt(InsertTier::Accessibility)
    );
    let acc = insert("hello", TargetOs::Linux);
    assert_eq!(
        acc,
        failed("AT-SPI insertion not yet implemented on Linux")
    );
    assert_eq!(
        after_attempt(InsertMethod::Auto, InsertTier::Accessibility, acc),
        InsertStep::Attempt(InsertTier::Paste)
    );
    assert_eq!(
        after_attempt(InsertMethod::Auto, InsertTier::Paste, failed("cannot open clipboard")),
        InsertStep::Attempt(InsertTier::Type)
    );
    assert_eq!(
        after_attempt(InsertMethod::Auto, InsertTier::Type, Ok(())),
        InsertStep::Done(Ok(InsertedVia::Type))
    );
    assert_eq!(
        after_attempt(InsertMethod::Auto, InsertTier::Type, failed("synthetic typing failed")),
        InsertStep::Done(failed("synthetic typing failed").map(|_| InsertedVia::Type))
    );
}

#[test]
fn explicit_method_reports_its_own_tier() {
    assert_eq!(
        insert_text("x", InsertMethod::Paste),
        InsertStep::Attempt(InsertTier::Paste)
    );
    assert_eq!(
        after_attempt(InsertMethod::Paste, InsertTier::Paste, Ok(())),
        InsertStep::Done(Ok(InsertedVia::Paste))
    );
    assert_eq!(
        after_attempt(InsertMethod::Paste, InsertTier::Paste, failed("cannot write clipboard")),
        InsertStep::Done(Err(InsertError { message: "cannot write clipboard".to_string() }))
    );
    let acc = insert("x", TargetOs::Windows);
    assert_eq!(
        after_attempt(InsertMethod::Accessibility, InsertTier::Accessibility, acc),
        InsertStep::Done(Err(InsertError {
            message: "UIA insertion not yet implemented on Windows".to_string()
        }))
    );
    assert_eq!(
        insert_text("x", InsertMethod::Type),
        InsertStep::Attempt(InsertTier::Type)
    );
}
