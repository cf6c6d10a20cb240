use whispr::dictionary::{Snippet, SnippetEngine};

fn engine() -> SnippetEngine {
    SnippetEngine::new(vec![
        Snippet {
            trigger: "my signature".into(),
            expansion: "Best regards,\nDimitar Grigorov".into(),
        },
        Snippet {
            trigger: "standup link".into(),
            expansion: "https://meet.example.com/standup".into(),
        },
        Snippet {
            trigger: "brb".into(),
            expansion: "Be right back!".into(),
        },
    ])
}

#[test]
fn whole_utterance_trigger_expands() {
    assert_eq!(engine().expand("My signature."), "Best regards,\nDimitar Grigorov");
}

#[test]
fn inline_multiword_trigger_expands() {
    assert_eq!(
        engine().expand("Join at standup link please"),
        "Join at https://meet.example.com/standup please"
    );
}

#[test]
fn single_word_trigger_only_matches_whole_utterance() {
    assert_eq!(engine().expand("brb"), "Be right back!");
    assert_eq!(engine().expand("I said brb earlier"), "I said brb earlier");
}

#[test]
fn no_trigger_passthrough() {
    assert_eq!(engine().expand("Nothing to see here."), "Nothing to see here.");
}

use whispr::dictionary::{first_whole_match, join_lowered, normal_words_of, normalize};

fn strings(v: &[&str]) -> Vec<String> {
    v.iter().map(|s| s.to_string()).collect()
}

#[test]
fn normalization_in_steps() {
    let text = "  Hello,   World! It's\tME. ";
    let words = normal_words_of(text);
    assert_eq!(words, strings(&["Hello", "World", "Its", "ME"]));
    let lowered: Vec<String> = words.iter().map(|w| w.to_lowercase()).collect();
    assert_eq!(join_lowered(&lowered), "hello world its me");
    assert_eq!(normalize(text), "hello world its me");
    assert_eq!(normalize(&normalize(text)), normalize(text));
    assert_eq!(normalize("...  !!"), "");
    assert_eq!(join_lowered(&Vec::new()), "");
}

#[test]
fn whole_utterance_selects_the_first_equal_trigger() {
    let triggers = strings(&["my signature", "brb", "brb"]);
    assert_eq!(first_whole_match(&triggers, "brb"), Some(1));
    assert_eq!(first_whole_match(&triggers, "my signature"), Some(0));
    assert_eq!(first_whole_match(&triggers, "signature"), None);
    assert_eq!(first_whole_match(&Vec::new(), ""), None);
}
