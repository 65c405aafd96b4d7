use claw::engage::{evaluate, Engage, EngageInput};
use claw::protocol::entities::EngageMode;

fn input(mode: EngageMode, is_group: bool, is_mention: bool) -> EngageInput<'static> {
    EngageInput {
        is_chat: true,
        is_group,
        is_mention,
        sticky: false,
        mode,
        pattern: None,
        text: "",
    }
}

#[test]
fn direct_messages_always_run() {
    for mode in EngageMode::all() {
        assert_eq!(evaluate(&input(mode, false, false)), Engage::Run);
    }
}

#[test]
fn non_chat_always_runs_even_in_groups() {
    let scheduled = EngageInput {
        is_chat: false,
        ..input(EngageMode::Mention, true, false)
    };
    assert_eq!(evaluate(&scheduled), Engage::Run);
}

#[test]
fn mention_mode_runs_only_when_mentioned() {
    assert_eq!(
        evaluate(&input(EngageMode::Mention, true, true)),
        Engage::Run
    );
    assert_eq!(
        evaluate(&input(EngageMode::Mention, true, false)),
        Engage::Accumulate
    );
}

#[test]
fn mention_sticky_runs_when_mentioned_or_sticky() {
    let sticky = EngageInput {
        sticky: true,
        ..input(EngageMode::MentionSticky, true, false)
    };
    assert_eq!(evaluate(&sticky), Engage::Run);
    assert_eq!(
        evaluate(&input(EngageMode::MentionSticky, true, false)),
        Engage::Accumulate
    );
}

#[test]
fn pattern_mode_matches_substring_case_insensitively() {
    let hit = EngageInput {
        pattern: Some("Deploy"),
        text: "please deploy the build",
        ..input(EngageMode::Pattern, true, false)
    };
    assert_eq!(evaluate(&hit), Engage::Run);
    let miss = EngageInput {
        pattern: Some("deploy"),
        text: "what is the weather",
        ..input(EngageMode::Pattern, true, false)
    };
    assert_eq!(evaluate(&miss), Engage::Accumulate);
}

#[test]
fn patterns_match_beyond_ascii() {
    let hit = EngageInput {
        pattern: Some("ÉTÉ"),
        text: "cet été",
        ..input(EngageMode::Pattern, true, false)
    };
    assert_eq!(evaluate(&hit), Engage::Run);
}

#[test]
fn pattern_without_a_configured_pattern_accumulates() {
    assert_eq!(
        evaluate(&input(EngageMode::Pattern, true, false)),
        Engage::Accumulate
    );
}
