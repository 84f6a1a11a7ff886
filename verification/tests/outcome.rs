//! Session outcomes.

use memory_engine::bootstrap::filter::{ConversationTurn, ToolCallRecord};
use memory_engine::bootstrap::outcome::{
    classify_outcome, detect_commit, detect_error_loops, detect_tests_passed, has_short_sha,
    outcome_from_signals, OutcomeSignals, Sentiment, SessionOutcome, TestOutcome,
};
use memory_engine::time::Timestamp;

fn command(text: &str) -> serde_json::Value {
    let mut map = serde_json::Map::new();
    map.insert("command".to_string(), serde_json::Value::String(text.to_string()));
    serde_json::Value::Object(map)
}

fn make_turn(
    user_text: &str,
    assistant_text: &str,
    tool_calls: Vec<ToolCallRecord>,
) -> ConversationTurn {
    ConversationTurn {
        timestamp: Timestamp { secs: 1_700_000_000, nanos: 0 },
        user_text: user_text.into(),
        assistant_text: assistant_text.into(),
        tool_calls,
        uuid: "test-uuid".into(),
    }
}

fn make_tool_call(
    stdout: Option<&str>,
    stderr: Option<&str>,
    is_error: bool,
) -> ToolCallRecord {
    ToolCallRecord {
        tool_name: "Bash".into(),
        input: command("test"),
        stdout: stdout.map(Into::into),
        stderr: stderr.map(Into::into),
        is_error,
        interrupted: false,
    }
}

#[test]
fn classify_success_commit() {
    let turns = vec![make_turn(
        "commit this",
        "done",
        vec![make_tool_call(
            Some("[main abc1234] feat: add feature\n 1 file changed"),
            None,
            false,
        )],
    )];
    let (outcome, signals) = classify_outcome(&turns);
    assert_eq!(outcome, SessionOutcome::Success);
    assert!(signals.has_commit);
}

#[test]
fn classify_success_tests_pass() {
    let turns = vec![make_turn(
        "run tests",
        "running",
        vec![make_tool_call(
            Some("test result: ok. 42 passed; 0 failed"),
            None,
            false,
        )],
    )];
    let (outcome, signals) = classify_outcome(&turns);
    assert_eq!(outcome, SessionOutcome::Success);
    assert_eq!(signals.tests_passed, TestOutcome::Passed);
}

#[test]
fn classify_failure_error_loop_with_interruption() {
    let err = "error[E0308]: mismatched types";
    let mut last_call = make_tool_call(None, Some(err), true);
    last_call.interrupted = true;
    let turns = vec![
        make_turn(
            "fix it",
            "trying",
            vec![make_tool_call(None, Some(err), true)],
        ),
        make_turn(
            "fix it",
            "trying",
            vec![make_tool_call(None, Some(err), true)],
        ),
        make_turn("fix it", "trying", vec![last_call]),
    ];
    let (outcome, signals) = classify_outcome(&turns);
    assert_eq!(outcome, SessionOutcome::Failure);
    assert!(signals.has_error_loops);
    assert!(signals.was_interrupted);
}

#[test]
fn error_loop_without_interruption_is_failure() {
    let err = "error[E0308]: mismatched types";
    let turns = vec![
        make_turn(
            "fix it",
            "trying",
            vec![make_tool_call(None, Some(err), true)],
        ),
        make_turn(
            "fix it",
            "trying",
            vec![make_tool_call(None, Some(err), true)],
        ),
        make_turn(
            "fix it",
            "trying",
            vec![make_tool_call(None, Some(err), true)],
        ),
    ];
    let (outcome, signals) = classify_outcome(&turns);
    // Error loops alone are sufficient for Failure classification
    assert_eq!(outcome, SessionOutcome::Failure);
    assert!(signals.has_error_loops);
    assert!(!signals.was_interrupted);
}

#[test]
fn classify_failure_negative_sentiment() {
    let turns = vec![make_turn(
        "this is broken, revert it",
        "ok",
        vec![make_tool_call(None, None, false)],
    )];
    let (outcome, signals) = classify_outcome(&turns);
    assert_eq!(outcome, SessionOutcome::Failure);
    assert_eq!(signals.final_user_sentiment, Some(Sentiment::Negative));
    assert!(!signals.has_commit);
}

#[test]
fn classify_indeterminate() {
    let turns = vec![make_turn(
        "do something",
        "ok",
        vec![make_tool_call(Some("some output"), None, false)],
    )];
    let (outcome, signals) = classify_outcome(&turns);
    assert_eq!(outcome, SessionOutcome::Indeterminate);
    assert!(!signals.has_commit);
    assert_eq!(signals.tests_passed, TestOutcome::NotObserved);
    assert!(!signals.has_error_loops);
    assert!(!signals.was_interrupted);
}

#[test]
fn sentiment_positive() {
    let turns = vec![make_turn("thanks, that works!", "", vec![])];
    let (_, signals) = classify_outcome(&turns);
    assert_eq!(signals.final_user_sentiment, Some(Sentiment::Positive));
}

#[test]
fn sentiment_negative() {
    let turns = vec![make_turn("this is broken", "", vec![])];
    let (_, signals) = classify_outcome(&turns);
    assert_eq!(signals.final_user_sentiment, Some(Sentiment::Negative));
}

#[test]
fn sentiment_neutral() {
    let turns = vec![make_turn("ok", "", vec![])];
    let (_, signals) = classify_outcome(&turns);
    assert_eq!(signals.final_user_sentiment, Some(Sentiment::Neutral));
}

#[test]
fn detect_commit_via_git_commit_command() {
    let tc = ToolCallRecord {
        tool_name: "Bash".into(),
        input: command("git commit -m 'feat: stuff'"),
        stdout: None,
        stderr: None,
        is_error: false,
        interrupted: false,
    };
    let turns = vec![make_turn("commit", "ok", vec![tc])];
    let (_, signals) = classify_outcome(&turns);
    assert!(signals.has_commit);
}

#[test]
fn no_error_loop_with_different_errors() {
    let turns = vec![
        make_turn(
            "fix",
            "try",
            vec![make_tool_call(None, Some("error A"), true)],
        ),
        make_turn(
            "fix",
            "try",
            vec![make_tool_call(None, Some("error B"), true)],
        ),
        make_turn(
            "fix",
            "try",
            vec![make_tool_call(None, Some("error C"), true)],
        ),
    ];
    let (_, signals) = classify_outcome(&turns);
    assert!(!signals.has_error_loops);
}

#[test]
fn interrupted_flag_true_triggers_was_interrupted() {
    let mut tc = make_tool_call(Some("output"), None, false);
    tc.interrupted = true;
    let turns = vec![make_turn("do thing", "ok", vec![tc])];
    let (_, signals) = classify_outcome(&turns);
    assert!(signals.was_interrupted);
}

#[test]
fn is_error_alone_does_not_trigger_was_interrupted() {
    let tc_err = make_tool_call(None, Some("fail"), true);
    let turns = vec![make_turn("do thing", "ok", vec![tc_err])];
    let (_, signals) = classify_outcome(&turns);
    assert!(!signals.was_interrupted);
}

#[test]
fn has_short_sha_works() {
    assert!(has_short_sha("abc1234"));
    assert!(has_short_sha("prefix abc1234 suffix"));
    assert!(!has_short_sha("abc12")); // only 5 hex chars
    assert!(!has_short_sha("xyz"));
}

#[test]
fn detect_tests_passed_pytest_branch() {
    // Isolates the pytest-specific branch (`pytest` + ` ok`): the stdout
    // deliberately omits "passed" so the earlier `passed && test` branch
    // cannot fire first (note "pytest" itself contains "test").
    let tc = ToolCallRecord {
        tool_name: "Bash".into(),
        input: command("pytest"),
        stdout: Some("pytest collected 5 items\n5 ok in 0.12s".into()),
        stderr: None,
        is_error: false,
        interrupted: false,
    };
    let turns = vec![make_turn("run tests", "running pytest", vec![tc])];
    let (outcome, signals) = classify_outcome(&turns);
    assert_eq!(signals.tests_passed, TestOutcome::Passed);
    assert_eq!(outcome, SessionOutcome::Success);
}

#[test]
fn detect_commit_via_master_branch_in_stdout() {
    // Isolates the `[master` stdout pattern: the input command is NOT
    // `git commit` (so the command branch is skipped) and the SHA is <7 hex
    // (so `has_short_sha` cannot fire) — only `[master` can satisfy it here.
    let tc = ToolCallRecord {
        tool_name: "Bash".into(),
        input: command("make release"),
        stdout: Some("[master ab12] release: cut version\n 1 file changed".into()),
        stderr: None,
        is_error: false,
        interrupted: false,
    };
    let turns = vec![make_turn("commit", "ok", vec![tc])];
    let (_, signals) = classify_outcome(&turns);
    assert!(signals.has_commit);
}

#[test]
fn no_turns_is_neutral_and_indeterminate() {
    let (outcome, signals) = classify_outcome(&[]);
    assert_eq!(outcome, SessionOutcome::Indeterminate);
    assert_eq!(
        signals,
        OutcomeSignals {
            has_commit: false,
            tests_passed: TestOutcome::NotObserved,
            has_error_loops: false,
            was_interrupted: false,
            final_user_sentiment: Some(Sentiment::Neutral),
        }
    );
}

#[test]
fn commit_command_is_found_whatever_its_case() {
    let mut tc = make_tool_call(None, None, false);
    tc.input = command("GIT COMMIT -m 'X'");
    assert!(detect_commit(&[make_turn("", "", vec![tc])]));
}

#[test]
fn test_output_is_read_whatever_its_case() {
    let tc = make_tool_call(Some("TEST RESULT: OK. 3 PASSED; 0 FAILED"), None, false);
    assert!(detect_tests_passed(&[make_turn("", "", vec![tc])]));
}

#[test]
fn sentiment_of_an_earlier_message_does_not_count() {
    let turns = vec![make_turn("this is broken", "", vec![]), make_turn("next", "", vec![])];
    let (_, signals) = classify_outcome(&turns);
    assert_eq!(signals.final_user_sentiment, Some(Sentiment::Neutral));
}

#[test]
fn praise_outweighs_complaint() {
    let turns = vec![make_turn("GREAT, but the build failed", "", vec![])];
    let (_, signals) = classify_outcome(&turns);
    assert_eq!(signals.final_user_sentiment, Some(Sentiment::Positive));
}

#[test]
fn two_equal_errors_are_no_loop() {
    let err = "error[E0308]: mismatched types";
    let turns = vec![make_turn(
        "fix it",
        "trying",
        vec![make_tool_call(None, Some(err), true), make_tool_call(None, Some(err), true)],
    )];
    assert!(!detect_error_loops(&turns));
}

#[test]
fn errors_that_differ_in_white_space_around_them_are_a_loop() {
    let turns = vec![make_turn(
        "fix it",
        "trying",
        vec![
            make_tool_call(None, Some("boom"), true),
            make_tool_call(None, Some("boom\u{2003}\n"), true),
            make_tool_call(None, Some("  boom"), true),
        ],
    )];
    let same = make_turn(
        "fix it",
        "trying",
        vec![
            make_tool_call(None, Some("boom"), true),
            make_tool_call(None, Some("boom"), true),
            make_tool_call(None, Some("boom"), true),
        ],
    );
    assert!(detect_error_loops(&[same]));
    assert!(detect_error_loops(&turns));
}

#[test]
fn loop_with_interruption_fails_even_when_tests_passed() {
    let signals = OutcomeSignals {
        has_commit: true,
        tests_passed: TestOutcome::Passed,
        has_error_loops: true,
        was_interrupted: true,
        final_user_sentiment: Some(Sentiment::Positive),
    };
    assert_eq!(outcome_from_signals(&signals), SessionOutcome::Failure);
}

#[test]
fn complaint_after_a_commit_is_no_failure() {
    let signals = OutcomeSignals {
        has_commit: true,
        tests_passed: TestOutcome::NotObserved,
        has_error_loops: false,
        was_interrupted: false,
        final_user_sentiment: Some(Sentiment::Negative),
    };
    assert_ne!(outcome_from_signals(&signals), SessionOutcome::Failure);
}
