//! Heuristic classification of how a session ended.
//!
//! All keyword matching ignores case and knows English only.

use crate::bootstrap::filter::{flatten_tool_calls, ConversationTurn, ToolCallRecord};
use crate::json::member_str;
use crate::text::{chars_of, contains, eq_ignore_ascii_case, same_chars, to_lowercase, trim};
use vstd::prelude::*;

verus! {

/// How a session ended.
#[derive(Debug, Clone, Copy, PartialEq, Eq, Structural)]
pub enum SessionOutcome {
    Success,
    Failure,
    Indeterminate,
}

/// Whether tests were seen to pass.
///
/// Only a passing run leaves a sign, so its absence is no proof of a failure.
#[derive(Debug, Clone, Copy, PartialEq, Eq, Structural, Default)]
pub enum TestOutcome {
    /// A passing test run was seen.
    Passed,
    /// No passing test run was seen.
    #[default]
    NotObserved,
}

/// The mood of the user's last message.
#[derive(Debug, Clone, Copy, PartialEq, Eq, Structural)]
pub enum Sentiment {
    Positive,
    Negative,
    Neutral,
}

/// The signs that a classification rests on.
#[derive(Debug, Clone, Copy, PartialEq, Eq, Structural, Default)]
pub struct OutcomeSignals {
    pub has_commit: bool,
    pub tests_passed: TestOutcome,
    pub has_error_loops: bool,
    /// The last tool call of the session was interrupted.
    pub was_interrupted: bool,
    pub final_user_sentiment: Option<Sentiment>,
}

/// An ASCII hexadecimal digit.
pub open spec fn is_hex_digit(c: char) -> bool {
    ('0' <= c && c <= '9') || ('a' <= c && c <= 'f') || ('A' <= c && c <= 'F')
}

/// `n` hexadecimal digits stand in a row in `s`, starting at `i`.
pub open spec fn hex_run_at(s: Seq<char>, i: int, n: int) -> bool {
    0 <= i && i + n <= s.len() && forall|j: int| i <= j < i + n ==> is_hex_digit(#[trigger] s[j])
}

/// Seven hexadecimal digits stand in a row somewhere in `s`.
pub open spec fn has_sha(s: Seq<char>) -> bool {
    exists|i: int| #[trigger] hex_run_at(s, i, 7)
}

/// A command line, in lower case, that makes a commit.
pub open spec fn commit_command(lower: Seq<char>) -> bool {
    crate::text::occurs_in(lower, "git commit"@)
}

/// Output, in lower case and as printed, that reports a commit.
pub open spec fn commit_output(lower: Seq<char>, printed: Seq<char>) -> bool {
    ||| crate::text::occurs_in(lower, "[main"@)
    ||| crate::text::occurs_in(lower, "[master"@)
    ||| has_sha(printed)
}

/// Output, in lower case, of a passing test run.
pub open spec fn passing_output(lower: Seq<char>) -> bool {
    ||| crate::text::occurs_in(lower, "test result: ok"@)
    ||| crate::text::occurs_in(lower, "passed"@) && (crate::text::occurs_in(lower, "test"@)
        || crate::text::occurs_in(lower, "tests"@))
    ||| crate::text::occurs_in(lower, "pytest"@) && crate::text::occurs_in(lower, " ok"@)
}

/// The tool call made or reported a commit.
pub open spec fn call_commits(call: ToolCallRecord) -> bool {
    ||| {
        &&& crate::text::same_ignoring_ascii_case(call.tool_name@, "bash"@)
        &&& crate::json::member_text(call.input, "command"@) matches Some(command)
        &&& commit_command(crate::text::lowercase(command))
    }
    ||| (call.stdout matches Some(out) && commit_output(crate::text::lowercase(out@), out@))
}

/// The tool call printed a passing test run.
pub open spec fn call_passes_tests(call: ToolCallRecord) -> bool {
    call.stdout matches Some(out) && passing_output(crate::text::lowercase(out@))
}

/// What an error output is compared by: its first hundred characters, without
/// the white space around it. An output that holds nothing else has none.
pub open spec fn error_key(stderr: Option<String>) -> Option<Seq<char>> {
    match stderr {
        Some(text) => {
            let body = crate::text::trimmed(text@);
            if body.len() == 0 {
                None
            } else if body.len() <= 100 {
                Some(body)
            } else {
                Some(body.take(100))
            }
        },
        None => None,
    }
}

/// The three calls from `k` on failed with the same error.
pub open spec fn same_error_thrice(calls: Seq<ToolCallRecord>, k: int) -> bool {
    &&& 0 <= k && k + 2 < calls.len()
    &&& error_key(calls[k].stderr) is Some
    &&& error_key(calls[k].stderr) == error_key(calls[k + 1].stderr)
    &&& error_key(calls[k].stderr) == error_key(calls[k + 2].stderr)
}

/// Some tool call of the turns made or reported a commit.
pub open spec fn commits(turns: Seq<ConversationTurn>) -> bool {
    exists|k: int|
        0 <= k < crate::bootstrap::filter::tool_calls(turns).len() && call_commits(
            #[trigger] crate::bootstrap::filter::tool_calls(turns)[k],
        )
}

/// Some tool call of the turns printed a passing test run.
pub open spec fn passes_tests(turns: Seq<ConversationTurn>) -> bool {
    exists|k: int|
        0 <= k < crate::bootstrap::filter::tool_calls(turns).len() && call_passes_tests(
            #[trigger] crate::bootstrap::filter::tool_calls(turns)[k],
        )
}

/// Three consecutive tool calls, across turns, failed with the same error.
pub open spec fn loops_on_error(turns: Seq<ConversationTurn>) -> bool {
    exists|k: int| #[trigger]
        same_error_thrice(crate::bootstrap::filter::tool_calls(turns), k)
}

/// The very last tool call of the turns was interrupted.
pub open spec fn ends_interrupted(turns: Seq<ConversationTurn>) -> bool {
    let calls = crate::bootstrap::filter::tool_calls(turns);
    calls.len() > 0 && calls.last().interrupted
}

/// The text, in lower case, holds a word of praise.
pub open spec fn praises(lower: Seq<char>) -> bool {
    ||| crate::text::occurs_in(lower, "thanks"@)
    ||| crate::text::occurs_in(lower, "great"@)
    ||| crate::text::occurs_in(lower, "perfect"@)
    ||| crate::text::occurs_in(lower, "works"@)
    ||| crate::text::occurs_in(lower, "awesome"@)
    ||| crate::text::occurs_in(lower, "good"@)
    ||| crate::text::occurs_in(lower, "nice"@)
}

/// The text, in lower case, holds a word of complaint.
pub open spec fn complains(lower: Seq<char>) -> bool {
    ||| crate::text::occurs_in(lower, "wrong"@)
    ||| crate::text::occurs_in(lower, "broken"@)
    ||| crate::text::occurs_in(lower, "revert"@)
    ||| crate::text::occurs_in(lower, "undo"@)
    ||| crate::text::occurs_in(lower, "doesn't work"@)
    ||| crate::text::occurs_in(lower, "failed"@)
}

/// The mood of a text in lower case. Praise outweighs complaint.
pub open spec fn mood(lower: Seq<char>) -> Sentiment {
    if praises(lower) {
        Sentiment::Positive
    } else if complains(lower) {
        Sentiment::Negative
    } else {
        Sentiment::Neutral
    }
}

/// The mood of the last turn's user message; neutral when there is no turn.
pub open spec fn final_mood(turns: Seq<ConversationTurn>) -> Sentiment {
    if turns.len() == 0 {
        Sentiment::Neutral
    } else {
        mood(crate::text::lowercase(turns.last().user_text@))
    }
}

/// The signs that the turns show.
pub open spec fn signals_of(turns: Seq<ConversationTurn>) -> OutcomeSignals {
    OutcomeSignals {
        has_commit: commits(turns),
        tests_passed: if passes_tests(turns) {
            TestOutcome::Passed
        } else {
            TestOutcome::NotObserved
        },
        has_error_loops: loops_on_error(turns),
        was_interrupted: ends_interrupted(turns),
        final_user_sentiment: Some(final_mood(turns)),
    }
}

/// The outcome that the signs point to.
pub open spec fn outcome_of(signals: OutcomeSignals) -> SessionOutcome {
    if (signals.has_commit && !signals.has_error_loops) || (signals.tests_passed
        == TestOutcome::Passed && !signals.was_interrupted) {
        SessionOutcome::Success
    } else if signals.has_error_loops || signals.was_interrupted || (signals.final_user_sentiment
        == Some(Sentiment::Negative) && !signals.has_commit) {
        SessionOutcome::Failure
    } else {
        SessionOutcome::Indeterminate
    }
}

/// Whether the command line, given in lower case, makes a commit.
pub fn is_commit_command(lower: &str) -> (r: bool)
    ensures
        r == commit_command(lower@),
{
    contains(lower, "git commit")
}

/// Whether the output reports a commit, by a branch header in its lower-case
/// form or by something like a commit hash in its printed form.
pub fn is_commit_output(lower: &str, printed: &str) -> (r: bool)
    ensures
        r == commit_output(lower@, printed@),
{
    contains(lower, "[main") || contains(lower, "[master") || has_short_sha(printed)
}

/// Whether the output, given in lower case, is that of a passing test run.
pub fn is_passing_output(lower: &str) -> (r: bool)
    ensures
        r == passing_output(lower@),
{
    if contains(lower, "test result: ok") {
        return true;
    }
    if contains(lower, "passed") && (contains(lower, "test") || contains(lower, "tests")) {
        return true;
    }
    contains(lower, "pytest") && contains(lower, " ok")
}

/// The mood of a text given in lower case.
pub fn mood_of(lower: &str) -> (r: Sentiment)
    ensures
        r == mood(lower@),
{
    if contains(lower, "thanks") || contains(lower, "great") || contains(lower, "perfect")
        || contains(lower, "works") || contains(lower, "awesome") || contains(lower, "good")
        || contains(lower, "nice") {
        return Sentiment::Positive;
    }
    if contains(lower, "wrong") || contains(lower, "broken") || contains(lower, "revert")
        || contains(lower, "undo") || contains(lower, "doesn't work") || contains(lower, "failed") {
        return Sentiment::Negative;
    }
    Sentiment::Neutral
}

/// The outcome that the signs point to: a success when there is a commit and no
/// error loop, or passing tests and no interruption; else a failure when there
/// is an error loop, an interruption, or a complaint without a commit.
pub fn outcome_from_signals(signals: &OutcomeSignals) -> (r: SessionOutcome)
    ensures
        r == outcome_of(*signals),
{
    let passed = signals.tests_passed == TestOutcome::Passed;
    let negative = match signals.final_user_sentiment {
        Some(s) => s == Sentiment::Negative,
        None => false,
    };
    if (signals.has_commit && !signals.has_error_loops) || (passed && !signals.was_interrupted) {
        SessionOutcome::Success
    } else if signals.has_error_loops || signals.was_interrupted || (negative
        && !signals.has_commit) {
        SessionOutcome::Failure
    } else {
        SessionOutcome::Indeterminate
    }
}

/// Classifies a session by its turns, and says by which signs.
#[must_use]
pub fn classify_outcome(turns: &[ConversationTurn]) -> (r: (SessionOutcome, OutcomeSignals))
    ensures
        r.1 == signals_of(turns@),
        r.0 == outcome_of(signals_of(turns@)),
{
    let has_commit = detect_commit(turns);
    let tests_passed = detect_tests_passed(turns);
    let has_error_loops = detect_error_loops(turns);
    let was_interrupted = detect_interrupted(turns);
    let final_user_sentiment = detect_sentiment(turns);
    let signals = OutcomeSignals {
        has_commit,
        tests_passed: if tests_passed {
            TestOutcome::Passed
        } else {
            TestOutcome::NotObserved
        },
        has_error_loops,
        was_interrupted,
        final_user_sentiment: Some(final_user_sentiment),
    };
    (outcome_from_signals(&signals), signals)
}

/// The `command` of a tool's input, where that is a string.
pub fn input_command<'a>(input: &'a serde_json::Value) -> (r: Option<&'a str>)
    ensures
        match r {
            Some(text) => crate::json::member_text(*input, "command"@) == Some(text@),
            None => crate::json::member_text(*input, "command"@) is None,
        },
{
    member_str(input, "command")
}

fn commits_here(call: &ToolCallRecord) -> (r: bool)
    ensures
        r == call_commits(*call),
{
    if eq_ignore_ascii_case(call.tool_name.as_str(), "bash") {
        if let Some(command) = input_command(&call.input) {
            let lower = to_lowercase(command);
            if is_commit_command(lower.as_str()) {
                return true;
            }
        }
    }
    match &call.stdout {
        Some(stdout) => {
            let lower = to_lowercase(stdout.as_str());
            is_commit_output(lower.as_str(), stdout.as_str())
        },
        None => false,
    }
}

/// Whether any tool call made or reported a commit.
pub fn detect_commit(turns: &[ConversationTurn]) -> (r: bool)
    ensures
        r == commits(turns@),
{
    let calls = flatten_tool_calls(turns);
    let mut k: usize = 0;
    while k < calls.len()
        invariant
            k <= calls@.len(),
            calls@.len() == crate::bootstrap::filter::tool_calls(turns@).len(),
            forall|j: int|
                0 <= j < calls@.len() ==> *#[trigger] calls@[j]
                    == crate::bootstrap::filter::tool_calls(turns@)[j],
            forall|j: int|
                0 <= j < k ==> !call_commits(
                    #[trigger] crate::bootstrap::filter::tool_calls(turns@)[j],
                ),
        decreases calls@.len() - k,
    {
        if commits_here(calls[k]) {
            return true;
        }
        k = k + 1;
    }
    false
}

fn hex_digit(c: char) -> (r: bool)
    ensures
        r == is_hex_digit(c),
{
    ('0' <= c && c <= '9') || ('a' <= c && c <= 'f') || ('A' <= c && c <= 'F')
}

/// Whether `s` holds a run of seven or more hexadecimal digits, as an
/// abbreviated commit hash does.
pub fn has_short_sha(s: &str) -> (r: bool)
    ensures
        r == has_sha(s@),
{
    let chars = chars_of(s);
    let mut hex_run: usize = 0;
    let mut p: usize = 0;
    while p < chars.len()
        invariant
            chars@ == s@,
            p <= chars@.len(),
            hex_run < 7,
            hex_run <= p,
            forall|j: int| p - hex_run <= j < p ==> is_hex_digit(#[trigger] chars@[j]),
            hex_run < p ==> !is_hex_digit(chars@[p - hex_run - 1]),
            forall|i: int| i + 7 <= p ==> !#[trigger] hex_run_at(chars@, i, 7),
        decreases chars@.len() - p,
    {
        if hex_digit(chars[p]) {
            hex_run = hex_run + 1;
            if hex_run >= 7 {
                assert(hex_run_at(chars@, p - 6, 7));
                return true;
            }
        } else {
            hex_run = 0;
        }
        p = p + 1;
        assert forall|i: int| i + 7 <= p implies !#[trigger] hex_run_at(chars@, i, 7) by {
            if i + 7 == p && hex_run_at(chars@, i, 7) {
                assert(i <= p - hex_run - 1 < i + 7);
                assert(is_hex_digit(chars@[p - hex_run - 1]));
            }
        }
    }
    false
}

fn passes_tests_here(call: &ToolCallRecord) -> (r: bool)
    ensures
        r == call_passes_tests(*call),
{
    match &call.stdout {
        Some(stdout) => {
            let lower = to_lowercase(stdout.as_str());
            is_passing_output(lower.as_str())
        },
        None => false,
    }
}

/// Whether any tool call printed a passing test run.
pub fn detect_tests_passed(turns: &[ConversationTurn]) -> (r: bool)
    ensures
        r == passes_tests(turns@),
{
    let calls = flatten_tool_calls(turns);
    let mut k: usize = 0;
    while k < calls.len()
        invariant
            k <= calls@.len(),
            calls@.len() == crate::bootstrap::filter::tool_calls(turns@).len(),
            forall|j: int|
                0 <= j < calls@.len() ==> *#[trigger] calls@[j]
                    == crate::bootstrap::filter::tool_calls(turns@)[j],
            forall|j: int|
                0 <= j < k ==> !call_passes_tests(
                    #[trigger] crate::bootstrap::filter::tool_calls(turns@)[j],
                ),
        decreases calls@.len() - k,
    {
        if passes_tests_here(calls[k]) {
            return true;
        }
        k = k + 1;
    }
    false
}

/// The view of an optional character vector.
pub open spec fn key_view(key: Option<Vec<char>>) -> Option<Seq<char>> {
    match key {
        Some(chars) => Some(chars@),
        None => None,
    }
}

/// What the error output of a call is compared by.
pub fn stderr_key(stderr: &Option<String>) -> (r: Option<Vec<char>>)
    ensures
        key_view(r) == error_key(*stderr),
{
    match stderr {
        Some(text) => {
            let mut body = chars_of(trim(text.as_str()));
            if body.is_empty() {
                None
            } else {
                if body.len() > 100 {
                    body.truncate(100);
                }
                Some(body)
            }
        },
        None => None,
    }
}

fn same_key(a: &Option<Vec<char>>, b: &Option<Vec<char>>) -> (r: bool)
    ensures
        r == (key_view(*a) is Some && key_view(*a) == key_view(*b)),
{
    match (a, b) {
        (Some(x), Some(y)) => same_chars(x, y),
        _ => false,
    }
}

/// Whether the same error came back in three consecutive tool calls, across
/// turns.
pub fn detect_error_loops(turns: &[ConversationTurn]) -> (r: bool)
    ensures
        r == loops_on_error(turns@),
{
    let calls = flatten_tool_calls(turns);
    let ghost all = crate::bootstrap::filter::tool_calls(turns@);
    if calls.len() == 0 {
        return false;
    }
    let mut last = stderr_key(&calls[0].stderr);
    let mut consecutive: usize = 1;
    let mut k: usize = 1;
    while k < calls.len()
        invariant
            1 <= k <= calls@.len(),
            all == crate::bootstrap::filter::tool_calls(turns@),
            calls@.len() == all.len(),
            forall|j: int| 0 <= j < calls@.len() ==> *#[trigger] calls@[j] == all[j],
            key_view(last) == error_key(all[k - 1].stderr),
            consecutive == 1 || consecutive == 2,
            consecutive == 2 ==> k >= 2 && error_key(all[k - 1].stderr) is Some && error_key(
                all[k - 2].stderr,
            ) == error_key(all[k - 1].stderr),
            consecutive == 1 && k >= 2 ==> !(error_key(all[k - 1].stderr) is Some && error_key(
                all[k - 2].stderr,
            ) == error_key(all[k - 1].stderr)),
            forall|j: int| j + 2 < k ==> !#[trigger] same_error_thrice(all, j),
        decreases calls@.len() - k,
    {
        let key = stderr_key(&calls[k].stderr);
        if same_key(&last, &key) {
            consecutive = consecutive + 1;
            if consecutive >= 3 {
                assert(same_error_thrice(all, k - 2));
                return true;
            }
        } else {
            consecutive = 1;
        }
        last = key;
        k = k + 1;
        assert forall|j: int| j + 2 < k implies !#[trigger] same_error_thrice(all, j) by {
            if j + 3 == k && same_error_thrice(all, j) {
                assert(error_key(all[k - 3].stderr) == error_key(all[k - 2].stderr));
            }
        }
    }
    false
}

/// Whether the very last tool call was interrupted.
pub fn detect_interrupted(turns: &[ConversationTurn]) -> (r: bool)
    ensures
        r == ends_interrupted(turns@),
{
    let calls = flatten_tool_calls(turns);
    if calls.len() == 0 {
        false
    } else {
        calls[calls.len() - 1].interrupted
    }
}

/// The mood of the last user message.
pub fn detect_sentiment(turns: &[ConversationTurn]) -> (r: Sentiment)
    ensures
        r == final_mood(turns@),
{
    if turns.len() == 0 {
        return Sentiment::Neutral;
    }
    let lower = to_lowercase(turns[turns.len() - 1].user_text.as_str());
    mood_of(lower.as_str())
}

/// An error loop rules out a success by commit, and an interruption one by
/// passing tests: with both, the session failed whatever else it shows.
pub proof fn loop_and_interruption_is_failure(signals: OutcomeSignals)
    requires
        signals.has_error_loops,
        signals.was_interrupted,
    ensures
        outcome_of(signals) == SessionOutcome::Failure,
{
}

/// An error loop alone is enough for a failure when no tests passed.
pub proof fn error_loop_is_failure_without_passing_tests(signals: OutcomeSignals)
    requires
        signals.has_error_loops,
        signals.tests_passed == TestOutcome::NotObserved,
    ensures
        outcome_of(signals) == SessionOutcome::Failure,
{
}

/// A session that made a commit and did not loop on an error is a success,
/// whatever the user complains of.
pub proof fn complaint_needs_missing_commit(signals: OutcomeSignals)
    requires
        signals.has_commit,
        !signals.has_error_loops,
    ensures
        outcome_of(signals) == SessionOutcome::Success,
{
}

/// How the signs decide. A commit without an error loop is a success, and so are
/// passing tests without an interruption. An error loop is a failure unless tests
/// passed without an interruption. An interruption without a commit is a failure,
/// whatever else there is. A complaint with neither a commit nor passing tests is a
/// failure. A session that shows none of all this is indeterminate.
pub proof fn signs_decide_the_outcome(signals: &OutcomeSignals, r: SessionOutcome)
    requires
        call_ensures(outcome_from_signals, (signals,), r),
    ensures
        signals.has_commit && !signals.has_error_loops ==> r == SessionOutcome::Success,
        signals.tests_passed == TestOutcome::Passed && !signals.was_interrupted ==> r
            == SessionOutcome::Success,
        signals.has_error_loops && signals.tests_passed == TestOutcome::NotObserved ==> r
            == SessionOutcome::Failure,
        signals.has_error_loops && signals.was_interrupted ==> r == SessionOutcome::Failure,
        signals.was_interrupted && !signals.has_commit ==> r == SessionOutcome::Failure,
        signals.final_user_sentiment == Some(Sentiment::Negative) && !signals.has_commit
            && signals.tests_passed == TestOutcome::NotObserved ==> r == SessionOutcome::Failure,
        !signals.has_commit && signals.tests_passed == TestOutcome::NotObserved
            && !signals.has_error_loops && !signals.was_interrupted && signals.final_user_sentiment
            != Some(Sentiment::Negative) ==> r == SessionOutcome::Indeterminate,
{
}

/// Of two sessions that differ only in that one was interrupted, looped on an error
/// or ended with a complaint, that one never turns out better.
pub proof fn bad_signs_never_help(
    plain: &OutcomeSignals,
    worse: &OutcomeSignals,
    r: SessionOutcome,
    s: SessionOutcome,
)
    requires
        call_ensures(outcome_from_signals, (plain,), r),
        call_ensures(outcome_from_signals, (worse,), s),
        *worse == (OutcomeSignals { was_interrupted: true, ..*plain }) || *worse == (
        OutcomeSignals { has_error_loops: true, ..*plain }) || *worse == (OutcomeSignals {
            final_user_sentiment: Some(Sentiment::Negative),
            ..*plain
        }),
    ensures
        s == SessionOutcome::Success ==> r == SessionOutcome::Success,
        r == SessionOutcome::Failure ==> s == SessionOutcome::Failure,
{
}

/// A session is classified by the signs that are reported with it, and each of
/// them is what its own detector finds.
pub proof fn classification_rests_on_the_detectors(
    turns: &[ConversationTurn],
    r: (SessionOutcome, OutcomeSignals),
    outcome: SessionOutcome,
    commit: bool,
    passed: bool,
    loops: bool,
    interrupted: bool,
    sentiment: Sentiment,
)
    requires
        call_ensures(classify_outcome, (turns,), r),
        call_ensures(outcome_from_signals, (&r.1,), outcome),
        call_ensures(detect_commit, (turns,), commit),
        call_ensures(detect_tests_passed, (turns,), passed),
        call_ensures(detect_error_loops, (turns,), loops),
        call_ensures(detect_interrupted, (turns,), interrupted),
        call_ensures(detect_sentiment, (turns,), sentiment),
    ensures
        r.0 == outcome,
        r.1.has_commit == commit,
        r.1.tests_passed == TestOutcome::Passed <==> passed,
        r.1.has_error_loops == loops,
        r.1.was_interrupted == interrupted,
        r.1.final_user_sentiment == Some(sentiment),
{
}

/// A session whose last tool call was interrupted and that made no commit failed,
/// whatever else happened in it.
pub proof fn interrupted_session_without_commit_failed(
    turns: &[ConversationTurn],
    r: (SessionOutcome, OutcomeSignals),
)
    requires
        call_ensures(classify_outcome, (turns,), r),
        turns@.len() > 0,
        turns@.last().tool_calls@.len() > 0,
        turns@.last().tool_calls@.last().interrupted,
        !r.1.has_commit,
    ensures
        r.0 == SessionOutcome::Failure,
        r.1.was_interrupted,
{
    let calls = crate::bootstrap::filter::tool_calls(turns@);
    let own = turns@.last().tool_calls@;
    assert(calls.last() == own.last());
}

/// A session was interrupted just when the last of all its tool calls was. Turns
/// without tool calls at its end change nothing.
pub proof fn only_the_last_call_can_interrupt(turns: &[ConversationTurn], r: bool)
    requires
        call_ensures(detect_interrupted, (turns,), r),
    ensures
        forall|i: int|
            0 <= i < turns@.len() && (#[trigger] turns@[i]).tool_calls@.len() > 0 && (forall|j: int|
                i < j < turns@.len() ==> (#[trigger] turns@[j]).tool_calls@.len() == 0) ==> r
                == turns@[i].tool_calls@.last().interrupted,
        (forall|i: int|
            0 <= i < turns@.len() ==> (#[trigger] turns@[i]).tool_calls@.len() == 0) ==> !r,
{
    assert forall|i: int|
        0 <= i < turns@.len() && (#[trigger] turns@[i]).tool_calls@.len() > 0 && (forall|j: int|
            i < j < turns@.len() ==> (#[trigger] turns@[j]).tool_calls@.len() == 0) implies r
        == turns@[i].tool_calls@.last().interrupted by {
        lemma_last_call(turns@, i);
    }
    if forall|i: int| 0 <= i < turns@.len() ==> (#[trigger] turns@[i]).tool_calls@.len() == 0 {
        lemma_no_calls(turns@);
    }
}

proof fn lemma_no_calls(turns: Seq<ConversationTurn>)
    requires
        forall|i: int| 0 <= i < turns.len() ==> (#[trigger] turns[i]).tool_calls@.len() == 0,
    ensures
        crate::bootstrap::filter::tool_calls(turns).len() == 0,
    decreases turns.len(),
{
    if turns.len() > 0 {
        let front = turns.drop_last();
        assert forall|i: int| 0 <= i < front.len() implies (
        #[trigger] front[i]).tool_calls@.len() == 0 by {
            assert(front[i] == turns[i]);
        }
        lemma_no_calls(front);
        assert(turns.last() == turns[turns.len() - 1]);
    }
}

proof fn lemma_last_call(turns: Seq<ConversationTurn>, i: int)
    requires
        0 <= i < turns.len(),
        turns[i].tool_calls@.len() > 0,
        forall|j: int| i < j < turns.len() ==> (#[trigger] turns[j]).tool_calls@.len() == 0,
    ensures
        crate::bootstrap::filter::tool_calls(turns).len() > 0,
        crate::bootstrap::filter::tool_calls(turns).last() == turns[i].tool_calls@.last(),
    decreases turns.len(),
{
    let own = turns.last().tool_calls@;
    assert(turns.last() == turns[turns.len() - 1]);
    if i < turns.len() - 1 {
        let front = turns.drop_last();
        assert forall|j: int| i < j < front.len() implies (
        #[trigger] front[j]).tool_calls@.len() == 0 by {
            assert(front[j] == turns[j]);
        }
        lemma_last_call(front, i);
        assert(crate::bootstrap::filter::tool_calls(turns)
            =~= crate::bootstrap::filter::tool_calls(front));
    }
}

/// A session made a commit just when some tool call of some turn did: a shell
/// command line with `git commit` in it, or an output with the header of a main
/// branch or something like a commit hash.
pub proof fn commit_is_found_in_any_call(turns: &[ConversationTurn], r: bool)
    requires
        call_ensures(detect_commit, (turns,), r),
    ensures
        r <==> exists|i: int, j: int|
            0 <= i < turns@.len() && 0 <= j < turns@[i].tool_calls@.len() && call_commits(
                #[trigger] turns@[i].tool_calls@[j],
            ),
{
    let all = crate::bootstrap::filter::tool_calls(turns@);
    if r {
        let k = choose|k: int| 0 <= k < all.len() && call_commits(#[trigger] all[k]);
        crate::bootstrap::filter::lemma_has_call(turns@, all[k]);
        assert(all.contains(all[k]));
        let (i, j) = choose|i: int, j: int|
            0 <= i < turns@.len() && 0 <= j < turns@[i].tool_calls@.len()
                && #[trigger] turns@[i].tool_calls@[j] == all[k];
        assert(call_commits(turns@[i].tool_calls@[j]));
    }
    if exists|i: int, j: int|
        0 <= i < turns@.len() && 0 <= j < turns@[i].tool_calls@.len() && call_commits(
            #[trigger] turns@[i].tool_calls@[j],
        ) {
        let (i, j) = choose|i: int, j: int|
            0 <= i < turns@.len() && 0 <= j < turns@[i].tool_calls@.len() && call_commits(
                #[trigger] turns@[i].tool_calls@[j],
            );
        let call = turns@[i].tool_calls@[j];
        crate::bootstrap::filter::lemma_has_call(turns@, call);
        let k = choose|k: int| 0 <= k < all.len() && all[k] == call;
        assert(call_commits(all[k]));
    }
}

/// Tests passed in a session just when some tool call of some turn printed that
/// they did.
pub proof fn passing_tests_are_found_in_any_call(turns: &[ConversationTurn], r: bool)
    requires
        call_ensures(detect_tests_passed, (turns,), r),
    ensures
        r <==> exists|i: int, j: int|
            0 <= i < turns@.len() && 0 <= j < turns@[i].tool_calls@.len() && call_passes_tests(
                #[trigger] turns@[i].tool_calls@[j],
            ),
{
    let all = crate::bootstrap::filter::tool_calls(turns@);
    if r {
        let k = choose|k: int| 0 <= k < all.len() && call_passes_tests(#[trigger] all[k]);
        crate::bootstrap::filter::lemma_has_call(turns@, all[k]);
        assert(all.contains(all[k]));
        let (i, j) = choose|i: int, j: int|
            0 <= i < turns@.len() && 0 <= j < turns@[i].tool_calls@.len()
                && #[trigger] turns@[i].tool_calls@[j] == all[k];
        assert(call_passes_tests(turns@[i].tool_calls@[j]));
    }
    if exists|i: int, j: int|
        0 <= i < turns@.len() && 0 <= j < turns@[i].tool_calls@.len() && call_passes_tests(
            #[trigger] turns@[i].tool_calls@[j],
        ) {
        let (i, j) = choose|i: int, j: int|
            0 <= i < turns@.len() && 0 <= j < turns@[i].tool_calls@.len() && call_passes_tests(
                #[trigger] turns@[i].tool_calls@[j],
            );
        let call = turns@[i].tool_calls@[j];
        crate::bootstrap::filter::lemma_has_call(turns@, call);
        let k = choose|k: int| 0 <= k < all.len() && all[k] == call;
        assert(call_passes_tests(all[k]));
    }
}

/// What counts as a commit in one tool call. The name of the shell and the command
/// line are read without regard to case. Neither the errors of the call nor
/// whether it was interrupted matters.
pub proof fn call_commits_by_command_or_output(call: ToolCallRecord)
    ensures
        call.stdout matches Some(out) && has_sha(out@) ==> call_commits(call),
        call.stdout matches Some(out) && (crate::text::occurs_in(
            crate::text::lowercase(out@),
            "[main"@,
        ) || crate::text::occurs_in(crate::text::lowercase(out@), "[master"@)) ==> call_commits(
            call,
        ),
        crate::text::same_ignoring_ascii_case(call.tool_name@, "bash"@) && (
        crate::json::member_text(call.input, "command"@) matches Some(command)
            && crate::text::occurs_in(crate::text::lowercase(command), "git commit"@))
            ==> call_commits(call),
        call.stdout is None && !crate::text::same_ignoring_ascii_case(call.tool_name@, "bash"@)
            ==> !call_commits(call),
        call.stdout is None && (crate::json::member_text(call.input, "command"@) matches Some(
            command,
        ) ==> !crate::text::occurs_in(crate::text::lowercase(command), "git commit"@))
            ==> !call_commits(call),
        call_commits(call) && (call.stdout matches Some(out) ==> !has_sha(out@)
            && !crate::text::occurs_in(crate::text::lowercase(out@), "[main"@)
            && !crate::text::occurs_in(crate::text::lowercase(out@), "[master"@))
            ==> crate::text::same_ignoring_ascii_case(call.tool_name@, "bash"@)
            && crate::json::member_text(call.input, "command"@) is Some,
{
}

/// What counts as passing tests in one tool call: the words of the test runners in
/// what it printed, without regard to case.
pub proof fn call_passes_tests_by_output(call: ToolCallRecord)
    ensures
        call.stdout is None ==> !call_passes_tests(call),
        call.stdout matches Some(out) ==> {
            let lower = crate::text::lowercase(out@);
            &&& crate::text::occurs_in(lower, "test result: ok"@) ==> call_passes_tests(call)
            &&& crate::text::occurs_in(lower, "passed"@) && (crate::text::occurs_in(lower, "test"@)
                || crate::text::occurs_in(lower, "tests"@)) ==> call_passes_tests(call)
            &&& crate::text::occurs_in(lower, "pytest"@) && crate::text::occurs_in(lower, " ok"@)
                ==> call_passes_tests(call)
            &&& call_passes_tests(call) ==> crate::text::occurs_in(lower, "test result: ok"@)
                || crate::text::occurs_in(lower, "passed"@) || crate::text::occurs_in(lower, " ok"@)
            &&& call_passes_tests(call) && !crate::text::occurs_in(lower, "test result: ok"@)
                && !crate::text::occurs_in(lower, "pytest"@) ==> crate::text::occurs_in(
                lower,
                "passed"@,
            ) && (crate::text::occurs_in(lower, "test"@) || crate::text::occurs_in(lower, "tests"@))
            &&& call_passes_tests(call) && !crate::text::occurs_in(lower, "test result: ok"@)
                && !crate::text::occurs_in(lower, "passed"@) ==> crate::text::occurs_in(
                lower,
                "pytest"@,
            ) && crate::text::occurs_in(lower, " ok"@)
        },
{
}

/// A text holds something like a commit hash just when seven characters in a row
/// are hexadecimal digits, of either case.
pub proof fn hash_is_seven_digits_in_a_row(s: &str, r: bool, i: int)
    requires
        call_ensures(has_short_sha, (s,), r),
    ensures
        r == has_sha(s@),
        s@.len() < 7 ==> !r,
        0 <= i && i + 7 <= s@.len() && (forall|j: int|
            i <= j < i + 7 ==> ('0' <= #[trigger] s@[j] && s@[j] <= '9') || ('a' <= s@[j] && s@[j]
                <= 'f') || ('A' <= s@[j] && s@[j] <= 'F')) ==> r,
        r ==> exists|k: int|
            0 <= k && k + 7 <= s@.len() && #[trigger] hex_run_at(s@, k, 7) && forall|j: int|
                k <= j < k + 7 ==> ('0' <= #[trigger] s@[j] && s@[j] <= '9') || ('a' <= s@[j]
                    && s@[j] <= 'f') || ('A' <= s@[j] && s@[j] <= 'F'),
{
    if 0 <= i && i + 7 <= s@.len() && (forall|j: int|
        i <= j < i + 7 ==> ('0' <= #[trigger] s@[j] && s@[j] <= '9') || ('a' <= s@[j] && s@[j]
            <= 'f') || ('A' <= s@[j] && s@[j] <= 'F')) {
        assert(hex_run_at(s@, i, 7));
    }
    if r {
        let k = choose|k: int| #[trigger] hex_run_at(s@, k, 7);
        assert(hex_run_at(s@, k, 7));
    }
}

/// A session looped on an error just when three tool calls in a row, across turns,
/// failed with the same error. Calls without an error output never do.
pub proof fn loop_is_one_error_three_times(
    turns: &[ConversationTurn],
    r: bool,
    listed: Vec<&ToolCallRecord>,
)
    requires
        call_ensures(detect_error_loops, (turns,), r),
        call_ensures(flatten_tool_calls, (turns,), listed),
    ensures
        forall|k: int|
            0 <= k && k + 2 < listed@.len() && error_key((#[trigger] listed@[k]).stderr) is Some
                && error_key(listed@[k + 1].stderr) == error_key(listed@[k].stderr) && error_key(
                listed@[k + 2].stderr,
            ) == error_key(listed@[k].stderr) ==> r,
        r ==> exists|k: int|
            0 <= k && k + 2 < listed@.len() && error_key((#[trigger] listed@[k]).stderr) is Some
                && error_key(listed@[k + 1].stderr) == error_key(listed@[k].stderr) && error_key(
                listed@[k + 2].stderr,
            ) == error_key(listed@[k].stderr),
{
    let all = crate::bootstrap::filter::tool_calls(turns@);
    assert forall|k: int|
        0 <= k && k + 2 < listed@.len() && error_key((#[trigger] listed@[k]).stderr) is Some
            && error_key(listed@[k + 1].stderr) == error_key(listed@[k].stderr) && error_key(
            listed@[k + 2].stderr,
        ) == error_key(listed@[k].stderr) implies r by {
        assert(*listed@[k] == all[k]);
        assert(*listed@[k + 1] == all[k + 1]);
        assert(*listed@[k + 2] == all[k + 2]);
        assert(same_error_thrice(all, k));
    }
    if r {
        let k = choose|k: int| #[trigger] same_error_thrice(all, k);
        assert(*listed@[k] == all[k]);
        assert(*listed@[k + 1] == all[k + 1]);
        assert(*listed@[k + 2] == all[k + 2]);
    }
}

/// Two error outputs are the same error when, without the white space around them,
/// their first hundred characters agree. An output of white space is none.
pub proof fn errors_are_told_apart_by_a_hundred_characters(
    stderr: &Option<String>,
    key: Option<Vec<char>>,
)
    requires
        call_ensures(stderr_key, (stderr,), key),
    ensures
        *stderr is None ==> key is None,
        *stderr matches Some(text) ==> {
            let body = crate::text::trimmed(text@);
            &&& key is None <==> body.len() == 0
            &&& key matches Some(k) ==> k@.len() <= 100 && k@.is_prefix_of(body)
            &&& key matches Some(k) ==> k@.len() < 100 ==> k@ == body
            &&& key matches Some(k) ==> key_view(key) == error_key(*stderr)
        },
{
}

/// The mood is that of the last user message alone: every word of praise in it
/// makes it good; without one, every word of complaint makes it bad; without
/// either it is neutral.
pub proof fn mood_is_told_by_words(lower: &str, r: Sentiment)
    requires
        call_ensures(mood_of, (lower,), r),
    ensures
        crate::text::occurs_in(lower@, "thanks"@) ==> r == Sentiment::Positive,
        crate::text::occurs_in(lower@, "great"@) ==> r == Sentiment::Positive,
        crate::text::occurs_in(lower@, "perfect"@) ==> r == Sentiment::Positive,
        crate::text::occurs_in(lower@, "works"@) ==> r == Sentiment::Positive,
        crate::text::occurs_in(lower@, "awesome"@) ==> r == Sentiment::Positive,
        crate::text::occurs_in(lower@, "good"@) ==> r == Sentiment::Positive,
        crate::text::occurs_in(lower@, "nice"@) ==> r == Sentiment::Positive,
        crate::text::occurs_in(lower@, "wrong"@) ==> r != Sentiment::Neutral,
        crate::text::occurs_in(lower@, "broken"@) ==> r != Sentiment::Neutral,
        crate::text::occurs_in(lower@, "revert"@) ==> r != Sentiment::Neutral,
        crate::text::occurs_in(lower@, "undo"@) ==> r != Sentiment::Neutral,
        crate::text::occurs_in(lower@, "doesn't work"@) ==> r != Sentiment::Neutral,
        crate::text::occurs_in(lower@, "failed"@) ==> r != Sentiment::Neutral,
        r == Sentiment::Positive ==> crate::text::occurs_in(lower@, "thanks"@)
            || crate::text::occurs_in(lower@, "great"@) || crate::text::occurs_in(
            lower@,
            "perfect"@,
        ) || crate::text::occurs_in(lower@, "works"@) || crate::text::occurs_in(lower@, "awesome"@)
            || crate::text::occurs_in(lower@, "good"@) || crate::text::occurs_in(lower@, "nice"@),
        r == Sentiment::Negative ==> crate::text::occurs_in(lower@, "wrong"@)
            || crate::text::occurs_in(lower@, "broken"@) || crate::text::occurs_in(
            lower@,
            "revert"@,
        ) || crate::text::occurs_in(lower@, "undo"@) || crate::text::occurs_in(
            lower@,
            "doesn't work"@,
        ) || crate::text::occurs_in(lower@, "failed"@),
{
}

/// The mood of a session is that of its last user message in lower case, and
/// neutral when there is none. Earlier messages do not matter.
pub proof fn last_message_sets_the_mood(
    turns: &[ConversationTurn],
    r: Sentiment,
    lower: &str,
    mood: Sentiment,
)
    requires
        call_ensures(detect_sentiment, (turns,), r),
        call_ensures(mood_of, (lower,), mood),
        turns@.len() > 0 ==> lower@ == crate::text::lowercase(turns@.last().user_text@),
    ensures
        turns@.len() == 0 ==> r == Sentiment::Neutral,
        turns@.len() > 0 ==> r == mood,
{
}

/// The words by which a command line, an output and a passing test run are known, in
/// texts that are in lower case already.
pub proof fn words_tell_commits_and_tests(
    lower: &str,
    printed: &str,
    command: bool,
    output: bool,
    passing: bool,
    hash: bool,
)
    requires
        call_ensures(is_commit_command, (lower,), command),
        call_ensures(is_commit_output, (lower, printed), output),
        call_ensures(is_passing_output, (lower,), passing),
        call_ensures(has_short_sha, (printed,), hash),
    ensures
        command <==> crate::text::occurs_in(lower@, "git commit"@),
        output <==> crate::text::occurs_in(lower@, "[main"@) || crate::text::occurs_in(
            lower@,
            "[master"@,
        ) || hash,
        crate::text::occurs_in(lower@, "test result: ok"@) ==> passing,
        crate::text::occurs_in(lower@, "passed"@) && crate::text::occurs_in(lower@, "test"@)
            ==> passing,
        crate::text::occurs_in(lower@, "passed"@) && crate::text::occurs_in(lower@, "tests"@)
            ==> passing,
        crate::text::occurs_in(lower@, "pytest"@) && crate::text::occurs_in(lower@, " ok"@)
            ==> passing,
        passing && !crate::text::occurs_in(lower@, "test result: ok"@) ==> crate::text::occurs_in(
            lower@,
            "passed"@,
        ) || crate::text::occurs_in(lower@, " ok"@),
        passing && !crate::text::occurs_in(lower@, "test result: ok"@) && !crate::text::occurs_in(
            lower@,
            "passed"@,
        ) ==> crate::text::occurs_in(lower@, "pytest"@),
{
}

/// The command of a tool's input is its string member of that name.
pub proof fn command_is_a_member_of_the_input(input: &serde_json::Value, r: Option<&str>)
    requires
        call_ensures(input_command, (input,), r),
    ensures
        r matches Some(text) ==> crate::json::json_members(*input) is Some
            && crate::json::json_members(*input)->0.contains_key("command"@)
            && crate::json::json_string(crate::json::json_members(*input)->0["command"@]) == Some(
            text@,
        ),
        r is None && crate::json::json_members(*input) is Some && crate::json::json_members(
            *input,
        )->0.contains_key("command"@) ==> crate::json::json_string(
            crate::json::json_members(*input)->0["command"@],
        ) is None,
{
}

} // verus!
