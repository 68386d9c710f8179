//! What the test runner says: the outcome of each test, the summary, and
//! the choice of the test to debug.

use crate::engine::ExecutionError;
use crate::repl::DebugExecutionResult;
use crate::text::{decimal, lines_view, no_lines, push_decimal, push_line, push_str};
use vstd::prelude::*;

verus! {

/// The outcome of a test.
#[derive(Debug, PartialEq, Eq)]
pub enum TestStatus {
    Pass,
    Fail { message: String },
    CompileError,
}

impl TestStatus {
    /// Whether the test did not pass.
    pub open spec fn spec_failed(&self) -> bool {
        !(self is Pass)
    }

    /// Whether the test did not pass.
    pub fn failed(&self) -> (failed: bool)
        ensures
            failed == self.spec_failed(),
    {
        match self {
            TestStatus::Pass => false,
            _ => true,
        }
    }
}

/// The colour of a piece of the report.
#[derive(Clone, Copy, Debug, PartialEq, Eq, Structural)]
pub enum Color {
    Green,
    Red,
}

/// A piece of the report: text in a colour, or in none.
#[derive(Debug, PartialEq, Eq)]
pub struct Segment {
    pub color: Option<Color>,
    pub text: String,
}

/// The models of the pieces of a report.
pub open spec fn segments_view(segments: Seq<Segment>) -> Seq<(Option<Color>, Seq<char>)> {
    Seq::new(segments.len(), |i: int| (segments[i].color, segments[i].text@))
}

/// `s` where the number is not one, nothing where it is.
pub open spec fn plural(count: nat) -> Seq<char> {
    if count == 1 {
        ""@
    } else {
        "s"@
    }
}

/// The number of tests among the first `n` that did not pass.
pub open spec fn failed_count(report: Seq<(String, TestStatus)>, n: nat) -> nat
    decreases n,
{
    if n == 0 || n > report.len() {
        0
    } else {
        failed_count(report, (n - 1) as nat) + if report[n - 1].1.spec_failed() {
            1nat
        } else {
            0nat
        }
    }
}

/// The pieces for one test: its name, then `ok` in green or `FAIL` with the
/// message in red; nothing more for a test that did not compile.
pub open spec fn test_segments(package: Seq<char>, name: Seq<char>, status: TestStatus) -> Seq<
    (Option<Color>, Seq<char>),
> {
    let head = (None::<Color>, "["@ + package + "] Testing "@ + name + "... "@);
    match status {
        TestStatus::Pass => seq![head, (Some(Color::Green), "ok\n"@)],
        TestStatus::Fail { message } => seq![
            head,
            (Some(Color::Red), "FAIL\n"@ + message@ + "\n\n"@),
        ],
        TestStatus::CompileError => seq![head],
    }
}

/// The pieces for the first `n` tests.
pub open spec fn tests_segments(package: Seq<char>, report: Seq<(String, TestStatus)>, n: nat) -> Seq<
    (Option<Color>, Seq<char>),
>
    decreases n,
{
    if n == 0 || n > report.len() {
        Seq::empty()
    } else {
        tests_segments(package, report, (n - 1) as nat) + test_segments(
            package,
            report[n - 1].0@,
            report[n - 1].1,
        )
    }
}

/// The pieces of the summary: how many tests passed, in green, and how many
/// failed, in red.
pub open spec fn summary_segments(package: Seq<char>, all: nat, failed: nat) -> Seq<
    (Option<Color>, Seq<char>),
> {
    let head = (None::<Color>, "["@ + package + "] "@);
    let passed = (all - failed) as nat;
    if failed == 0 {
        seq![
            head,
            (Some(Color::Green), decimal(all) + " test"@ + plural(all) + " passed"@),
            (None::<Color>, "\n"@),
        ]
    } else if passed != 0 {
        seq![
            head,
            (Some(Color::Green), decimal(passed) + " test"@ + plural(passed) + " passed, "@),
            (Some(Color::Red), decimal(failed) + " test"@ + plural(failed) + " failed\n"@),
        ]
    } else {
        seq![head, (Some(Color::Red), decimal(failed) + " test"@ + plural(failed) + " failed\n"@)]
    }
}

fn segment(color: Option<Color>, text: String) -> (s: Segment)
    ensures
        s.color == color,
        s.text == text,
{
    Segment { color, text }
}

fn push_segment(segments: &mut Vec<Segment>, color: Option<Color>, text: String)
    ensures
        segments_view(final(segments)@) == segments_view(old(segments)@).push((color, text@)),
{
    let ghost model = text@;
    segments.push(segment(color, text));
    assert(segments_view(segments@) =~= segments_view(old(segments)@).push((color, model)));
}

fn push_plural(text: &mut String, count: usize)
    ensures
        final(text)@ == old(text)@ + plural(count as nat),
{
    if count == 1 {
        push_str(text, "");
    } else {
        push_str(text, "s");
    }
}

fn count_text(count: usize, after: &str) -> (text: String)
    ensures
        text@ == decimal(count as nat) + " test"@ + plural(count as nat) + after@,
{
    let mut text = String::new();
    push_decimal(&mut text, count as u128);
    assert(text@ =~= decimal(count as nat));
    push_str(&mut text, " test");
    push_plural(&mut text, count);
    push_str(&mut text, after);
    text
}

/// The report of the tests of a package: a line for each test, then the summary.
pub fn display_test_report(package: &str, test_report: &Vec<(String, TestStatus)>) -> (segments:
    Vec<Segment>)
    ensures
        segments_view(segments@) == tests_segments(package@, test_report@, test_report@.len())
            + summary_segments(
            package@,
            test_report@.len(),
            failed_count(test_report@, test_report@.len()),
        ),
{
    let mut segments: Vec<Segment> = Vec::new();
    assert(segments_view(segments@) =~= Seq::<(Option<Color>, Seq<char>)>::empty());
    let mut count_failed: usize = 0;
    let mut i: usize = 0;
    while i < test_report.len()
        invariant
            0 <= i <= test_report.len(),
            count_failed == failed_count(test_report@, i as nat),
            count_failed <= i,
            segments_view(segments@) == tests_segments(package@, test_report@, i as nat),
        decreases test_report.len() - i,
    {
        let ghost before = segments_view(segments@);
        let mut head = "[".to_owned();
        push_str(&mut head, package);
        push_str(&mut head, "] Testing ");
        push_str(&mut head, test_report[i].0.as_str());
        push_str(&mut head, "... ");
        push_segment(&mut segments, None, head);
        match &test_report[i].1 {
            TestStatus::Pass => {
                push_segment(&mut segments, Some(Color::Green), "ok\n".to_owned());
            },
            TestStatus::Fail { message } => {
                let mut text = "FAIL\n".to_owned();
                push_str(&mut text, message.as_str());
                push_str(&mut text, "\n\n");
                push_segment(&mut segments, Some(Color::Red), text);
                count_failed += 1;
            },
            TestStatus::CompileError => {
                count_failed += 1;
            },
        }
        assert(segments_view(segments@) =~= before + test_segments(
            package@,
            test_report[i as int].0@,
            test_report[i as int].1,
        ));
        i += 1;
    }
    let ghost tests = segments_view(segments@);
    let count_all = test_report.len();
    let mut head = "[".to_owned();
    push_str(&mut head, package);
    push_str(&mut head, "] ");
    push_segment(&mut segments, None, head);
    if count_failed == 0 {
        push_segment(&mut segments, Some(Color::Green), count_text(count_all, " passed"));
        push_segment(&mut segments, None, "\n".to_owned());
    } else {
        let count_passed = count_all - count_failed;
        if count_passed != 0 {
            push_segment(&mut segments, Some(Color::Green), count_text(count_passed, " passed, "));
        }
        push_segment(&mut segments, Some(Color::Red), count_text(count_failed, " failed\n"));
    }
    assert(segments_view(segments@) =~= tests + summary_segments(
        package@,
        test_report@.len(),
        failed_count(test_report@, test_report@.len()),
    ));
    segments
}

/// Whether tests are debugged, and what the runner says before it runs them:
/// debugging is off where more than one test is to run.
pub fn debug_mode_for(package: &str, debug_mode: bool, count_all: usize) -> (out: (bool, Vec<String>))
    ensures
        out.0 == (debug_mode && count_all <= 1),
        lines_view(out.1@) == if debug_mode && count_all > 1 {
            seq![
                "["@ + package@
                    + "] Ignoring --debug flag since debugging multiple test is disabled"@,
                "["@ + package@ + "] Running "@ + decimal(count_all as nat) + " test function"@
                    + plural(count_all as nat),
            ]
        } else {
            seq![
                "["@ + package@ + "] Running "@ + decimal(count_all as nat) + " test function"@
                    + plural(count_all as nat),
            ]
        },
{
    let mut lines = no_lines();
    let debug = if debug_mode && count_all > 1 {
        let mut line = "[".to_owned();
        push_str(&mut line, package);
        push_str(&mut line, "] Ignoring --debug flag since debugging multiple test is disabled");
        push_line(&mut lines, line);
        false
    } else {
        debug_mode
    };
    let mut line = "[".to_owned();
    push_str(&mut line, package);
    push_str(&mut line, "] Running ");
    push_decimal(&mut line, count_all as u128);
    push_str(&mut line, " test function");
    push_plural(&mut line, count_all);
    push_line(&mut lines, line);
    (debug, lines)
}

/// How tests were picked by name.
#[derive(Debug, PartialEq, Eq)]
pub enum FunctionNameMatch {
    /// Every test.
    Anything,
    /// The test of this name.
    Exact(String),
    /// The tests whose names hold this text.
    Contains(String),
}

/// The result of a run of tests: an error where no test matched a given
/// name, and an error without message where a test did not pass.
pub open spec fn spec_run_result(pattern: FunctionNameMatch, count: nat, failed: nat) -> Result<
    (),
    Seq<char>,
> {
    if count == 0 && pattern is Exact {
        Err("Found 0 tests matching input '"@ + pattern->Exact_0@ + "'."@)
    } else if count == 0 && pattern is Contains {
        Err("Found 0 tests containing '"@ + pattern->Contains_0@ + "'."@)
    } else if failed > 0 {
        Err(""@)
    } else {
        Ok(())
    }
}

/// The result of a run of tests.
pub fn run_result(pattern: &FunctionNameMatch, test_report: &Vec<(String, TestStatus)>) -> (result:
    Result<(), String>)
    ensures
        match (
            result,
            spec_run_result(
                *pattern,
                test_report@.len(),
                failed_count(test_report@, test_report@.len()),
            ),
        ) {
            (Ok(()), Ok(())) => true,
            (Err(message), Err(expected)) => message@ == expected,
            _ => false,
        },
{
    if test_report.len() == 0 {
        match pattern {
            FunctionNameMatch::Exact(name) => {
                let mut message = "Found 0 tests matching input '".to_owned();
                push_str(&mut message, name.as_str());
                push_str(&mut message, "'.");
                return Err(message);
            },
            FunctionNameMatch::Contains(name) => {
                let mut message = "Found 0 tests containing '".to_owned();
                push_str(&mut message, name.as_str());
                push_str(&mut message, "'.");
                return Err(message);
            },
            FunctionNameMatch::Anything => {},
        }
    }
    let mut any_failed = false;
    let mut i: usize = 0;
    while i < test_report.len()
        invariant
            0 <= i <= test_report.len(),
            any_failed == (failed_count(test_report@, i as nat) > 0),
        decreases test_report.len() - i,
    {
        if test_report[i].1.failed() {
            any_failed = true;
        }
        i += 1;
    }
    if any_failed {
        Err("".to_owned())
    } else {
        Ok(())
    }
}

/// The test to debug among those whose names hold `test_name`, each given
/// with whether it takes arguments: the one test that matches, if it takes none.
pub open spec fn spec_test_function(test_name: Seq<char>, matching: Seq<(String, bool)>) -> Result<
    Seq<char>,
    Seq<char>,
> {
    if matching.len() == 0 {
        Err("`"@ + test_name + "` does not match with any test function"@)
    } else if matching.len() > 1 {
        Err("`"@ + test_name + "` matches with more than one test function"@)
    } else if matching[0].1 {
        Err("Cannot debug tests with arguments"@)
    } else {
        Ok(matching[0].0@)
    }
}

/// The test to debug.
pub fn get_test_function(test_name: &str, matching: &Vec<(String, bool)>) -> (result: Result<
    String,
    String,
>)
    ensures
        match (result, spec_test_function(test_name@, matching@)) {
            (Ok(name), Ok(expected)) => name@ == expected,
            (Err(message), Err(expected)) => message@ == expected,
            _ => false,
        },
{
    if matching.len() == 0 {
        let mut message = "`".to_owned();
        push_str(&mut message, test_name);
        push_str(&mut message, "` does not match with any test function");
        Err(message)
    } else if matching.len() > 1 {
        let mut message = "`".to_owned();
        push_str(&mut message, test_name);
        push_str(&mut message, "` matches with more than one test function");
        Err(message)
    } else if matching[0].1 {
        Err("Cannot debug tests with arguments".to_owned())
    } else {
        Ok(matching[0].0.clone())
    }
}

/// What a debugged test comes to.
#[derive(Debug, PartialEq, Eq)]
pub enum DebuggedTest {
    /// The program was solved: the test is judged as one that ran.
    Ran,
    /// The program failed: the test is judged by the failure.
    Failed(ExecutionError),
    /// The test fails with this message.
    Fail(String),
}

/// What a debugged test comes to, from how the session ended or why it could
/// not be held.
pub fn debugged_test(outcome: Result<DebugExecutionResult, String>) -> (result: DebuggedTest)
    ensures
        match (outcome, result) {
            (Ok(DebugExecutionResult::Solved), DebuggedTest::Ran) => true,
            (Ok(DebugExecutionResult::Error(e)), DebuggedTest::Failed(f)) => e == f,
            (Ok(DebugExecutionResult::Incomplete), DebuggedTest::Fail(message)) => message@
                == "Debugger halted. Incomplete execution"@,
            (Err(error), DebuggedTest::Fail(message)) => message@ == "Debugger failed: "@ + error@,
            _ => false,
        },
{
    match outcome {
        Ok(DebugExecutionResult::Solved) => DebuggedTest::Ran,
        Ok(DebugExecutionResult::Error(e)) => DebuggedTest::Failed(e),
        Ok(DebugExecutionResult::Incomplete) => DebuggedTest::Fail(
            "Debugger halted. Incomplete execution".to_owned(),
        ),
        Err(error) => {
            let mut message = "Debugger failed: ".to_owned();
            push_str(&mut message, error.as_str());
            DebuggedTest::Fail(message)
        },
    }
}

} // verus!
