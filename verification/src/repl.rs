//! The terminal front-end: the commands that it reads, and what it says.

use crate::debug_vars::DebugStackFrame;
use crate::engine::{
    ContextView, current_location, DebugCommandResult, DebugContext, ErrorView, ExecutionError,
    ResultView, spec_find_opcode_at_line, StepCommand,
};
use crate::field::{FieldElement, spec_field_display, spec_field_from_text};
use crate::format::{push_type, render, to_string, type_text};
use crate::location::{
    debug_location_text, DebugLocation, OpcodeLocation, spec_parse_debug_location,
};
use crate::printable::{PrintableType, TypeView};
use crate::program::spec_is_valid_location;
use crate::protocol::{BitSize, DebugCommandAPI, MemoryValue, spec_bit_size};
use crate::text::{
    chars_of, decimal, decimal_value, lines_view, no_lines, one_line, pad_left, pad_right,
    parse_decimal, push_char, push_chars, push_decimal, push_decimal_left, push_decimal_right,
    push_line, push_str,
};
use crate::value::{PrintableValue, ValueView};
use vstd::prelude::*;

verus! {

/// A command of the terminal front-end.
#[derive(Debug, PartialEq, Eq)]
pub enum ReplCommand {
    /// `step`: one circuit opcode.
    StepAcirOpcode,
    /// `into`: one opcode, entering bytecode.
    StepIntoOpcode,
    /// `next`: to the next source line.
    NextInto,
    /// `over`: to the next source line, not into calls.
    NextOver,
    /// `out`: until the current call returns.
    NextOut,
    /// `continue`: until a breakpoint or the end.
    Cont,
    /// `restart`: from the start again.
    Restart,
    /// `break <line>`: a breakpoint at a line of the current file.
    BreakAtLine(i64),
    /// `break <location>`: a breakpoint at a location.
    BreakAt(DebugLocation),
    /// `delete <location>`: remove the breakpoint at a location.
    Delete(DebugLocation),
    /// `opcodes`: list all opcodes.
    Opcodes,
    /// `witness`: show the witness map.
    WitnessMap,
    /// `witness <index>`: show one witness.
    Witness(u32),
    /// `witness <index> <value>`: set one witness.
    WitnessUpdate(u32, String),
    /// `memory`: show the memory of the bytecode machine.
    Memory,
    /// `memset <index> <value> <bit_size>`: write a cell of that memory.
    MemorySet(usize, String, u32),
    /// `stacktrace`: show the call stack.
    StackTrace,
    /// `vars`: show the variables of each frame.
    Vars,
}

/// The model of a [`ReplCommand`].
pub enum ReplCommandView {
    StepAcirOpcode,
    StepIntoOpcode,
    NextInto,
    NextOver,
    NextOut,
    Cont,
    Restart,
    BreakAtLine(i64),
    BreakAt(DebugLocation),
    Delete(DebugLocation),
    Opcodes,
    WitnessMap,
    Witness(u32),
    WitnessUpdate(u32, Seq<char>),
    Memory,
    MemorySet(usize, Seq<char>, u32),
    StackTrace,
    Vars,
}

impl View for ReplCommand {
    type V = ReplCommandView;

    open spec fn view(&self) -> ReplCommandView {
        match self {
            ReplCommand::StepAcirOpcode => ReplCommandView::StepAcirOpcode,
            ReplCommand::StepIntoOpcode => ReplCommandView::StepIntoOpcode,
            ReplCommand::NextInto => ReplCommandView::NextInto,
            ReplCommand::NextOver => ReplCommandView::NextOver,
            ReplCommand::NextOut => ReplCommandView::NextOut,
            ReplCommand::Cont => ReplCommandView::Cont,
            ReplCommand::Restart => ReplCommandView::Restart,
            ReplCommand::BreakAtLine(n) => ReplCommandView::BreakAtLine(*n),
            ReplCommand::BreakAt(l) => ReplCommandView::BreakAt(*l),
            ReplCommand::Delete(l) => ReplCommandView::Delete(*l),
            ReplCommand::Opcodes => ReplCommandView::Opcodes,
            ReplCommand::WitnessMap => ReplCommandView::WitnessMap,
            ReplCommand::Witness(i) => ReplCommandView::Witness(*i),
            ReplCommand::WitnessUpdate(i, v) => ReplCommandView::WitnessUpdate(*i, v@),
            ReplCommand::Memory => ReplCommandView::Memory,
            ReplCommand::MemorySet(i, v, b) => ReplCommandView::MemorySet(*i, v@, *b),
            ReplCommand::StackTrace => ReplCommandView::StackTrace,
            ReplCommand::Vars => ReplCommandView::Vars,
        }
    }
}

/// Why a line is no command.
#[derive(Clone, Copy, Debug, PartialEq, Eq, Structural)]
pub enum ReplParseError {
    /// The line holds no word.
    Empty,
    /// The first word is no command.
    UnknownCommand,
    /// The command does not take these arguments.
    WrongArguments,
}

/// The words read so far and the word that is being read.
pub open spec fn words_state(s: Seq<char>) -> (Seq<Seq<char>>, Seq<char>)
    decreases s.len(),
{
    if s.len() == 0 {
        (Seq::empty(), Seq::empty())
    } else {
        let (done, current) = words_state(s.drop_last());
        if s.last() == ' ' {
            if current.len() > 0 {
                (done.push(current), Seq::empty())
            } else {
                (done, current)
            }
        } else {
            (done, current.push(s.last()))
        }
    }
}

/// The words of a line: the runs of characters other than the space.
pub open spec fn spec_words(s: Seq<char>) -> Seq<Seq<char>> {
    let (done, current) = words_state(s);
    if current.len() > 0 {
        done.push(current)
    } else {
        done
    }
}

/// The models of a list of words.
pub open spec fn words_view(words: Seq<Vec<char>>) -> Seq<Seq<char>> {
    Seq::new(words.len(), |i: int| words[i]@)
}

/// The words of a line.
pub fn split_words(line: &Vec<char>) -> (words: Vec<Vec<char>>)
    ensures
        words_view(words@) == spec_words(line@),
{
    let mut words: Vec<Vec<char>> = Vec::new();
    let mut current: Vec<char> = Vec::new();
    let mut i: usize = 0;
    proof {
        assert(line@.take(0) =~= Seq::<char>::empty());
        assert(words_view(words@) =~= Seq::<Seq<char>>::empty());
    }
    while i < line.len()
        invariant
            0 <= i <= line.len(),
            (words_view(words@), current@) == words_state(line@.take(i as int)),
        decreases line.len() - i,
    {
        let ghost prefix = line@.take(i + 1);
        proof {
            assert(prefix.drop_last() =~= line@.take(i as int));
            assert(prefix.last() == line[i as int]);
        }
        let c = line[i];
        if c == ' ' {
            if current.len() > 0 {
                let ghost before = words@;
                let ghost word = current@;
                words.push(current);
                current = Vec::new();
                assert(words_view(words@) =~= words_view(before).push(word));
            }
        } else {
            current.push(c);
        }
        i += 1;
    }
    assert(line@.take(i as int) =~= line@);
    if current.len() > 0 {
        let ghost before = words@;
        let ghost word = current@;
        words.push(current);
        assert(words_view(words@) =~= words_view(before).push(word));
    }
    words
}

/// The number that a word denotes as a signed decimal of 64 bits: digits,
/// with perhaps a sign before them.
pub open spec fn spec_signed(word: Seq<char>) -> Option<i64> {
    if word.len() > 0 && word[0] == '-' {
        match decimal_value(word.drop_first()) {
            Some(n) => if n <= 0x8000_0000_0000_0000 {
                Some((-(n as int)) as i64)
            } else {
                None
            },
            None => None,
        }
    } else if word.len() > 0 && word[0] == '+' {
        match decimal_value(word.drop_first()) {
            Some(n) => if n <= 0x7fff_ffff_ffff_ffff {
                Some(n as i64)
            } else {
                None
            },
            None => None,
        }
    } else {
        match decimal_value(word) {
            Some(n) => if n <= 0x7fff_ffff_ffff_ffff {
                Some(n as i64)
            } else {
                None
            },
            None => None,
        }
    }
}

/// The number that a word denotes as an unsigned decimal of at most `limit`.
pub open spec fn spec_unsigned(word: Seq<char>, limit: nat) -> Option<nat> {
    match decimal_value(word) {
        Some(n) => if n <= limit {
            Some(n)
        } else {
            None
        },
        None => None,
    }
}

fn parse_signed(word: &Vec<char>) -> (value: Option<i64>)
    ensures
        value == spec_signed(word@),
{
    let n = word.len();
    if n > 0 && word[0] == '-' {
        assert(word@.drop_first() =~= word@.subrange(1, n as int));
        match parse_decimal(word, 1, n, 0x8000_0000_0000_0000) {
            Some(v) => {
                if v == 0x8000_0000_0000_0000 {
                    Some(i64::MIN)
                } else {
                    Some(-(v as i64))
                }
            },
            None => None,
        }
    } else if n > 0 && word[0] == '+' {
        assert(word@.drop_first() =~= word@.subrange(1, n as int));
        match parse_decimal(word, 1, n, 0x7fff_ffff_ffff_ffff) {
            Some(v) => Some(v as i64),
            None => None,
        }
    } else {
        assert(word@ =~= word@.subrange(0, n as int));
        match parse_decimal(word, 0, n, 0x7fff_ffff_ffff_ffff) {
            Some(v) => Some(v as i64),
            None => None,
        }
    }
}

fn parse_unsigned(word: &Vec<char>, limit: u128) -> (value: Option<u128>)
    ensures
        match value {
            Some(v) => spec_unsigned(word@, limit as nat) == Some(v as nat),
            None => spec_unsigned(word@, limit as nat).is_none(),
        },
{
    assert(word@ =~= word@.subrange(0, word.len() as int));
    parse_decimal(word, 0, word.len(), limit)
}

fn word_is(word: &Vec<char>, name: &str) -> (same: bool)
    ensures
        same == (word@ == name@),
{
    let expected = chars_of(name);
    if word.len() != expected.len() {
        return false;
    }
    let mut i: usize = 0;
    while i < word.len()
        invariant
            0 <= i <= word.len(),
            word.len() == expected.len(),
            expected@ == name@,
            forall|k: int| 0 <= k < i ==> word[k] == expected[k],
        decreases word.len() - i,
    {
        if word[i] != expected[i] {
            return false;
        }
        i += 1;
    }
    assert(word@ =~= expected@);
    true
}

fn text_of(word: &Vec<char>) -> (text: String)
    ensures
        text@ == word@,
{
    let mut text = String::new();
    push_chars(&mut text, word);
    assert(Seq::<char>::empty() + word@ =~= word@);
    text
}

fn location_of(word: &Vec<char>) -> (l: Option<DebugLocation>)
    ensures
        l == spec_parse_debug_location(word@),
{
    let text = text_of(word);
    DebugLocation::parse(text.as_str())
}

/// A command without arguments, where `words` holds none.
pub open spec fn plain_command(words: Seq<Seq<char>>, command: ReplCommandView) -> Result<
    ReplCommandView,
    ReplParseError,
> {
    if words.len() == 1 {
        Ok(command)
    } else {
        Err(ReplParseError::WrongArguments)
    }
}

/// The command that the words of a line denote.
pub open spec fn spec_parse_words(words: Seq<Seq<char>>) -> Result<ReplCommandView, ReplParseError> {
    if words.len() == 0 {
        Err(ReplParseError::Empty)
    } else if words[0] == "step"@ {
        plain_command(words, ReplCommandView::StepAcirOpcode)
    } else if words[0] == "into"@ {
        plain_command(words, ReplCommandView::StepIntoOpcode)
    } else if words[0] == "next"@ {
        plain_command(words, ReplCommandView::NextInto)
    } else if words[0] == "over"@ {
        plain_command(words, ReplCommandView::NextOver)
    } else if words[0] == "out"@ {
        plain_command(words, ReplCommandView::NextOut)
    } else if words[0] == "continue"@ {
        plain_command(words, ReplCommandView::Cont)
    } else if words[0] == "restart"@ {
        plain_command(words, ReplCommandView::Restart)
    } else if words[0] == "opcodes"@ {
        plain_command(words, ReplCommandView::Opcodes)
    } else if words[0] == "memory"@ {
        plain_command(words, ReplCommandView::Memory)
    } else if words[0] == "stacktrace"@ {
        plain_command(words, ReplCommandView::StackTrace)
    } else if words[0] == "vars"@ {
        plain_command(words, ReplCommandView::Vars)
    } else if words[0] == "break"@ {
        if words.len() != 2 {
            Err(ReplParseError::WrongArguments)
        } else {
            match spec_signed(words[1]) {
                Some(line) => Ok(ReplCommandView::BreakAtLine(line)),
                None => match spec_parse_debug_location(words[1]) {
                    Some(l) => Ok(ReplCommandView::BreakAt(l)),
                    None => Err(ReplParseError::WrongArguments),
                },
            }
        }
    } else if words[0] == "delete"@ {
        if words.len() != 2 {
            Err(ReplParseError::WrongArguments)
        } else {
            match spec_parse_debug_location(words[1]) {
                Some(l) => Ok(ReplCommandView::Delete(l)),
                None => Err(ReplParseError::WrongArguments),
            }
        }
    } else if words[0] == "witness"@ {
        if words.len() == 1 {
            Ok(ReplCommandView::WitnessMap)
        } else if words.len() > 3 {
            Err(ReplParseError::WrongArguments)
        } else {
            match spec_unsigned(words[1], u32::MAX as nat) {
                None => Err(ReplParseError::WrongArguments),
                Some(index) => if words.len() == 2 {
                    Ok(ReplCommandView::Witness(index as u32))
                } else {
                    Ok(ReplCommandView::WitnessUpdate(index as u32, words[2]))
                },
            }
        }
    } else if words[0] == "memset"@ {
        if words.len() != 4 {
            Err(ReplParseError::WrongArguments)
        } else {
            match (
                spec_unsigned(words[1], usize::MAX as nat),
                spec_unsigned(words[3], u32::MAX as nat),
            ) {
                (Some(index), Some(bit_size)) => Ok(
                    ReplCommandView::MemorySet(index as usize, words[2], bit_size as u32),
                ),
                _ => Err(ReplParseError::WrongArguments),
            }
        }
    } else {
        Err(ReplParseError::UnknownCommand)
    }
}

/// The command that a line denotes: its first word names the command, the
/// words behind it are the arguments.
pub open spec fn spec_parse_command(line: Seq<char>) -> Result<ReplCommandView, ReplParseError> {
    spec_parse_words(spec_words(line))
}

fn plain(words: &Vec<Vec<char>>, command: ReplCommand) -> (result: Result<
    ReplCommand,
    ReplParseError,
>)
    ensures
        match (result, plain_command(words_view(words@), command@)) {
            (Ok(c), Ok(expected)) => c@ == expected,
            (Err(e), Err(expected)) => e == expected,
            _ => false,
        },
{
    if words.len() == 1 {
        Ok(command)
    } else {
        Err(ReplParseError::WrongArguments)
    }
}

/// Reads a command from a line.
pub fn parse_command(line: &str) -> (result: Result<ReplCommand, ReplParseError>)
    ensures
        match (result, spec_parse_command(line@)) {
            (Ok(c), Ok(expected)) => c@ == expected,
            (Err(e), Err(expected)) => e == expected,
            _ => false,
        },
{
    let chars = chars_of(line);
    let words = split_words(&chars);
    if words.len() == 0 {
        return Err(ReplParseError::Empty);
    }
    let name = &words[0];
    assert(words_view(words@)[0] == name@);
    if word_is(name, "step") {
        plain(&words, ReplCommand::StepAcirOpcode)
    } else if word_is(name, "into") {
        plain(&words, ReplCommand::StepIntoOpcode)
    } else if word_is(name, "next") {
        plain(&words, ReplCommand::NextInto)
    } else if word_is(name, "over") {
        plain(&words, ReplCommand::NextOver)
    } else if word_is(name, "out") {
        plain(&words, ReplCommand::NextOut)
    } else if word_is(name, "continue") {
        plain(&words, ReplCommand::Cont)
    } else if word_is(name, "restart") {
        plain(&words, ReplCommand::Restart)
    } else if word_is(name, "opcodes") {
        plain(&words, ReplCommand::Opcodes)
    } else if word_is(name, "memory") {
        plain(&words, ReplCommand::Memory)
    } else if word_is(name, "stacktrace") {
        plain(&words, ReplCommand::StackTrace)
    } else if word_is(name, "vars") {
        plain(&words, ReplCommand::Vars)
    } else if word_is(name, "break") {
        if words.len() != 2 {
            return Err(ReplParseError::WrongArguments);
        }
        assert(words_view(words@)[1] == words[1]@);
        match parse_signed(&words[1]) {
            Some(line_number) => Ok(ReplCommand::BreakAtLine(line_number)),
            None => match location_of(&words[1]) {
                Some(l) => Ok(ReplCommand::BreakAt(l)),
                None => Err(ReplParseError::WrongArguments),
            },
        }
    } else if word_is(name, "delete") {
        if words.len() != 2 {
            return Err(ReplParseError::WrongArguments);
        }
        assert(words_view(words@)[1] == words[1]@);
        match location_of(&words[1]) {
            Some(l) => Ok(ReplCommand::Delete(l)),
            None => Err(ReplParseError::WrongArguments),
        }
    } else if word_is(name, "witness") {
        if words.len() == 1 {
            return Ok(ReplCommand::WitnessMap);
        }
        if words.len() > 3 {
            return Err(ReplParseError::WrongArguments);
        }
        assert(words_view(words@)[1] == words[1]@);
        match parse_unsigned(&words[1], u32::MAX as u128) {
            None => Err(ReplParseError::WrongArguments),
            Some(index) => {
                if words.len() == 2 {
                    Ok(ReplCommand::Witness(index as u32))
                } else {
                    assert(words_view(words@)[2] == words[2]@);
                    Ok(ReplCommand::WitnessUpdate(index as u32, text_of(&words[2])))
                }
            },
        }
    } else if word_is(name, "memset") {
        if words.len() != 4 {
            return Err(ReplParseError::WrongArguments);
        }
        assert(words_view(words@)[1] == words[1]@);
        assert(words_view(words@)[2] == words[2]@);
        assert(words_view(words@)[3] == words[3]@);
        let index = parse_unsigned(&words[1], usize::MAX as u128);
        let bit_size = parse_unsigned(&words[3], u32::MAX as u128);
        match (index, bit_size) {
            (Some(index), Some(bit_size)) => Ok(
                ReplCommand::MemorySet(index as usize, text_of(&words[2]), bit_size as u32),
            ),
            _ => Err(ReplParseError::WrongArguments),
        }
    } else {
        Err(ReplParseError::UnknownCommand)
    }
}

/// An execution error as text.
pub open spec fn error_text(e: ErrorView) -> Seq<char> {
    match e {
        ErrorView::AssertionFailed(message, _) => "Failed assertion: '"@ + message + "'"@,
        ErrorView::SolvingError(message) => "Failed to solve program: '"@ + message + "'"@,
        ErrorView::BrilligFailed(message, _) => "Failed to solve brillig function: '"@ + message
            + "'"@,
    }
}

impl ExecutionError {
    /// The error as text.
    pub fn to_text(&self) -> (text: String)
        ensures
            text@ == error_text(self@),
    {
        match self {
            ExecutionError::AssertionFailed(message, _) => {
                let mut text = "Failed assertion: '".to_owned();
                push_str(&mut text, message.as_str());
                push_str(&mut text, "'");
                text
            },
            ExecutionError::SolvingError(message) => {
                let mut text = "Failed to solve program: '".to_owned();
                push_str(&mut text, message.as_str());
                push_str(&mut text, "'");
                text
            },
            ExecutionError::BrilligFailed(message, _) => {
                let mut text = "Failed to solve brillig function: '".to_owned();
                push_str(&mut text, message.as_str());
                push_str(&mut text, "'");
                text
            },
        }
    }
}

fn error_line(e: &ExecutionError) -> (line: String)
    ensures
        line@ == "ERROR: "@ + error_text(e@),
{
    let mut line = "ERROR: ".to_owned();
    let shown = e.to_text();
    push_str(&mut line, shown.as_str());
    line
}

fn before_location(before: &str, location: &DebugLocation) -> (line: String)
    ensures
        line@ == before@ + debug_location_text(*location),
{
    let mut line = before.to_owned();
    location.push_text(&mut line);
    line
}

fn with_location(before: &str, location: &DebugLocation, after: &str) -> (line: String)
    ensures
        line@ == before@ + debug_location_text(*location) + after@,
{
    let mut line = before.to_owned();
    location.push_text(&mut line);
    push_str(&mut line, after);
    line
}

/// How a session ended.
#[derive(Debug, PartialEq, Eq)]
pub enum DebugExecutionResult {
    /// The program was solved: the witness stack is to be handed out.
    Solved,
    /// The session ended before the program was solved or had failed.
    Incomplete,
    /// The program failed.
    Error(ExecutionError),
}

/// What the front-end says when a command is given after the end.
pub open spec fn refusal_lines(last: ResultView) -> Seq<Seq<char>> {
    match last {
        ResultView::Okay | ResultView::BreakpointReached(_) => Seq::empty(),
        ResultView::Done => seq!["Execution finished"@],
        ResultView::Error(e) => seq!["ERROR: "@ + error_text(e)],
    }
}

/// What the front-end says of the result of a stepping command.
pub open spec fn result_lines(result: ResultView) -> Seq<Seq<char>> {
    match result {
        ResultView::BreakpointReached(l) => seq![
            "Stopped at breakpoint in opcode "@ + debug_location_text(l),
        ],
        ResultView::Error(e) => seq!["ERROR: "@ + error_text(e)],
        _ => Seq::empty(),
    }
}

/// The command that a stepping command sends to the engine.
pub open spec fn step_message(command: StepCommand) -> DebugCommandAPI {
    match command {
        StepCommand::StepAcirOpcode => DebugCommandAPI::StepAcirOpcode,
        StepCommand::StepIntoOpcode => DebugCommandAPI::StepIntoOpcode,
        StepCommand::NextInto => DebugCommandAPI::NextInto,
        StepCommand::NextOver => DebugCommandAPI::NextOver,
        StepCommand::NextOut => DebugCommandAPI::NextOut,
        StepCommand::Cont => DebugCommandAPI::Cont,
    }
}

/// The terminal front-end's own state: the result of the last stepping command.
#[derive(Debug)]
pub struct ReplDebugger {
    last_result: DebugCommandResult,
    raw_source_printing: bool,
}

impl ReplDebugger {
    /// The result of the last stepping command.
    pub closed spec fn last(&self) -> ResultView {
        self.last_result@
    }

    /// Whether sources are shown without decoration.
    pub closed spec fn raw(&self) -> bool {
        self.raw_source_printing
    }

    /// A front-end before the first command.
    pub fn new(raw_source_printing: bool) -> (repl: ReplDebugger)
        ensures
            repl.last() == ResultView::Okay,
            repl.raw() == raw_source_printing,
    {
        ReplDebugger { last_result: DebugCommandResult::Okay, raw_source_printing }
    }

    /// Whether sources are shown without decoration.
    pub fn raw_source_printing(&self) -> (raw: bool)
        ensures
            raw == self.raw(),
    {
        self.raw_source_printing
    }

    /// Whether execution can go on, and what to say where it cannot: after
    /// the end, that execution is finished; after an error, the error.
    pub fn validate_in_progress(&self) -> (out: (bool, Vec<String>))
        ensures
            out.0 == !self.last().is_terminal(),
            lines_view(out.1@) == refusal_lines(self.last()),
    {
        match &self.last_result {
            DebugCommandResult::Okay => (true, no_lines()),
            DebugCommandResult::BreakpointReached(_) => (true, no_lines()),
            DebugCommandResult::Done => (false, one_line("Execution finished".to_owned())),
            DebugCommandResult::Error(e) => (false, one_line(error_line(e))),
        }
    }

    /// Notes the result of a stepping command, and says what to say of it.
    pub fn handle_debug_command_result(&mut self, result: DebugCommandResult) -> (lines: Vec<String>)
        ensures
            final(self).last() == result@,
            final(self).raw() == old(self).raw(),
            lines_view(lines@) == result_lines(result@),
    {
        let lines = match &result {
            DebugCommandResult::BreakpointReached(l) => one_line(
                before_location("Stopped at breakpoint in opcode ", l),
            ),
            DebugCommandResult::Error(e) => one_line(error_line(e)),
            _ => no_lines(),
        };
        self.last_result = result;
        lines
    }

    /// A stepping command: the command to send where execution can go on,
    /// and what to say.
    pub fn step(&self, command: StepCommand) -> (out: (Option<DebugCommandAPI>, Vec<String>))
        ensures
            out.0 == if self.last().is_terminal() {
                None
            } else {
                Some(step_message(command))
            },
            lines_view(out.1@) == if self.last().is_terminal() {
                refusal_lines(self.last())
            } else if command == StepCommand::Cont {
                seq!["(Continuing execution...)"@]
            } else {
                Seq::empty()
            },
    {
        let (proceed, lines) = self.validate_in_progress();
        if !proceed {
            return (None, lines);
        }
        match command {
            StepCommand::StepAcirOpcode => (Some(DebugCommandAPI::StepAcirOpcode), lines),
            StepCommand::StepIntoOpcode => (Some(DebugCommandAPI::StepIntoOpcode), lines),
            StepCommand::NextInto => (Some(DebugCommandAPI::NextInto), lines),
            StepCommand::NextOver => (Some(DebugCommandAPI::NextOver), lines),
            StepCommand::NextOut => (Some(DebugCommandAPI::NextOut), lines),
            StepCommand::Cont => (
                Some(DebugCommandAPI::Cont),
                one_line("(Continuing execution...)".to_owned()),
            ),
        }
    }

    /// `step`: one circuit opcode.
    pub fn step_acir_opcode(&self) -> (out: (Option<DebugCommandAPI>, Vec<String>))
        ensures
            out.0 == if self.last().is_terminal() {
                None
            } else {
                Some(DebugCommandAPI::StepAcirOpcode)
            },
            lines_view(out.1@) == if self.last().is_terminal() {
                refusal_lines(self.last())
            } else {
                Seq::empty()
            },
    {
        self.step(StepCommand::StepAcirOpcode)
    }

    /// `into`: one opcode, entering bytecode.
    pub fn step_into_opcode(&self) -> (out: (Option<DebugCommandAPI>, Vec<String>))
        ensures
            out.0 == if self.last().is_terminal() {
                None
            } else {
                Some(DebugCommandAPI::StepIntoOpcode)
            },
            lines_view(out.1@) == if self.last().is_terminal() {
                refusal_lines(self.last())
            } else {
                Seq::empty()
            },
    {
        self.step(StepCommand::StepIntoOpcode)
    }

    /// `next`: to the next source line.
    pub fn next(&self) -> (out: (Option<DebugCommandAPI>, Vec<String>))
        ensures
            out.0 == if self.last().is_terminal() {
                None
            } else {
                Some(DebugCommandAPI::NextInto)
            },
            lines_view(out.1@) == if self.last().is_terminal() {
                refusal_lines(self.last())
            } else {
                Seq::empty()
            },
    {
        self.step(StepCommand::NextInto)
    }

    /// `continue`: until a breakpoint or the end.
    pub fn cont(&self) -> (out: (Option<DebugCommandAPI>, Vec<String>))
        ensures
            out.0 == if self.last().is_terminal() {
                None
            } else {
                Some(DebugCommandAPI::Cont)
            },
            lines_view(out.1@) == if self.last().is_terminal() {
                refusal_lines(self.last())
            } else {
                seq!["(Continuing execution...)"@]
            },
    {
        self.step(StepCommand::Cont)
    }

    /// `restart`: the front-end forgets the last result.
    pub fn restart_session(&mut self) -> (lines: Vec<String>)
        ensures
            final(self).last() == ResultView::Okay,
            final(self).raw() == old(self).raw(),
            lines_view(lines@) == seq!["Restarted debugging session."@],
    {
        self.last_result = DebugCommandResult::Okay;
        one_line("Restarted debugging session.".to_owned())
    }

    /// `break <location>`: sets the breakpoint and says what came of it.
    pub fn add_breakpoint_at(&self, context: &mut DebugContext, location: DebugLocation) -> (lines:
        Vec<String>)
        ensures
            final(context)@ == (ContextView {
                breakpoints: if spec_is_valid_location(old(context).shape@, location) && !old(
                    context,
                )@.breakpoints.contains(location) {
                    old(context)@.breakpoints.push(location)
                } else {
                    old(context)@.breakpoints
                },
                ..old(context)@
            }),
            final(context).shape == old(context).shape,
            final(context).artifact == old(context).artifact,
            final(context).assert_messages == old(context).assert_messages,
            lines_view(lines@) == seq![
                if !spec_is_valid_location(old(context).shape@, location) {
                    "Invalid location "@ + debug_location_text(location)
                } else if old(context)@.breakpoints.contains(location) {
                    "Breakpoint at "@ + debug_location_text(location) + " already set"@
                } else {
                    "Added breakpoint at "@ + debug_location_text(location)
                },
            ],
    {
        if !context.is_valid_debug_location(&location) {
            one_line(before_location("Invalid location ", &location))
        } else if context.add_breakpoint(location) {
            one_line(before_location("Added breakpoint at ", &location))
        } else {
            one_line(with_location("Breakpoint at ", &location, " already set"))
        }
    }

    /// `delete <location>`: removes the breakpoint and says what came of it.
    pub fn delete_breakpoint_at(&self, context: &mut DebugContext, location: DebugLocation) -> (lines:
        Vec<String>)
        ensures
            final(context)@ == (ContextView {
                breakpoints: old(context)@.breakpoints.filter(|b: DebugLocation| b != location),
                ..old(context)@
            }),
            final(context).shape == old(context).shape,
            final(context).artifact == old(context).artifact,
            final(context).assert_messages == old(context).assert_messages,
            lines_view(lines@) == seq![
                if old(context)@.breakpoints.contains(location) {
                    "Breakpoint at "@ + debug_location_text(location) + " deleted"@
                } else {
                    "Breakpoint at "@ + debug_location_text(location) + " not set"@
                },
            ],
    {
        if context.delete_breakpoint(&location) {
            one_line(with_location("Breakpoint at ", &location, " deleted"))
        } else {
            one_line(with_location("Breakpoint at ", &location, " not set"))
        }
    }

    /// Whether the outermost circuit is solved.
    pub fn is_solved(&self, context: &DebugContext) -> (solved: bool)
        ensures
            solved == context@.solved,
    {
        context.is_solved()
    }

    /// The command that asks for the witness map.
    pub fn get_witness_map(&self) -> (command: DebugCommandAPI)
        ensures
            command == DebugCommandAPI::GetWitnessMap,
    {
        DebugCommandAPI::GetWitnessMap
    }

    /// How the session ends: solved, failed with the last error, or neither.
    pub fn finish(self, solved: bool) -> (outcome: DebugExecutionResult)
        ensures
            match outcome {
                DebugExecutionResult::Solved => solved,
                DebugExecutionResult::Error(e) => !solved && self.last() == ResultView::Error(e@),
                DebugExecutionResult::Incomplete => !solved && !(self.last() is Error),
            },
    {
        if solved {
            return DebugExecutionResult::Solved;
        }
        match self.last_result {
            DebugCommandResult::Error(e) => DebugExecutionResult::Error(e),
            _ => DebugExecutionResult::Incomplete,
        }
    }
}

/// The line that shows a witness.
pub open spec fn witness_line(index: u32, value: Seq<char>) -> Seq<char> {
    "_"@ + decimal(index as nat) + " = "@ + value
}

/// The line that shows a witness with its value as text.
pub fn witness_text(index: u32, value: &str) -> (line: String)
    ensures
        line@ == witness_line(index, value@),
{
    let mut line = "_".to_owned();
    push_decimal(&mut line, index as u128);
    push_str(&mut line, " = ");
    push_str(&mut line, value);
    line
}

/// The lines that show the first `n` witnesses of a map.
pub open spec fn witness_lines(map: Seq<(u32, FieldElement)>, n: nat) -> Seq<Seq<char>>
    decreases n,
{
    if n == 0 || n > map.len() {
        Seq::empty()
    } else {
        witness_lines(map, (n - 1) as nat).push(
            witness_line(map[n - 1].0, spec_field_display(map[n - 1].1.hi, map[n - 1].1.lo)),
        )
    }
}

/// A cell of memory as text: a field element as the solver shows it, an
/// integer in decimal.
pub open spec fn memory_text(cell: MemoryValue) -> Seq<char> {
    match cell {
        MemoryValue::Field(f) => spec_field_display(f.hi, f.lo),
        MemoryValue::Integer(v, _) => decimal(v as nat),
    }
}

/// The lines that show the first `n` cells of memory: one for each cell but
/// the field elements that are zero.
pub open spec fn memory_lines(memory: Seq<MemoryValue>, n: nat) -> Seq<Seq<char>>
    decreases n,
{
    if n == 0 || n > memory.len() {
        Seq::empty()
    } else {
        let before = memory_lines(memory, (n - 1) as nat);
        match memory[n - 1] {
            MemoryValue::Field(f) => if f.hi == 0 && f.lo == 0 {
                before
            } else {
                before.push(decimal((n - 1) as nat) + " = "@ + memory_text(memory[n - 1]))
            },
            _ => before.push(decimal((n - 1) as nat) + " = "@ + memory_text(memory[n - 1])),
        }
    }
}

/// The first `n` names, with a comma and a space between them.
pub open spec fn joined(names: Seq<Seq<char>>, n: nat) -> Seq<char>
    decreases n,
{
    if n == 0 || n > names.len() {
        Seq::empty()
    } else if n == 1 {
        names[0]
    } else {
        joined(names, (n - 1) as nat) + ", "@ + names[n - 1]
    }
}

/// The line that shows a variable.
pub open spec fn variable_line(name: Seq<char>, value: ValueView, typ: TypeView) -> Seq<char> {
    "  "@ + name + ":"@ + type_text(typ) + " = "@ + render(value, typ)
}

/// The lines that show the first `n` variables of a frame.
pub open spec fn variable_lines(
    variables: Seq<(String, PrintableValue, PrintableType)>,
    n: nat,
) -> Seq<Seq<char>>
    decreases n,
{
    if n == 0 || n > variables.len() {
        Seq::empty()
    } else {
        variable_lines(variables, (n - 1) as nat).push(
            variable_line(variables[n - 1].0@, variables[n - 1].1@, variables[n - 1].2@),
        )
    }
}

/// The lines that show a frame: the function with its parameters, then the variables.
pub open spec fn frame_lines(frame: DebugStackFrame) -> Seq<Seq<char>> {
    seq![
        frame.function_name@ + "("@ + joined(
            lines_view(frame.function_params@),
            frame.function_params@.len(),
        ) + ")"@,
    ] + variable_lines(frame.variables@, frame.variables@.len())
}

/// The lines that show the first `n` frames.
pub open spec fn frames_lines(frames: Seq<DebugStackFrame>, n: nat) -> Seq<Seq<char>>
    decreases n,
{
    if n == 0 || n > frames.len() {
        Seq::empty()
    } else {
        frames_lines(frames, (n - 1) as nat) + frame_lines(frames[n - 1])
    }
}

/// What `witness <index> <value>` does, given the field element that the
/// value denotes: the command to send, and what to say.
pub open spec fn spec_update_witness_given(
    index: u32,
    value: Seq<char>,
    parsed: Option<FieldElement>,
) -> (Option<DebugCommandAPI>, Seq<Seq<char>>) {
    match parsed {
        None => (None, seq!["Invalid witness value: "@ + value]),
        Some(f) => (Some(DebugCommandAPI::OverwriteWitness(index, f)), seq![witness_line(index, value)]),
    }
}

/// What `witness <index> <value>` does: the command to send, and what to say.
pub open spec fn spec_update_witness(index: u32, value: Seq<char>) -> (
    Option<DebugCommandAPI>,
    Seq<Seq<char>>,
) {
    spec_update_witness_given(index, value, spec_field_from_text(value))
}

/// What `memset <index> <value> <bit_size>` does: the command to send, and
/// what to say.
pub open spec fn spec_write_memory(
    index: usize,
    value: Seq<char>,
    bit_size: u32,
    executing: bool,
) -> (Option<DebugCommandAPI>, Seq<Seq<char>>) {
    spec_write_memory_given(index, value, spec_field_from_text(value), bit_size, executing)
}

/// What `memset <index> <value> <bit_size>` does, given the field element
/// that the value denotes: the command to send, and what to say.
pub open spec fn spec_write_memory_given(
    index: usize,
    value: Seq<char>,
    parsed: Option<FieldElement>,
    bit_size: u32,
    executing: bool,
) -> (Option<DebugCommandAPI>, Seq<Seq<char>>) {
    match parsed {
        None => (None, seq!["Invalid value: "@ + value]),
        Some(f) => match spec_bit_size(bit_size) {
            None => (None, seq!["Invalid bit size: "@ + decimal(bit_size as nat)]),
            Some(size) => if !executing {
                (None, seq!["Not executing a Brillig block"@])
            } else {
                (Some(DebugCommandAPI::WriteBrilligMemory(index, f, size)), Seq::empty())
            },
        },
    }
}

impl ReplDebugger {
    /// `next`, under its full name.
    pub fn next_into(&self) -> (out: (Option<DebugCommandAPI>, Vec<String>))
        ensures
            out.0 == if self.last().is_terminal() {
                None
            } else {
                Some(DebugCommandAPI::NextInto)
            },
            lines_view(out.1@) == if self.last().is_terminal() {
                refusal_lines(self.last())
            } else {
                Seq::empty()
            },
    {
        self.step(StepCommand::NextInto)
    }

    /// `over`: to the next source line, not into calls.
    pub fn next_over(&self) -> (out: (Option<DebugCommandAPI>, Vec<String>))
        ensures
            out.0 == if self.last().is_terminal() {
                None
            } else {
                Some(DebugCommandAPI::NextOver)
            },
            lines_view(out.1@) == if self.last().is_terminal() {
                refusal_lines(self.last())
            } else {
                Seq::empty()
            },
    {
        self.step(StepCommand::NextOver)
    }

    /// `out`: until the current call returns.
    pub fn next_out(&self) -> (out: (Option<DebugCommandAPI>, Vec<String>))
        ensures
            out.0 == if self.last().is_terminal() {
                None
            } else {
                Some(DebugCommandAPI::NextOut)
            },
            lines_view(out.1@) == if self.last().is_terminal() {
                refusal_lines(self.last())
            } else {
                Seq::empty()
            },
    {
        self.step(StepCommand::NextOut)
    }

    /// `break <line>`: sets a breakpoint at the opcode for a line of the
    /// current file, and says what came of it.
    pub fn add_breakpoint_at_line(&self, context: &mut DebugContext, line_number: i64) -> (lines:
        Vec<String>)
        ensures
            final(context).shape == old(context).shape,
            final(context).artifact == old(context).artifact,
            final(context).assert_messages == old(context).assert_messages,
            match spec_find_opcode_at_line(
                old(context).shape@,
                &old(context).artifact,
                old(context)@,
                line_number,
            ) {
                None => final(context)@ == old(context)@ && lines_view(lines@) == seq![
                    "No opcode at line "@ + signed_decimal(line_number),
                ],
                Some(location) => final(context)@ == (ContextView {
                    breakpoints: if spec_is_valid_location(old(context).shape@, location) && !old(
                        context,
                    )@.breakpoints.contains(location) {
                        old(context)@.breakpoints.push(location)
                    } else {
                        old(context)@.breakpoints
                    },
                    ..old(context)@
                }) && lines_view(lines@) == seq![
                    "Added breakpoint at line "@ + signed_decimal(line_number),
                    if !spec_is_valid_location(old(context).shape@, location) {
                        "Invalid location "@ + debug_location_text(location)
                    } else if old(context)@.breakpoints.contains(location) {
                        "Breakpoint at "@ + debug_location_text(location) + " already set"@
                    } else {
                        "Added breakpoint at "@ + debug_location_text(location)
                    },
                ],
            },
    {
        match context.find_opcode_at_current_file_line(line_number) {
            Some(location) => {
                let mut first = "Added breakpoint at line ".to_owned();
                push_signed_decimal(&mut first, line_number);
                let mut lines = one_line(first);
                let mut more = self.add_breakpoint_at(context, location);
                let ghost a = lines@;
                let ghost b = more@;
                lines.append(&mut more);
                assert(lines_view(lines@) =~= lines_view(a) + lines_view(b));
                lines
            },
            None => {
                let mut line = "No opcode at line ".to_owned();
                push_signed_decimal(&mut line, line_number);
                one_line(line)
            },
        }
    }

    /// `witness`: every witness with its value.
    pub fn show_witness_map(&self, witness_map: &Vec<(u32, FieldElement)>) -> (lines: Vec<String>)
        ensures
            lines_view(lines@) == witness_lines(witness_map@, witness_map@.len()),
    {
        let mut lines = no_lines();
        let mut i: usize = 0;
        while i < witness_map.len()
            invariant
                0 <= i <= witness_map.len(),
                lines_view(lines@) == witness_lines(witness_map@, i as nat),
            decreases witness_map.len() - i,
        {
            let shown = witness_map[i].1.to_display();
            push_line(&mut lines, witness_text(witness_map[i].0, shown.as_str()));
            i += 1;
        }
        lines
    }

    /// `witness <index>`: the witness with its value, where it has one.
    pub fn show_witness(&self, index: u32, value: Option<FieldElement>) -> (lines: Vec<String>)
        ensures
            lines_view(lines@) == match value {
                Some(f) => seq![witness_line(index, spec_field_display(f.hi, f.lo))],
                None => Seq::empty(),
            },
    {
        match value {
            Some(f) => {
                let shown = f.to_display();
                one_line(witness_text(index, shown.as_str()))
            },
            None => no_lines(),
        }
    }

    /// `witness <index> <value>`: the command to send, and what to say.
    pub fn update_witness(&self, index: u32, value: String) -> (out: (
        Option<DebugCommandAPI>,
        Vec<String>,
    ))
        ensures
            (out.0, lines_view(out.1@)) == spec_update_witness(index, value@),
    {
        let parsed = FieldElement::try_from_str(value.as_str());
        self.update_witness_given(index, value, parsed)
    }

    /// `witness <index> <value>`, once the value is read: a value that is no
    /// field element is refused; else the witness is to be overwritten.
    pub fn update_witness_given(&self, index: u32, value: String, parsed: Option<FieldElement>) -> (out:
        (Option<DebugCommandAPI>, Vec<String>))
        ensures
            (out.0, lines_view(out.1@)) == spec_update_witness_given(index, value@, parsed),
    {
        match parsed {
            None => {
                let mut line = "Invalid witness value: ".to_owned();
                push_str(&mut line, value.as_str());
                (None, one_line(line))
            },
            Some(f) => (
                Some(DebugCommandAPI::OverwriteWitness(index, f)),
                one_line(witness_text(index, value.as_str())),
            ),
        }
    }

    /// `memory`: the cells of the bytecode machine's memory.
    pub fn show_brillig_memory(&self, executing: bool, memory: Option<&Vec<MemoryValue>>) -> (lines:
        Vec<String>)
        ensures
            lines_view(lines@) == if !executing {
                seq!["Not executing a Brillig block"@]
            } else {
                match memory {
                    None => seq!["Brillig VM memory not available"@],
                    Some(cells) => memory_lines(cells@, cells@.len()),
                }
            },
    {
        if !executing {
            return one_line("Not executing a Brillig block".to_owned());
        }
        let cells = match memory {
            None => {
                return one_line("Brillig VM memory not available".to_owned());
            },
            Some(cells) => cells,
        };
        let mut lines = no_lines();
        let mut i: usize = 0;
        while i < cells.len()
            invariant
                0 <= i <= cells.len(),
                lines_view(lines@) == memory_lines(cells@, i as nat),
            decreases cells.len() - i,
        {
            let skip = match cells[i] {
                MemoryValue::Field(f) => f.hi == 0 && f.lo == 0,
                _ => false,
            };
            if !skip {
                let mut line = String::new();
                push_decimal(&mut line, i as u128);
                push_str(&mut line, " = ");
                match cells[i] {
                    MemoryValue::Field(f) => {
                        let shown = f.to_display();
                        push_str(&mut line, shown.as_str());
                    },
                    MemoryValue::Integer(v, _) => {
                        push_decimal(&mut line, v);
                    },
                }
                assert(line@ =~= decimal(i as nat) + " = "@ + memory_text(cells[i as int]));
                push_line(&mut lines, line);
            }
            i += 1;
        }
        lines
    }

    /// `memset <index> <value> <bit_size>`: the command to send, and what to say.
    pub fn write_brillig_memory(&self, index: usize, value: String, bit_size: u32, executing: bool) -> (out:
        (Option<DebugCommandAPI>, Vec<String>))
        ensures
            (out.0, lines_view(out.1@)) == spec_write_memory(index, value@, bit_size, executing),
    {
        let parsed = FieldElement::try_from_str(value.as_str());
        self.write_brillig_memory_given(index, value, parsed, bit_size, executing)
    }

    /// `memset <index> <value> <bit_size>`, once the value is read: a value
    /// that is no field element, a number of bits that names no width, and a
    /// write while no bytecode call is open are refused, in this order.
    pub fn write_brillig_memory_given(
        &self,
        index: usize,
        value: String,
        parsed: Option<FieldElement>,
        bit_size: u32,
        executing: bool,
    ) -> (out: (Option<DebugCommandAPI>, Vec<String>))
        ensures
            (out.0, lines_view(out.1@)) == spec_write_memory_given(
                index,
                value@,
                parsed,
                bit_size,
                executing,
            ),
    {
        let field_value = match parsed {
            None => {
                let mut line = "Invalid value: ".to_owned();
                push_str(&mut line, value.as_str());
                return (None, one_line(line));
            },
            Some(f) => f,
        };
        let size = match BitSize::try_from_u32(bit_size) {
            None => {
                let mut line = "Invalid bit size: ".to_owned();
                push_decimal(&mut line, bit_size as u128);
                return (None, one_line(line));
            },
            Some(size) => size,
        };
        if !executing {
            return (None, one_line("Not executing a Brillig block".to_owned()));
        }
        (Some(DebugCommandAPI::WriteBrilligMemory(index, field_value, size)), no_lines())
    }

    /// `vars`: every frame with its variables.
    pub fn show_vars(&self, frames: &Vec<DebugStackFrame>) -> (lines: Vec<String>)
        ensures
            lines_view(lines@) == frames_lines(frames@, frames@.len()),
    {
        let mut lines = no_lines();
        let mut i: usize = 0;
        assert(lines_view(lines@) =~= frames_lines(frames@, 0));
        while i < frames.len()
            invariant
                0 <= i <= frames.len(),
                lines_view(lines@) == frames_lines(frames@, i as nat),
            decreases frames.len() - i,
        {
            let frame = &frames[i];
            let ghost before = lines_view(lines@);
            let mut head = frame.function_name.clone();
            push_str(&mut head, "(");
            let ghost start = head@;
            let ghost names = lines_view(frame.function_params@);
            let mut k: usize = 0;
            assert(start + Seq::<char>::empty() =~= start);
            while k < frame.function_params.len()
                invariant
                    0 <= k <= frame.function_params.len(),
                    names == lines_view(frame.function_params@),
                    head@ == start + joined(names, k as nat),
                decreases frame.function_params.len() - k,
            {
                if k > 0 {
                    push_str(&mut head, ", ");
                }
                push_str(&mut head, frame.function_params[k].as_str());
                assert(head@ =~= start + joined(names, (k + 1) as nat));
                k += 1;
            }
            push_str(&mut head, ")");
            push_line(&mut lines, head);
            let ghost with_head = lines_view(lines@);
            let mut v: usize = 0;
            assert(with_head + Seq::<Seq<char>>::empty() =~= with_head);
            while v < frame.variables.len()
                invariant
                    0 <= v <= frame.variables.len(),
                    lines_view(lines@) == with_head + variable_lines(frame.variables@, v as nat),
                decreases frame.variables.len() - v,
            {
                let variable = &frame.variables[v];
                let mut line = "  ".to_owned();
                push_str(&mut line, variable.0.as_str());
                push_str(&mut line, ":");
                push_type(&mut line, &variable.2);
                push_str(&mut line, " = ");
                let shown = to_string(&variable.1, &variable.2);
                push_str(&mut line, shown.as_str());
                push_line(&mut lines, line);
                assert(lines_view(lines@) =~= with_head + variable_lines(
                    frame.variables@,
                    (v + 1) as nat,
                ));
                v += 1;
            }
            assert(lines_view(lines@) =~= before + frame_lines(frames[i as int]));
            i += 1;
        }
        lines
    }
}

/// A signed number in decimal.
pub open spec fn signed_decimal(n: i64) -> Seq<char> {
    if n < 0 {
        seq!['-'] + decimal((-(n as int)) as nat)
    } else {
        decimal(n as nat)
    }
}

fn push_signed_decimal(text: &mut String, n: i64)
    ensures
        final(text)@ == old(text)@ + signed_decimal(n),
{
    if n < 0 {
        push_char(text, '-');
        let magnitude: u128 = if n == i64::MIN {
            0x8000_0000_0000_0000
        } else {
            (-n) as u128
        };
        push_decimal(text, magnitude);
        assert(text@ =~= old(text)@ + signed_decimal(n));
    } else {
        push_decimal(text, n as u128);
    }
}

/// A bytecode call as the opcode list shows it.
#[derive(Debug, PartialEq, Eq)]
pub struct BrilligListing {
    /// The function that is called.
    pub id: u32,
    /// The inputs of the call, as text.
    pub inputs: String,
    /// The outputs of the call, as text.
    pub outputs: String,
    /// The opcodes of the function, each as text.
    pub bytecode: Vec<String>,
}

/// A circuit opcode as the opcode list shows it.
#[derive(Debug, PartialEq, Eq)]
pub struct OpcodeListing {
    /// The opcode as text.
    pub text: String,
    /// The bytecode call that the opcode is, if it is one.
    pub brillig_call: Option<BrilligListing>,
}

/// The mark before an opcode: an arrow where execution stands, a star at a
/// breakpoint, else nothing; in two characters.
pub open spec fn mark(current: bool, breakpoint: bool) -> Seq<char> {
    if current {
        "->"@
    } else if breakpoint {
        " *"@
    } else {
        "  "@
    }
}

/// The index of the circuit opcode at or in which execution stands, where
/// that is in circuit `circuit_id`.
pub open spec fn current_acir(here: Option<DebugLocation>, circuit_id: u32) -> Option<usize> {
    match here {
        Some(l) => if l.circuit_id == circuit_id {
            match l.opcode_location {
                OpcodeLocation::Acir(i) => Some(i),
                OpcodeLocation::Brillig { acir_index, .. } => Some(acir_index),
            }
        } else {
            None
        },
        None => None,
    }
}

/// The index of the bytecode opcode at which execution stands in circuit
/// `circuit_id`, zero where it stands at none.
pub open spec fn current_brillig(here: Option<DebugLocation>, circuit_id: u32) -> usize {
    match here {
        Some(l) => if l.circuit_id == circuit_id {
            match l.opcode_location {
                OpcodeLocation::Brillig { brillig_index, .. } => brillig_index,
                _ => 0,
            }
        } else {
            0
        },
        None => 0,
    }
}

/// The mark before the circuit opcode at `acir_index`.
pub open spec fn outer_mark(
    here: Option<DebugLocation>,
    breakpoints: Seq<DebugLocation>,
    circuit_id: u32,
    acir_index: usize,
) -> Seq<char> {
    mark(
        current_acir(here, circuit_id) == Some(acir_index),
        breakpoints.contains(
            DebugLocation {
                circuit_id,
                opcode_location: OpcodeLocation::Acir(acir_index),
                brillig_function_id: None,
            },
        ),
    )
}

/// The mark before the bytecode opcode at `brillig_index` of the call at `acir_index`.
pub open spec fn brillig_mark(
    here: Option<DebugLocation>,
    breakpoints: Seq<DebugLocation>,
    circuit_id: u32,
    acir_index: usize,
    brillig_index: usize,
    function_id: u32,
) -> Seq<char> {
    mark(
        current_acir(here, circuit_id) == Some(acir_index) && brillig_index == current_brillig(
            here,
            circuit_id,
        ),
        breakpoints.contains(
            DebugLocation {
                circuit_id,
                opcode_location: OpcodeLocation::Brillig { acir_index, brillig_index },
                brillig_function_id: Some(function_id),
            },
        ),
    )
}

/// The start of a line of the opcode list: the circuit in two characters, a
/// colon, and the index of the opcode in three.
pub open spec fn opcode_prefix(circuit_id: u32, acir_index: usize) -> Seq<char> {
    pad_left(decimal(circuit_id as nat), 2) + ":"@ + pad_left(decimal(acir_index as nat), 3)
}

/// The lines of the first `n` opcodes of a bytecode function.
pub open spec fn bytecode_lines(
    here: Option<DebugLocation>,
    breakpoints: Seq<DebugLocation>,
    circuit_id: u32,
    acir_index: usize,
    call: BrilligListing,
    n: nat,
) -> Seq<Seq<char>>
    decreases n,
{
    if n == 0 || n > call.bytecode.len() {
        Seq::empty()
    } else {
        bytecode_lines(here, breakpoints, circuit_id, acir_index, call, (n - 1) as nat).push(
            opcode_prefix(circuit_id, acir_index) + "."@ + pad_right(decimal((n - 1) as nat), 2)
                + " |"@ + brillig_mark(
                here,
                breakpoints,
                circuit_id,
                acir_index,
                (n - 1) as usize,
                call.id,
            ) + " "@ + call.bytecode[n - 1]@,
        )
    }
}

/// The lines of one circuit opcode: one line, or for a bytecode call the
/// call, its outputs, and the opcodes of the function.
pub open spec fn opcode_lines(
    here: Option<DebugLocation>,
    breakpoints: Seq<DebugLocation>,
    circuit_id: u32,
    acir_index: usize,
    opcode: OpcodeListing,
) -> Seq<Seq<char>> {
    let start = opcode_prefix(circuit_id, acir_index) + " "@ + outer_mark(
        here,
        breakpoints,
        circuit_id,
        acir_index,
    );
    match opcode.brillig_call {
        Some(call) => seq![
            start + " BRILLIG CALL id="@ + decimal(call.id as nat) + " inputs="@ + call.inputs@,
            "          |       outputs="@ + call.outputs@,
        ] + bytecode_lines(here, breakpoints, circuit_id, acir_index, call, call.bytecode@.len()),
        None => seq![start + " "@ + opcode.text@],
    }
}

/// The lines of the first `n` opcodes of a circuit.
pub open spec fn circuit_lines(
    here: Option<DebugLocation>,
    breakpoints: Seq<DebugLocation>,
    circuit_id: u32,
    opcodes: Seq<OpcodeListing>,
    n: nat,
) -> Seq<Seq<char>>
    decreases n,
{
    if n == 0 || n > opcodes.len() {
        Seq::empty()
    } else {
        circuit_lines(here, breakpoints, circuit_id, opcodes, (n - 1) as nat) + opcode_lines(
            here,
            breakpoints,
            circuit_id,
            (n - 1) as usize,
            opcodes[n - 1],
        )
    }
}

/// The lines of the first `n` circuits of a program.
pub open spec fn program_lines(
    here: Option<DebugLocation>,
    breakpoints: Seq<DebugLocation>,
    circuits: Seq<Vec<OpcodeListing>>,
    n: nat,
) -> Seq<Seq<char>>
    decreases n,
{
    if n == 0 || n > circuits.len() || n > u32::MAX {
        Seq::empty()
    } else {
        program_lines(here, breakpoints, circuits, (n - 1) as nat) + circuit_lines(
            here,
            breakpoints,
            (n - 1) as u32,
            circuits[n - 1]@,
            circuits[n - 1]@.len(),
        )
    }
}

/// The lines that show the first `n` frames of a call stack, each with the
/// text of its opcode.
pub open spec fn stack_lines(stack: Seq<(DebugLocation, String)>, n: nat) -> Seq<Seq<char>>
    decreases n,
{
    if n == 0 || n > stack.len() {
        Seq::empty()
    } else {
        stack_lines(stack, (n - 1) as nat).push(
            "Frame #"@ + decimal((n - 1) as nat) + ", opcode "@ + debug_location_text(stack[n - 1].0)
                + " :: "@ + stack[n - 1].1@,
        )
    }
}

fn push_mark(text: &mut String, current: bool, breakpoint: bool)
    ensures
        final(text)@ == old(text)@ + mark(current, breakpoint),
{
    if current {
        push_str(text, "->");
    } else if breakpoint {
        push_str(text, " *");
    } else {
        push_str(text, "  ");
    }
}

fn push_opcode_prefix(text: &mut String, circuit_id: u32, acir_index: usize)
    ensures
        final(text)@ == old(text)@ + opcode_prefix(circuit_id, acir_index),
{
    push_decimal_right(text, circuit_id as u128, 2);
    push_str(text, ":");
    push_decimal_right(text, acir_index as u128, 3);
    assert(text@ =~= old(text)@ + opcode_prefix(circuit_id, acir_index));
}

impl ReplDebugger {
    /// Where execution stands: the location and its opcode, or that
    /// execution is finished.
    pub fn show_current_vm_status(&self, location: Option<DebugLocation>, opcode: &str) -> (lines:
        Vec<String>)
        ensures
            lines_view(lines@) == seq![
                match location {
                    None => "Finished execution"@,
                    Some(l) => "At opcode "@ + debug_location_text(l) + " :: "@ + opcode@,
                },
            ],
    {
        match location {
            None => one_line("Finished execution".to_owned()),
            Some(l) => {
                let mut line = with_location("At opcode ", &l, " :: ");
                push_str(&mut line, opcode);
                one_line(line)
            },
        }
    }

    /// `stacktrace`: every frame of the call stack with its opcode.
    pub fn show_current_call_stack(&self, stack: &Vec<(DebugLocation, String)>) -> (lines: Vec<
        String,
    >)
        ensures
            lines_view(lines@) == if stack@.len() == 0 {
                seq!["Finished execution. Call stack empty."@]
            } else {
                stack_lines(stack@, stack@.len())
            },
    {
        if stack.len() == 0 {
            return one_line("Finished execution. Call stack empty.".to_owned());
        }
        let mut lines = no_lines();
        let mut i: usize = 0;
        while i < stack.len()
            invariant
                0 <= i <= stack.len(),
                lines_view(lines@) == stack_lines(stack@, i as nat),
            decreases stack.len() - i,
        {
            let mut line = "Frame #".to_owned();
            push_decimal(&mut line, i as u128);
            push_str(&mut line, ", opcode ");
            stack[i].0.push_text(&mut line);
            push_str(&mut line, " :: ");
            push_str(&mut line, stack[i].1.as_str());
            push_line(&mut lines, line);
            i += 1;
        }
        lines
    }

    /// The opcodes of one circuit, each marked where execution stands at it
    /// or a breakpoint is set at it.
    pub fn display_opcodes_of_circuit(
        &self,
        context: &DebugContext,
        circuit_id: u32,
        opcodes: &Vec<OpcodeListing>,
    ) -> (lines: Vec<String>)
        ensures
            lines_view(lines@) == circuit_lines(
                current_location(context.shape@, context@),
                context@.breakpoints,
                circuit_id,
                opcodes@,
                opcodes@.len(),
            ),
    {
        let here = context.get_current_debug_location();
        let current_acir_index: Option<usize> = match here {
            Some(l) => if l.circuit_id == circuit_id {
                Some(l.opcode_location.acir_index())
            } else {
                None
            },
            None => None,
        };
        let current_brillig_index: usize = match here {
            Some(l) => if l.circuit_id == circuit_id {
                match l.opcode_location {
                    OpcodeLocation::Brillig { brillig_index, .. } => brillig_index,
                    _ => 0,
                }
            } else {
                0
            },
            None => 0,
        };
        assert(current_acir_index == current_acir(here, circuit_id));
        assert(current_brillig_index == current_brillig(here, circuit_id));
        let ghost breakpoints = context@.breakpoints;
        let mut lines = no_lines();
        let mut i: usize = 0;
        while i < opcodes.len()
            invariant
                0 <= i <= opcodes.len(),
                here == current_location(context.shape@, context@),
                breakpoints == context@.breakpoints,
                current_acir_index == current_acir(here, circuit_id),
                current_brillig_index == current_brillig(here, circuit_id),
                lines_view(lines@) == circuit_lines(here, breakpoints, circuit_id, opcodes@, i as nat),
            decreases opcodes.len() - i,
        {
            let ghost before = lines_view(lines@);
            let opcode = &opcodes[i];
            let at_opcode = DebugLocation {
                circuit_id,
                opcode_location: OpcodeLocation::Acir(i),
                brillig_function_id: None,
            };
            let is_current = match current_acir_index {
                Some(index) => index == i,
                None => false,
            };
            let mut line = String::new();
            push_opcode_prefix(&mut line, circuit_id, i);
            push_str(&mut line, " ");
            push_mark(&mut line, is_current, context.is_breakpoint_set(&at_opcode));
            match &opcode.brillig_call {
                None => {
                    push_str(&mut line, " ");
                    push_str(&mut line, opcode.text.as_str());
                    assert(line@ =~= opcode_prefix(circuit_id, i) + " "@ + outer_mark(
                        here,
                        breakpoints,
                        circuit_id,
                        i,
                    ) + " "@ + opcode.text@);
                    push_line(&mut lines, line);
                    assert(lines_view(lines@) =~= before + opcode_lines(
                        here,
                        breakpoints,
                        circuit_id,
                        i,
                        opcodes[i as int],
                    ));
                },
                Some(call) => {
                    push_str(&mut line, " BRILLIG CALL id=");
                    push_decimal(&mut line, call.id as u128);
                    push_str(&mut line, " inputs=");
                    push_str(&mut line, call.inputs.as_str());
                    assert(line@ =~= opcode_prefix(circuit_id, i) + " "@ + outer_mark(
                        here,
                        breakpoints,
                        circuit_id,
                        i,
                    ) + " BRILLIG CALL id="@ + decimal(call.id as nat) + " inputs="@
                        + call.inputs@);
                    push_line(&mut lines, line);
                    let mut second = "          |       outputs=".to_owned();
                    push_str(&mut second, call.outputs.as_str());
                    push_line(&mut lines, second);
                    let ghost with_call = lines_view(lines@);
                    let mut k: usize = 0;
                    assert(with_call + Seq::<Seq<char>>::empty() =~= with_call);
                    while k < call.bytecode.len()
                        invariant
                            0 <= k <= call.bytecode.len(),
                            here == current_location(context.shape@, context@),
                            breakpoints == context@.breakpoints,
                            current_acir_index == current_acir(here, circuit_id),
                            current_brillig_index == current_brillig(here, circuit_id),
                            is_current == (current_acir(here, circuit_id) == Some(i)),
                            lines_view(lines@) == with_call + bytecode_lines(
                                here,
                                breakpoints,
                                circuit_id,
                                i,
                                *call,
                                k as nat,
                            ),
                        decreases call.bytecode.len() - k,
                    {
                        let at_bytecode = DebugLocation {
                            circuit_id,
                            opcode_location: OpcodeLocation::Brillig {
                                acir_index: i,
                                brillig_index: k,
                            },
                            brillig_function_id: Some(call.id),
                        };
                        let mut inner = String::new();
                        push_opcode_prefix(&mut inner, circuit_id, i);
                        push_str(&mut inner, ".");
                        push_decimal_left(&mut inner, k as u128, 2);
                        push_str(&mut inner, " |");
                        push_mark(
                            &mut inner,
                            is_current && k == current_brillig_index,
                            context.is_breakpoint_set(&at_bytecode),
                        );
                        push_str(&mut inner, " ");
                        push_str(&mut inner, call.bytecode[k].as_str());
                        assert(inner@ =~= opcode_prefix(circuit_id, i) + "."@ + pad_right(
                            decimal(k as nat),
                            2,
                        ) + " |"@ + brillig_mark(here, breakpoints, circuit_id, i, k, call.id) + " "@
                            + call.bytecode[k as int]@);
                        push_line(&mut lines, inner);
                        k += 1;
                    }
                    assert(lines_view(lines@) =~= before + opcode_lines(
                        here,
                        breakpoints,
                        circuit_id,
                        i,
                        opcodes[i as int],
                    ));
                },
            }
            i += 1;
        }
        lines
    }

    /// `opcodes`: the opcodes of every circuit.
    pub fn display_opcodes(&self, context: &DebugContext, circuits: &Vec<Vec<OpcodeListing>>) -> (lines:
        Vec<String>)
        ensures
            lines_view(lines@) == program_lines(
                current_location(context.shape@, context@),
                context@.breakpoints,
                circuits@,
                if circuits@.len() > u32::MAX {
                    u32::MAX as nat
                } else {
                    circuits@.len()
                },
            ),
    {
        let count: usize = if circuits.len() > u32::MAX as usize {
            u32::MAX as usize
        } else {
            circuits.len()
        };
        let mut lines = no_lines();
        let mut i: usize = 0;
        while i < count
            invariant
                0 <= i <= count,
                count <= circuits.len(),
                count <= u32::MAX,
                lines_view(lines@) == program_lines(
                    current_location(context.shape@, context@),
                    context@.breakpoints,
                    circuits@,
                    i as nat,
                ),
            decreases count - i,
        {
            let mut more = self.display_opcodes_of_circuit(context, i as u32, &circuits[i]);
            let ghost a = lines@;
            let ghost b = more@;
            lines.append(&mut more);
            assert(lines_view(lines@) =~= lines_view(a) + lines_view(b));
            i += 1;
        }
        lines
    }
}

} // verus!
