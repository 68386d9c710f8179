//! The start of a session under the Debug Adapter Protocol: the requests
//! before the program is loaded, and the arguments of a launch.

use crate::text::{chars_of, decimal_value, parse_decimal, push_str};
use vstd::prelude::*;

verus! {

/// The name of the prover file where none is given.
pub open spec fn spec_prover_input_file() -> Seq<char> {
    "Prover"@
}

/// A member of the launch data, as far as the adapter reads it.
#[derive(Debug, PartialEq, Eq)]
pub enum LaunchValue {
    String(String),
    Bool(bool),
    /// Any other value.
    Other,
}

/// The model of a [`LaunchValue`].
pub enum LaunchValueView {
    String(Seq<char>),
    Bool(bool),
    Other,
}

impl View for LaunchValue {
    type V = LaunchValueView;

    open spec fn view(&self) -> LaunchValueView {
        match self {
            LaunchValue::String(s) => LaunchValueView::String(s@),
            LaunchValue::Bool(b) => LaunchValueView::Bool(*b),
            LaunchValue::Other => LaunchValueView::Other,
        }
    }
}

/// The models of the members of the launch data.
pub open spec fn members_view(members: Seq<(String, LaunchValue)>) -> Seq<
    (Seq<char>, LaunchValueView),
> {
    Seq::new(members.len(), |i: int| (members[i].0@, members[i].1@))
}

/// The value of the first member named `name`, if there is one.
pub open spec fn member(members: Seq<(Seq<char>, LaunchValueView)>, name: Seq<char>) -> Option<
    LaunchValueView,
>
    decreases members.len(),
{
    if members.len() == 0 {
        None
    } else if members[0].0 == name {
        Some(members[0].1)
    } else {
        member(members.drop_first(), name)
    }
}

/// The text of a member, where the member is a string.
pub open spec fn member_text(members: Seq<(Seq<char>, LaunchValueView)>, name: Seq<char>) -> Option<
    Seq<char>,
> {
    match member(members, name) {
        Some(LaunchValueView::String(s)) => Some(s),
        _ => None,
    }
}

/// The truth value of a member, where the member is one.
pub open spec fn member_bool(members: Seq<(Seq<char>, LaunchValueView)>, name: Seq<char>) -> Option<
    bool,
> {
    match member(members, name) {
        Some(LaunchValueView::Bool(b)) => Some(b),
        _ => None,
    }
}

/// The arguments of a launch.
#[derive(Debug, PartialEq, Eq)]
pub struct LaunchArguments {
    pub project_folder: String,
    pub package: Option<String>,
    pub prover_name: String,
    pub generate_acir: bool,
    pub skip_instrumentation: bool,
    pub test_name: Option<String>,
    pub oracle_resolver: Option<String>,
}

/// The model of [`LaunchArguments`].
pub struct LaunchView {
    pub project_folder: Seq<char>,
    pub package: Option<Seq<char>>,
    pub prover_name: Seq<char>,
    pub generate_acir: bool,
    pub skip_instrumentation: bool,
    pub test_name: Option<Seq<char>>,
    pub oracle_resolver: Option<Seq<char>>,
}

/// The model of a text that may be missing.
pub open spec fn text_view(text: Option<String>) -> Option<Seq<char>> {
    match text {
        Some(s) => Some(s@),
        None => None,
    }
}

impl View for LaunchArguments {
    type V = LaunchView;

    open spec fn view(&self) -> LaunchView {
        LaunchView {
            project_folder: self.project_folder@,
            package: text_view(self.package),
            prover_name: self.prover_name@,
            generate_acir: self.generate_acir,
            skip_instrumentation: self.skip_instrumentation,
            test_name: text_view(self.test_name),
            oracle_resolver: text_view(self.oracle_resolver),
        }
    }
}

/// Why a launch is refused.
#[derive(Clone, Copy, Debug, PartialEq, Eq, Structural)]
pub enum LaunchError {
    /// The request carries no object of arguments.
    MissingArguments,
    /// The arguments name no project folder.
    MissingProjectFolder,
}

impl LaunchError {
    /// The message of the error.
    pub fn message(&self) -> (text: String)
        ensures
            text@ == match self {
                LaunchError::MissingArguments => "Missing launch arguments"@,
                LaunchError::MissingProjectFolder => "Missing project folder argument"@,
            },
    {
        match self {
            LaunchError::MissingArguments => "Missing launch arguments".to_owned(),
            LaunchError::MissingProjectFolder => "Missing project folder argument".to_owned(),
        }
    }
}

/// The arguments that the launch data hold. The project folder must be
/// there; the prover file is `Prover` where none is named; the program is
/// instrumented unless told otherwise or unless circuit opcodes are asked for.
pub open spec fn spec_launch_arguments(data: Option<Seq<(Seq<char>, LaunchValueView)>>) -> Result<
    LaunchView,
    LaunchError,
> {
    match data {
        None => Err(LaunchError::MissingArguments),
        Some(members) => match member_text(members, "projectFolder"@) {
            None => Err(LaunchError::MissingProjectFolder),
            Some(project_folder) => {
                let generate_acir = match member_bool(members, "generateAcir"@) {
                    Some(b) => b,
                    None => false,
                };
                Ok(
                    LaunchView {
                        project_folder,
                        package: member_text(members, "package"@),
                        prover_name: match member_text(members, "proverName"@) {
                            Some(name) => name,
                            None => spec_prover_input_file(),
                        },
                        generate_acir,
                        skip_instrumentation: match member_bool(members, "skipInstrumentation"@) {
                            Some(b) => b,
                            None => generate_acir,
                        },
                        test_name: member_text(members, "testName"@),
                        oracle_resolver: member_text(members, "oracleResolver"@),
                    },
                )
            },
        },
    }
}

fn find_member<'a>(members: &'a Vec<(String, LaunchValue)>, name: &str) -> (found: Option<
    &'a LaunchValue,
>)
    ensures
        match found {
            Some(v) => member(members_view(members@), name@) == Some(v@),
            None => member(members_view(members@), name@).is_none(),
        },
{
    let wanted = name.to_owned();
    let ghost all = members_view(members@);
    let mut i: usize = 0;
    assert(all.skip(0) =~= all);
    while i < members.len()
        invariant
            0 <= i <= members.len(),
            all == members_view(members@),
            wanted@ == name@,
            member(all, name@) == member(all.skip(i as int), name@),
        decreases members.len() - i,
    {
        proof {
            assert(all.skip(i as int)[0] == all[i as int]);
            assert(all.skip(i as int).drop_first() =~= all.skip(i + 1));
        }
        if members[i].0 == wanted {
            return Some(&members[i].1);
        }
        i += 1;
    }
    None
}

fn text_member(members: &Vec<(String, LaunchValue)>, name: &str) -> (text: Option<String>)
    ensures
        text_view(text) == member_text(members_view(members@), name@),
{
    match find_member(members, name) {
        Some(LaunchValue::String(s)) => Some(s.clone()),
        _ => None,
    }
}

fn bool_member(members: &Vec<(String, LaunchValue)>, name: &str) -> (b: Option<bool>)
    ensures
        b == member_bool(members_view(members@), name@),
{
    match find_member(members, name) {
        Some(LaunchValue::Bool(b)) => Some(*b),
        _ => None,
    }
}

/// Reads the arguments of a launch from the members of its data; `None`
/// stands for data that are no object.
pub fn launch_arguments(data: Option<&Vec<(String, LaunchValue)>>) -> (result: Result<
    LaunchArguments,
    LaunchError,
>)
    ensures
        match (
            result,
            spec_launch_arguments(
                match data {
                    Some(members) => Some(members_view(members@)),
                    None => None,
                },
            ),
        ) {
            (Ok(arguments), Ok(expected)) => arguments@ == expected,
            (Err(e), Err(expected)) => e == expected,
            _ => false,
        },
{
    let members = match data {
        None => {
            return Err(LaunchError::MissingArguments);
        },
        Some(members) => members,
    };
    let project_folder = match text_member(members, "projectFolder") {
        None => {
            return Err(LaunchError::MissingProjectFolder);
        },
        Some(folder) => folder,
    };
    let generate_acir = match bool_member(members, "generateAcir") {
        Some(b) => b,
        None => false,
    };
    let prover_name = match text_member(members, "proverName") {
        Some(name) => name,
        None => "Prover".to_owned(),
    };
    let skip_instrumentation = match bool_member(members, "skipInstrumentation") {
        Some(b) => b,
        None => generate_acir,
    };
    Ok(
        LaunchArguments {
            project_folder,
            package: text_member(members, "package"),
            prover_name,
            generate_acir,
            skip_instrumentation,
            test_name: text_member(members, "testName"),
            oracle_resolver: text_member(members, "oracleResolver"),
        },
    )
}

/// What to tell where the program of a project cannot be loaded.
pub fn workspace_not_found_error_msg(project_folder: &str, package: Option<&str>) -> (message: String)
    ensures
        message@ == match package {
            Some(pkg) => "Noir Debugger could not load program from "@ + project_folder@
                + ", package "@ + pkg@,
            None => "Noir Debugger could not load program from "@ + project_folder@,
        },
{
    let mut message = "Noir Debugger could not load program from ".to_owned();
    push_str(&mut message, project_folder);
    match package {
        Some(pkg) => {
            push_str(&mut message, ", package ");
            push_str(&mut message, pkg);
        },
        None => {},
    }
    message
}

/// The width of the expressions that the backend takes.
#[derive(Clone, Copy, Debug, PartialEq, Eq, Structural)]
pub enum ExpressionWidth {
    Unbounded,
    Bounded { width: usize },
}

/// The width that a text names: a decimal number, with perhaps a plus sign
/// before it; zero stands for no bound.
pub open spec fn spec_expression_width(input: Seq<char>) -> Option<ExpressionWidth> {
    let digits = if input.len() > 0 && input[0] == '+' {
        input.drop_first()
    } else {
        input
    };
    match decimal_value(digits) {
        Some(n) => if n > usize::MAX {
            None
        } else if n == 0 {
            Some(ExpressionWidth::Unbounded)
        } else {
            Some(ExpressionWidth::Bounded { width: n as usize })
        },
        None => None,
    }
}

/// Reads the width of expressions from an argument of the command line.
pub fn parse_expression_width(input: &str) -> (width: Option<ExpressionWidth>)
    ensures
        width == spec_expression_width(input@),
{
    let chars = chars_of(input);
    let n = chars.len();
    let from: usize = if n > 0 && chars[0] == '+' {
        1
    } else {
        0
    };
    proof {
        if from == 1 {
            assert(chars@.drop_first() =~= chars@.subrange(1, n as int));
        } else {
            assert(chars@ =~= chars@.subrange(0, n as int));
        }
    }
    match parse_decimal(&chars, from, n, usize::MAX as u128) {
        Some(0) => Some(ExpressionWidth::Unbounded),
        Some(v) => Some(ExpressionWidth::Bounded { width: v as usize }),
        None => None,
    }
}

/// What the compiler is asked for when a program is compiled to be debugged.
#[derive(Clone, Copy, Debug, PartialEq, Eq, Structural)]
pub struct DebugCompileOptions {
    /// Whether the source is instrumented.
    pub instrument_debug: bool,
    /// Whether every function is compiled to bytecode.
    pub force_brillig: bool,
}

/// The options for a compilation to be debugged: instrumented unless that is
/// skipped, all in bytecode unless circuit opcodes are asked for.
pub fn compile_options_for_debugging(acir_mode: bool, skip_instrumentation: bool) -> (options:
    DebugCompileOptions)
    ensures
        options == (DebugCompileOptions {
            instrument_debug: !skip_instrumentation,
            force_brillig: !acir_mode,
        }),
{
    DebugCompileOptions { instrument_debug: !skip_instrumentation, force_brillig: !acir_mode }
}

/// Whether instrumentation is skipped: as asked, and where nothing is asked,
/// when circuit opcodes are asked for.
pub fn skips_instrumentation(acir_mode: bool, skip_instrumentation: Option<bool>) -> (skip: bool)
    ensures
        skip == match skip_instrumentation {
            Some(b) => b,
            None => acir_mode,
        },
{
    match skip_instrumentation {
        Some(b) => b,
        None => acir_mode,
    }
}

/// What the adapter can do, as it tells the editor.
#[derive(Clone, Copy, Debug, PartialEq, Eq, Structural)]
pub struct Capabilities {
    pub supports_disassemble_request: bool,
    pub supports_instruction_breakpoints: bool,
    pub supports_stepping_granularity: bool,
}

/// A request before the program is loaded.
#[derive(Debug, PartialEq, Eq)]
pub enum DapRequest {
    Initialize,
    /// A launch with its data; `None` where the data are no object.
    Launch(Option<Vec<(String, LaunchValue)>>),
    Disconnect,
    /// Any other request, by its name.
    Other(String),
}

/// What the adapter does with a request before the program is loaded.
#[derive(Debug, PartialEq, Eq)]
pub enum DapAction {
    /// Answer with what the adapter can do.
    Capabilities(Capabilities),
    /// Load and compile the project; on success acknowledge the request and
    /// run the session, on failure answer with the failure.
    Load(LaunchArguments),
    /// Answer with an error and go on.
    Refuse(String),
    /// Acknowledge the request and stop.
    Stop,
    /// Note that the request is not handled and go on.
    Unhandled(String),
}

/// The model of a [`DapAction`].
pub enum DapActionView {
    Capabilities(Capabilities),
    Load(LaunchView),
    Refuse(Seq<char>),
    Stop,
    Unhandled(Seq<char>),
}

impl View for DapAction {
    type V = DapActionView;

    open spec fn view(&self) -> DapActionView {
        match self {
            DapAction::Capabilities(c) => DapActionView::Capabilities(*c),
            DapAction::Load(a) => DapActionView::Load(a@),
            DapAction::Refuse(m) => DapActionView::Refuse(m@),
            DapAction::Stop => DapActionView::Stop,
            DapAction::Unhandled(m) => DapActionView::Unhandled(m@),
        }
    }
}

/// What the adapter does with a request before the program is loaded.
pub fn on_request(request: &DapRequest) -> (action: DapAction)
    ensures
        action@ == match request {
            DapRequest::Initialize => DapActionView::Capabilities(
                Capabilities {
                    supports_disassemble_request: true,
                    supports_instruction_breakpoints: true,
                    supports_stepping_granularity: true,
                },
            ),
            DapRequest::Launch(data) => match spec_launch_arguments(
                match data {
                    Some(members) => Some(members_view(members@)),
                    None => None,
                },
            ) {
                Ok(arguments) => DapActionView::Load(arguments),
                Err(LaunchError::MissingArguments) => DapActionView::Refuse(
                    "Missing launch arguments"@,
                ),
                Err(LaunchError::MissingProjectFolder) => DapActionView::Refuse(
                    "Missing project folder argument"@,
                ),
            },
            DapRequest::Disconnect => DapActionView::Stop,
            DapRequest::Other(name) => DapActionView::Unhandled(
                "ERROR: unhandled command: "@ + name@,
            ),
        },
{
    match request {
        DapRequest::Initialize => DapAction::Capabilities(
            Capabilities {
                supports_disassemble_request: true,
                supports_instruction_breakpoints: true,
                supports_stepping_granularity: true,
            },
        ),
        DapRequest::Launch(data) => {
            let arguments = match data {
                Some(members) => launch_arguments(Some(members)),
                None => launch_arguments(None),
            };
            match arguments {
                Ok(arguments) => DapAction::Load(arguments),
                Err(e) => DapAction::Refuse(e.message()),
            }
        },
        DapRequest::Disconnect => DapAction::Stop,
        DapRequest::Other(name) => {
            let mut line = "ERROR: unhandled command: ".to_owned();
            push_str(&mut line, name.as_str());
            DapAction::Unhandled(line)
        },
    }
}

/// The project folder of a check before the session, or the message for the
/// editor where none was given.
pub fn preflight_project_folder(folder: Option<String>) -> (result: Result<String, String>)
    ensures
        match (result, folder) {
            (Ok(f), Some(given)) => f == given,
            (Err(message), None) => message@
                == "Noir Debugger could not initialize because the IDE (for example, VS Code) did not specify a project folder to debug."@,
            _ => false,
        },
{
    match folder {
        Some(f) => Ok(f),
        None => Err(
            "Noir Debugger could not initialize because the IDE (for example, VS Code) did not specify a project folder to debug.".to_owned(),
        ),
    }
}

} // verus!
