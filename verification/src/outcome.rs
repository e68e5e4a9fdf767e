//! What a command gives back, and what a field makes of it.
//!
//! A field is answered by running one command. The run either could not be
//! started, or it ended with an exit status and two captured streams. A
//! failure stays with its field: it becomes the field's outcome, next to the
//! values of the fields that succeeded.

use vstd::prelude::*;
use vstd::utf8::{decode_utf8, encode_utf8_decode_utf8, valid_utf8};
use vstd::string::StringSliceAdditionalSpecFns;

verus! {

/// A program and the arguments it is run with.
#[derive(Clone, Debug, PartialEq, Eq)]
pub struct CommandLine {
    pub program: String,
    pub args: Vec<String>,
}

/// A [`CommandLine`] as a plain value.
pub struct CommandLineView {
    pub program: Seq<char>,
    pub args: Seq<Seq<char>>,
}

impl DeepView for CommandLine {
    type V = CommandLineView;

    open spec fn deep_view(&self) -> CommandLineView {
        CommandLineView { program: self.program@, args: self.args.deep_view() }
    }
}

/// How a command ended: its exit code, none where a signal ended it, and
/// what it wrote to its two streams.
#[derive(Clone, Debug, PartialEq, Eq)]
pub struct CommandResult {
    pub exit_code: Option<i32>,
    pub stdout: Vec<u8>,
    pub stderr: Vec<u8>,
}

/// A [`CommandResult`] as a plain value.
pub struct CommandResultView {
    pub exit_code: Option<i32>,
    pub stdout: Seq<u8>,
    pub stderr: Seq<u8>,
}

impl CommandResultView {
    /// Whether the command ended with exit code 0.
    pub open spec fn success(self) -> bool {
        self.exit_code == Some(0i32)
    }
}

impl DeepView for CommandResult {
    type V = CommandResultView;

    open spec fn deep_view(&self) -> CommandResultView {
        CommandResultView { exit_code: self.exit_code, stdout: self.stdout@, stderr: self.stderr@ }
    }
}

/// What came of the attempt to run a command.
#[derive(Clone, Debug, PartialEq, Eq)]
pub enum Execution {
    /// The command ran to its end.
    Completed(CommandResult),
    /// The command could not be started; the text says why.
    SpawnFailed(String),
}

/// An [`Execution`] as a plain value.
pub enum ExecutionView {
    Completed(CommandResultView),
    SpawnFailed(Seq<char>),
}

impl DeepView for Execution {
    type V = ExecutionView;

    open spec fn deep_view(&self) -> ExecutionView {
        match self {
            Execution::Completed(result) => ExecutionView::Completed(result.deep_view()),
            Execution::SpawnFailed(reason) => ExecutionView::SpawnFailed(reason@),
        }
    }
}

/// Why the output of a command could not be read as records.
#[derive(Clone, Debug, PartialEq, Eq)]
pub enum ParseError {
    /// The output is not UTF-8.
    Encoding,
    /// The line of this index has `found` fields where a row has six.
    FieldCount { line: usize, found: usize },
    /// The use-percent field in the line of this index is no percentage.
    Percent { line: usize },
    /// The line of this index is not JSON; `reason` is what the JSON parser
    /// says. A document that is read as a whole is line 0.
    Json { line: usize, reason: String },
    /// The document is JSON but not a list.
    NotAList,
    /// The item of this index, a line or a member of the list, is JSON
    /// but not a record of the expected shape.
    Record { index: usize },
}

/// A [`ParseError`] as a plain value.
pub enum ParseErrorView {
    Encoding,
    FieldCount { line: usize, found: usize },
    Percent { line: usize },
    Json { line: usize, reason: Seq<char> },
    NotAList,
    Record { index: usize },
}

impl DeepView for ParseError {
    type V = ParseErrorView;

    open spec fn deep_view(&self) -> ParseErrorView {
        match self {
            ParseError::Encoding => ParseErrorView::Encoding,
            ParseError::FieldCount { line, found } => ParseErrorView::FieldCount {
                line: *line,
                found: *found,
            },
            ParseError::Percent { line } => ParseErrorView::Percent { line: *line },
            ParseError::Json { line, reason } => ParseErrorView::Json {
                line: *line,
                reason: reason@,
            },
            ParseError::NotAList => ParseErrorView::NotAList,
            ParseError::Record { index } => ParseErrorView::Record { index: *index },
        }
    }
}

/// Why a field has no value.
#[derive(Clone, Debug, PartialEq, Eq)]
pub enum FieldError {
    /// The command could not be started.
    Spawn(String),
    /// The command ended with a status other than 0; the text is what it
    /// wrote to its error stream.
    Exit(String),
    /// The command succeeded, but its output could not be read.
    Output(ParseError),
}

/// A [`FieldError`] as a plain value.
pub enum FieldErrorView {
    Spawn(Seq<char>),
    Exit(Seq<char>),
    Output(ParseErrorView),
}

impl DeepView for FieldError {
    type V = FieldErrorView;

    open spec fn deep_view(&self) -> FieldErrorView {
        match self {
            FieldError::Spawn(reason) => FieldErrorView::Spawn(reason@),
            FieldError::Exit(stderr) => FieldErrorView::Exit(stderr@),
            FieldError::Output(error) => FieldErrorView::Output(error.deep_view()),
        }
    }
}

/// The outcome of one field: its value, or the error that stands in its
/// place.
#[derive(Clone, Debug, PartialEq, Eq)]
pub enum FieldOutcome<T> {
    Value(T),
    Error(FieldError),
}

impl<T: DeepView> DeepView for FieldOutcome<T> {
    type V = Result<T::V, FieldErrorView>;

    open spec fn deep_view(&self) -> Result<T::V, FieldErrorView> {
        match self {
            FieldOutcome::Value(value) => Ok(value.deep_view()),
            FieldOutcome::Error(error) => Err(error.deep_view()),
        }
    }
}

impl<T> FieldOutcome<T> {
    /// Whether the field has a value.
    pub fn is_value(&self) -> (yes: bool)
        ensures
            yes == (self is Value),
    {
        match self {
            FieldOutcome::Value(_) => true,
            FieldOutcome::Error(_) => false,
        }
    }

    /// Whether an error stands in place of the value.
    pub fn is_error(&self) -> (yes: bool)
        ensures
            yes == (self is Error),
    {
        match self {
            FieldOutcome::Value(_) => false,
            FieldOutcome::Error(_) => true,
        }
    }
}

/// `core::str::Utf8Error`, the error of `core::str::from_utf8`, is carried
/// through as it is and never looked into.
#[verifier::external_type_specification]
#[verifier::external_body]
pub struct ExUtf8Error(core::str::Utf8Error);

/// `core::str::from_utf8` succeeds on exactly the byte sequences that are
/// UTF-8, and the string it then gives has those bytes.
pub assume_specification[ core::str::from_utf8 ](v: &[u8]) -> (r: Result<
    &str,
    core::str::Utf8Error,
>)
    ensures
        r is Ok <==> valid_utf8(v@),
        r matches Ok(s) ==> s.spec_bytes() == v@,
;

/// The text that `bytes` encode in UTF-8, none where they encode none.
pub open spec fn decoded(bytes: Seq<u8>) -> Option<Seq<char>> {
    if valid_utf8(bytes) {
        Some(decode_utf8(bytes))
    } else {
        None
    }
}

/// Decodes `bytes` as UTF-8.
pub fn decode(bytes: &[u8]) -> (text: Option<String>)
    ensures
        text.deep_view() == decoded(bytes@),
{
    match core::str::from_utf8(bytes) {
        Ok(s) => {
            proof {
                encode_utf8_decode_utf8(s@);
            }
            Some(s.to_owned())
        },
        Err(_) => None,
    }
}

/// The text that a field reads its records from, or the error that the
/// field ends with before it reads anything:
/// - the command could not be started: the spawn error;
/// - it ended with a status other than 0: its error stream as text;
/// - it ended with status 0: its output as text.
/// A stream that is not UTF-8 gives an encoding error in place of its text.
pub open spec fn output_text(execution: ExecutionView) -> Result<Seq<char>, FieldErrorView> {
    match execution {
        ExecutionView::SpawnFailed(reason) => Err(FieldErrorView::Spawn(reason)),
        ExecutionView::Completed(result) => if result.success() {
            match decoded(result.stdout) {
                Some(text) => Ok(text),
                None => Err(FieldErrorView::Output(ParseErrorView::Encoding)),
            }
        } else {
            match decoded(result.stderr) {
                Some(text) => Err(FieldErrorView::Exit(text)),
                None => Err(FieldErrorView::Output(ParseErrorView::Encoding)),
            }
        },
    }
}

/// The outcome of a field whose records are read by `parse`.
pub open spec fn field_outcome<V>(
    execution: ExecutionView,
    parse: spec_fn(Seq<char>) -> Result<V, ParseErrorView>,
) -> Result<V, FieldErrorView> {
    match output_text(execution) {
        Err(error) => Err(error),
        Ok(text) => match parse(text) {
            Ok(value) => Ok(value),
            Err(error) => Err(FieldErrorView::Output(error)),
        },
    }
}

/// What `parse` makes of the text of a field.
pub open spec fn parsed_view<T: DeepView>(parsed: Result<T, ParseError>) -> Result<
    T::V,
    ParseErrorView,
> {
    match parsed {
        Ok(value) => Ok(value.deep_view()),
        Err(error) => Err(error.deep_view()),
    }
}

/// The outcome of a field whose text was read with this result.
pub fn outcome_of<T: DeepView>(parsed: Result<T, ParseError>) -> (outcome: FieldOutcome<T>)
    ensures
        outcome.deep_view() == match parsed_view(parsed) {
            Ok(value) => Ok::<T::V, FieldErrorView>(value),
            Err(error) => Err::<T::V, FieldErrorView>(FieldErrorView::Output(error)),
        },
{
    match parsed {
        Ok(value) => FieldOutcome::Value(value),
        Err(error) => FieldOutcome::Error(FieldError::Output(error)),
    }
}

/// Computes [`output_text`].
pub fn command_output(execution: Execution) -> (text: Result<String, FieldError>)
    ensures
        match text {
            Ok(t) => output_text(execution.deep_view()) == Ok::<Seq<char>, FieldErrorView>(t@),
            Err(e) => output_text(execution.deep_view()) == Err::<Seq<char>, FieldErrorView>(
                e.deep_view(),
            ),
        },
{
    match execution {
        Execution::SpawnFailed(reason) => Err(FieldError::Spawn(reason)),
        Execution::Completed(result) => {
            let success = match result.exit_code {
                Some(code) => code == 0,
                None => false,
            };
            if success {
                match decode(result.stdout.as_slice()) {
                    Some(text) => Ok(text),
                    None => Err(FieldError::Output(ParseError::Encoding)),
                }
            } else {
                match decode(result.stderr.as_slice()) {
                    Some(text) => Err(FieldError::Exit(text)),
                    None => Err(FieldError::Output(ParseError::Encoding)),
                }
            }
        },
    }
}

} // verus!
