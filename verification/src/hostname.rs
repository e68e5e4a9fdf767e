//! The `hostname` capability: the name of the host.

use vstd::prelude::*;
use vstd::string::*;
use crate::outcome::{
    command_output, output_text, CommandLine, CommandLineView, Execution, ExecutionView,
    FieldErrorView, FieldOutcome,
};
use crate::text::{trim, trimmed};

verus! {

/// The adapter of the `hostname` capability.
#[derive(Clone, Copy, Debug, PartialEq, Eq)]
pub struct Hostname;

/// Which name is asked for: the short one, up to the first dot, or the long
/// one, the fully qualified name.
#[derive(Clone, Copy, Debug, PartialEq, Eq, Structural)]
pub enum HostnameFlag {
    Short,
    Long,
}

impl Default for HostnameFlag {
    /// The long name is the default.
    fn default() -> (flag: HostnameFlag)
        ensures
            flag == HostnameFlag::Long,
    {
        HostnameFlag::Long
    }
}

impl HostnameFlag {
    /// The argument that asks `hostname` for this name.
    pub open spec fn argument(self) -> Seq<char> {
        match self {
            HostnameFlag::Short => "--short"@,
            HostnameFlag::Long => "--long"@,
        }
    }
}

/// The name of a host.
#[derive(Clone, Debug, PartialEq, Eq)]
pub struct HostnameResult {
    pub name: String,
}

impl DeepView for HostnameResult {
    type V = Seq<char>;

    /// The result is the name.
    open spec fn deep_view(&self) -> Seq<char> {
        self.name@
    }
}

/// The outcome of the field `name`: the output of the command without the
/// whitespace around it, where the command gave output to read.
pub open spec fn name_outcome(execution: ExecutionView) -> Result<
    Seq<char>,
    FieldErrorView,
> {
    match output_text(execution) {
        Ok(output) => Ok(trim(output)),
        Err(error) => Err(error),
    }
}

impl Hostname {
    /// The command that prints the name: `hostname --short` or
    /// `hostname --long`.
    pub fn name_command(&self, flag: HostnameFlag) -> (command: CommandLine)
        ensures
            command.deep_view() == (CommandLineView {
                program: "hostname"@,
                args: seq![flag.argument()],
            }),
    {
        let mut args: Vec<String> = Vec::new();
        match flag {
            HostnameFlag::Short => args.push(String::from_str("--short")),
            HostnameFlag::Long => args.push(String::from_str("--long")),
        }
        assert(args.deep_view() =~= seq![flag.argument()]);
        CommandLine { program: String::from_str("hostname"), args }
    }

    /// Reads the output of `hostname`: all of it, without the whitespace
    /// around it.
    pub fn parse_name(&self, output: &str) -> (result: HostnameResult)
        ensures
            result.name@ == trim(output@),
    {
        HostnameResult { name: trimmed(output) }
    }

    /// The outcome of the field `name` for a run of
    /// [`Hostname::name_command`].
    pub fn name(&self, execution: Execution) -> (outcome: FieldOutcome<HostnameResult>)
        ensures
            outcome.deep_view() == name_outcome(execution.deep_view()),
    {
        match command_output(execution) {
            Err(error) => FieldOutcome::Error(error),
            Ok(output) => FieldOutcome::Value(self.parse_name(output.as_str())),
        }
    }
}

} // verus!
