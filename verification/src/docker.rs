//! The `docker` capability: the containers that run on the host.

use vstd::prelude::*;
use vstd::string::*;
use crate::json::{json_document, parse_json, read_text, text_member, Json, JsonRecord};
use crate::outcome::{
    command_output, field_outcome, outcome_of, parsed_view, CommandLine, CommandLineView,
    Execution, FieldOutcome, ParseError, ParseErrorView,
};
use crate::text::{lines, lines_of};

verus! {

/// The adapter of the `docker` capability.
#[derive(Clone, Copy, Debug, PartialEq, Eq)]
pub struct Docker;

/// One container, as `docker ps` describes it.
#[derive(Clone, Debug, PartialEq, Eq)]
pub struct DockerProcess {
    pub command: String,
    pub created_at: String,
    pub image: String,
    pub names: String,
    pub running_for: String,
    pub state: String,
    pub status: String,
}

/// A [`DockerProcess`] as a plain value.
pub struct DockerProcessView {
    pub command: Seq<char>,
    pub created_at: Seq<char>,
    pub image: Seq<char>,
    pub names: Seq<char>,
    pub running_for: Seq<char>,
    pub state: Seq<char>,
    pub status: Seq<char>,
}

impl DeepView for DockerProcess {
    type V = DockerProcessView;

    open spec fn deep_view(&self) -> DockerProcessView {
        DockerProcessView {
            command: self.command@,
            created_at: self.created_at@,
            image: self.image@,
            names: self.names@,
            running_for: self.running_for@,
            state: self.state@,
            status: self.status@,
        }
    }
}

impl JsonRecord for DockerProcess {
    /// A container is an object with the seven members `Command`,
    /// `CreatedAt`, `Image`, `Names`, `RunningFor`, `State` and `Status`,
    /// each a string. Other members are passed over.
    open spec fn shape(json: Json) -> Option<DockerProcessView> {
        let command = text_member(json, "Command"@);
        let created_at = text_member(json, "CreatedAt"@);
        let image = text_member(json, "Image"@);
        let names = text_member(json, "Names"@);
        let running_for = text_member(json, "RunningFor"@);
        let state = text_member(json, "State"@);
        let status = text_member(json, "Status"@);
        if command is Some && created_at is Some && image is Some && names is Some
            && running_for is Some && state is Some && status is Some {
            Some(
                DockerProcessView {
                    command: command->0,
                    created_at: created_at->0,
                    image: image->0,
                    names: names->0,
                    running_for: running_for->0,
                    state: state->0,
                    status: status->0,
                },
            )
        } else {
            None
        }
    }

    fn read(value: &serde_json::Value) -> (record: Option<DockerProcess>) {
        let command = read_text(value, "Command")?;
        let created_at = read_text(value, "CreatedAt")?;
        let image = read_text(value, "Image")?;
        let names = read_text(value, "Names")?;
        let running_for = read_text(value, "RunningFor")?;
        let state = read_text(value, "State")?;
        let status = read_text(value, "Status")?;
        Some(DockerProcess { command, created_at, image, names, running_for, state, status })
    }
}

/// The containers that `lines` describe, one JSON object to a line, in the
/// order of the lines. Empty lines are passed over. The first line that is
/// not JSON, or not a container, makes the whole an error, which names the
/// line by its index.
pub open spec fn process_lines(lines: Seq<Seq<char>>) -> Result<
    Seq<DockerProcessView>,
    ParseErrorView,
>
    decreases lines.len(),
{
    if lines.len() == 0 {
        Ok(Seq::empty())
    } else {
        match process_lines(lines.drop_last()) {
            Err(error) => Err(error),
            Ok(records) => {
                let line = lines.last();
                let at = (lines.len() - 1) as usize;
                if line.len() == 0 {
                    Ok(records)
                } else {
                    match json_document(line) {
                        Err(reason) => Err(ParseErrorView::Json { line: at, reason }),
                        Ok(json) => match DockerProcess::shape(json) {
                            Some(record) => Ok(records.push(record)),
                            None => Err(ParseErrorView::Record { index: at }),
                        },
                    }
                }
            },
        }
    }
}

/// The containers that the output of `docker ps` describes.
pub open spec fn process_list(output: Seq<char>) -> Result<Seq<DockerProcessView>, ParseErrorView> {
    process_lines(lines(output))
}

/// An error among the first `upto` lines is the error of them all.
pub proof fn lemma_process_lines_error_stays(lines: Seq<Seq<char>>, upto: int)
    requires
        0 <= upto <= lines.len(),
        process_lines(lines.take(upto)) is Err,
    ensures
        process_lines(lines) == process_lines(lines.take(upto)),
    decreases lines.len() - upto,
{
    if upto == lines.len() {
        assert(lines.take(upto) =~= lines);
    } else {
        assert(lines.take(upto + 1).drop_last() =~= lines.take(upto));
        lemma_process_lines_error_stays(lines, upto + 1);
    }
}

impl Docker {
    /// The command that lists the containers: `docker ps`, one JSON object
    /// to a line.
    pub fn ps_command(&self) -> (command: CommandLine)
        ensures
            command.deep_view() == (CommandLineView {
                program: "docker"@,
                args: seq!["ps"@, "--format"@, "{{json .}}"@],
            }),
    {
        let mut args: Vec<String> = Vec::new();
        args.push(String::from_str("ps"));
        args.push(String::from_str("--format"));
        args.push(String::from_str("{{json .}}"));
        assert(args.deep_view() =~= seq!["ps"@, "--format"@, "{{json .}}"@]);
        CommandLine { program: String::from_str("docker"), args }
    }

    /// Reads the output of `docker ps`. See [`process_list`].
    pub fn parse_ps(&self, output: &str) -> (records: Result<Vec<DockerProcess>, ParseError>)
        ensures
            parsed_view(records) == process_list(output@),
    {
        let all = lines_of(output);
        let ghost texts = lines(output@);
        let mut list: Vec<DockerProcess> = Vec::new();
        let mut i: usize = 0;
        assert(texts.take(0) =~= Seq::<Seq<char>>::empty());
        assert(list.deep_view() =~= Seq::<DockerProcessView>::empty());
        while i < all.len()
            invariant
                i <= all.len(),
                texts == lines(output@),
                all.deep_view() == texts,
                process_lines(texts.take(i as int)) == Ok::<Seq<DockerProcessView>, ParseErrorView>(
                    list.deep_view(),
                ),
            decreases all.len() - i,
        {
            proof {
                assert(texts.take(i + 1).drop_last() =~= texts.take(i as int));
                assert(texts.take(i + 1).last() == texts[i as int]);
                assert(all.deep_view()[i as int] == all@[i as int]@);
            }
            let line = all[i].as_str();
            if !line.is_empty() {
                match parse_json(line) {
                    Err(reason) => {
                        proof {
                            lemma_process_lines_error_stays(texts, i + 1);
                        }
                        return Err(ParseError::Json { line: i, reason });
                    },
                    Ok(value) => match DockerProcess::read(&value) {
                        None => {
                            proof {
                                lemma_process_lines_error_stays(texts, i + 1);
                            }
                            return Err(ParseError::Record { index: i });
                        },
                        Some(record) => {
                            let ghost before = list.deep_view();
                            let ghost added = record.deep_view();
                            list.push(record);
                            assert(list.deep_view() =~= before.push(added));
                        },
                    },
                }
            }
            i += 1;
        }
        assert(texts.take(i as int) =~= texts);
        Ok(list)
    }

    /// The outcome of the field `ps` for a run of [`Docker::ps_command`].
    pub fn ps(&self, execution: Execution) -> (outcome: FieldOutcome<Vec<DockerProcess>>)
        ensures
            outcome.deep_view() == field_outcome(
                execution.deep_view(),
                |output: Seq<char>| process_list(output),
            ),
    {
        match command_output(execution) {
            Err(error) => FieldOutcome::Error(error),
            Ok(output) => outcome_of(self.parse_ps(output.as_str())),
        }
    }
}

/// Whether `line` is passed over or describes a container.
pub open spec fn line_is_good(line: Seq<char>) -> bool {
    line.len() == 0 || (json_document(line) matches Ok(json) && DockerProcess::shape(json) is Some)
}

/// One bad line fails the whole: where a line that is not empty is not
/// JSON, or not a container, no container is handed out.
pub proof fn law_bad_line_fails_the_list(lines: Seq<Seq<char>>, index: int)
    requires
        0 <= index < lines.len(),
        !line_is_good(lines[index]),
    ensures
        process_lines(lines) is Err,
    decreases lines.len(),
{
    if index < lines.len() - 1 {
        assert(lines.drop_last()[index] == lines[index]);
        law_bad_line_fails_the_list(lines.drop_last(), index);
    }
}

/// Where every line is good, the containers come out, at most one to a
/// line.
pub proof fn law_good_lines_give_the_list(lines: Seq<Seq<char>>)
    requires
        forall|i: int| 0 <= i < lines.len() ==> line_is_good(#[trigger] lines[i]),
    ensures
        process_lines(lines) is Ok,
        process_lines(lines)->Ok_0.len() <= lines.len(),
    decreases lines.len(),
{
    if lines.len() > 0 {
        assert forall|i: int| 0 <= i < lines.drop_last().len() implies line_is_good(
            #[trigger] lines.drop_last()[i],
        ) by {
            assert(lines.drop_last()[i] == lines[i]);
        }
        law_good_lines_give_the_list(lines.drop_last());
        assert(line_is_good(lines[lines.len() - 1]));
    }
}

/// Where no line is empty and every line describes a container, there is
/// one container to each line, in the order of the lines.
pub proof fn law_containers_keep_the_order_of_the_lines(lines: Seq<Seq<char>>)
    requires
        forall|i: int|
            0 <= i < lines.len() ==> (#[trigger] lines[i]).len() > 0 && line_is_good(lines[i]),
    ensures
        process_lines(lines) is Ok,
        process_lines(lines)->Ok_0.len() == lines.len(),
        forall|i: int|
            0 <= i < lines.len() ==> Some(#[trigger] process_lines(lines)->Ok_0[i])
                == DockerProcess::shape(json_document(lines[i])->Ok_0),
    decreases lines.len(),
{
    if lines.len() > 0 {
        let before = lines.drop_last();
        assert forall|i: int| 0 <= i < before.len() implies (#[trigger] before[i]).len() > 0
            && line_is_good(before[i]) by {
            assert(before[i] == lines[i]);
        }
        law_containers_keep_the_order_of_the_lines(before);
        let last = lines[lines.len() - 1];
        assert(last.len() > 0 && line_is_good(last));
        let records = process_lines(lines)->Ok_0;
        assert forall|i: int| 0 <= i < lines.len() implies Some(#[trigger] records[i])
            == DockerProcess::shape(json_document(lines[i])->Ok_0) by {
            if i < before.len() {
                assert(before[i] == lines[i]);
                assert(records[i] == process_lines(before)->Ok_0[i]);
            }
        }
    }
}

} // verus!
