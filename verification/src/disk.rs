//! The `disk` capability: how full the file systems of the host are.
//!
//! The records are read from the table that `df -h` prints: a header line,
//! then one row to a file system, six fields to a row, the fields set apart
//! by whitespace.

use vstd::prelude::*;
use vstd::string::*;
use crate::outcome::{
    command_output, field_outcome, outcome_of, parsed_view, CommandLine, CommandLineView,
    Execution, FieldOutcome, ParseError, ParseErrorView,
};
use crate::text::{chars_of, lines, lines_of, split_whitespace, words_of};

verus! {

/// The adapter of the `disk` capability.
#[derive(Clone, Copy, Debug, PartialEq, Eq)]
pub struct Disk;

/// One row of the table: a file system and how much of it is in use.
/// `use_percent` is from 0 to 100.
#[derive(Clone, Debug, PartialEq, Eq)]
pub struct DiskUsage {
    pub file_system: String,
    pub size: String,
    pub used: String,
    pub available: String,
    pub use_percent: u8,
    pub mount_point: String,
}

/// A [`DiskUsage`] as a plain value.
pub struct DiskUsageView {
    pub file_system: Seq<char>,
    pub size: Seq<char>,
    pub used: Seq<char>,
    pub available: Seq<char>,
    pub use_percent: u8,
    pub mount_point: Seq<char>,
}

impl DeepView for DiskUsage {
    type V = DiskUsageView;

    open spec fn deep_view(&self) -> DiskUsageView {
        DiskUsageView {
            file_system: self.file_system@,
            size: self.size@,
            used: self.used@,
            available: self.available@,
            use_percent: self.use_percent,
            mount_point: self.mount_point@,
        }
    }
}

/// Why a line is no row of the table.
#[derive(Clone, Copy, Debug, PartialEq, Eq, Structural)]
pub enum RowError {
    /// The line has `found` fields, not six.
    FieldCount { found: usize },
    /// The fifth field is no percentage.
    Percent,
}

impl RowError {
    /// The error of the output in which the line of index `line` has this
    /// error.
    pub open spec fn at_line(self, line: usize) -> ParseErrorView {
        match self {
            RowError::FieldCount { found } => ParseErrorView::FieldCount { line, found },
            RowError::Percent => ParseErrorView::Percent { line },
        }
    }

    /// Computes [`RowError::at_line`].
    pub fn in_line(self, line: usize) -> (error: ParseError)
        ensures
            error.deep_view() == self.at_line(line),
    {
        match self {
            RowError::FieldCount { found } => ParseError::FieldCount { line, found },
            RowError::Percent => ParseError::Percent { line },
        }
    }
}

/// Whether `c` is one of the digits `0` to `9`.
pub open spec fn is_digit(c: char) -> bool {
    0x30 <= c as u32 <= 0x39
}

/// Whether `s` holds digits only.
pub open spec fn all_digits(s: Seq<char>) -> bool {
    forall|i: int| 0 <= i < s.len() ==> is_digit(#[trigger] s[i])
}

/// The number that the digits `s` write in base ten.
pub open spec fn decimal_value(s: Seq<char>) -> nat
    decreases s.len(),
{
    if s.len() == 0 {
        0
    } else {
        (decimal_value(s.drop_last()) * 10 + (s.last() as u32 - 0x30)) as nat
    }
}

/// The position just after the last character before `to` that is no
/// percent sign; 0 where only percent signs precede `to`.
pub open spec fn percent_start(s: Seq<char>, to: int) -> int
    decreases to,
{
    if 0 < to <= s.len() && s[to - 1] == '%' {
        percent_start(s, to - 1)
    } else {
        to
    }
}

/// The digits of a number text: the text itself, or what follows its plus
/// sign.
pub open spec fn number_digits(s: Seq<char>) -> Seq<char> {
    if s.len() > 0 && s[0] == '+' {
        s.drop_first()
    } else {
        s
    }
}

/// The percentage that `field` writes: `field` ends in a percent sign, and
/// what stands before its percent signs is a number from 0 to 100, written
/// in digits, with or without a plus sign before them.
pub open spec fn percent_value(field: Seq<char>) -> Option<u8> {
    let end = percent_start(field, field.len() as int);
    let digits = number_digits(field.take(end));
    if end < field.len() && digits.len() > 0 && all_digits(digits) && decimal_value(digits) <= 100 {
        Some(decimal_value(digits) as u8)
    } else {
        None
    }
}

/// The number of the first digits of a digit text is at most the number of
/// them all.
pub proof fn lemma_decimal_value_grows(s: Seq<char>, upto: int)
    requires
        all_digits(s),
        0 <= upto <= s.len(),
    ensures
        decimal_value(s.take(upto)) <= decimal_value(s),
    decreases s.len() - upto,
{
    if upto == s.len() {
        assert(s.take(upto) =~= s);
    } else {
        assert(s.take(upto + 1).drop_last() =~= s.take(upto));
        assert(is_digit(s[upto]));
        assert(s.take(upto + 1).last() == s[upto]);
        lemma_decimal_value_grows(s, upto + 1);
    }
}

/// Computes [`percent_value`].
pub fn parse_percent(field: &Vec<char>) -> (percent: Option<u8>)
    ensures
        percent == percent_value(field@),
{
    let mut end: usize = field.len();
    while end > 0 && field[end - 1] == '%'
        invariant
            end <= field.len(),
            percent_start(field@, field.len() as int) == percent_start(field@, end as int),
        decreases end,
    {
        end -= 1;
    }
    if end == field.len() {
        return None;
    }
    let start: usize = if end > 0 && field[0] == '+' {
        1
    } else {
        0
    };
    let ghost digits = number_digits(field@.take(end as int));
    assert(digits =~= field@.subrange(start as int, end as int));
    if start == end {
        return None;
    }
    let mut value: u32 = 0;
    let mut i: usize = start;
    assert(digits.take(0) =~= Seq::<char>::empty());
    while i < end
        invariant
            start <= i <= end < field.len(),
            start < end,
            end == percent_start(field@, field.len() as int),
            digits == number_digits(field@.take(end as int)),
            digits == field@.subrange(start as int, end as int),
            all_digits(digits.take(i - start)),
            value == decimal_value(digits.take(i - start)),
            value <= 100,
        decreases end - i,
    {
        let u: u32 = field[i] as u32;
        proof {
            assert(digits.take(i + 1 - start).drop_last() =~= digits.take(i - start));
            assert(digits.take(i + 1 - start).last() == field@[i as int]);
            assert(digits[i - start] == field@[i as int]);
        }
        if u < 0x30 || u > 0x39 {
            assert(!is_digit(digits[i - start]));
            return None;
        }
        let next: u32 = value * 10 + (u - 0x30);
        proof {
            assert forall|k: int| 0 <= k < i + 1 - start implies is_digit(
                #[trigger] digits.take(i + 1 - start)[k],
            ) by {
                if k < i - start {
                    assert(digits.take(i - start)[k] == digits[k]);
                }
            }
        }
        if next > 100 {
            proof {
                if all_digits(digits) {
                    lemma_decimal_value_grows(digits, i + 1 - start);
                }
            }
            return None;
        }
        value = next;
        i += 1;
    }
    assert(digits.take(i - start) =~= digits);
    Some(value as u8)
}

/// The row that `line` writes: its six fields are the file system, the
/// size, what is used, what is available, the percentage in use, and the
/// mount point.
pub open spec fn usage_row(line: Seq<char>) -> Result<DiskUsageView, RowError> {
    let fields = split_whitespace(line);
    if fields.len() != 6 {
        Err(RowError::FieldCount { found: fields.len() as usize })
    } else {
        match percent_value(fields[4]) {
            None => Err(RowError::Percent),
            Some(use_percent) => Ok(
                DiskUsageView {
                    file_system: fields[0],
                    size: fields[1],
                    used: fields[2],
                    available: fields[3],
                    use_percent,
                    mount_point: fields[5],
                },
            ),
        }
    }
}

/// The rows that `lines` write, the first line, the header, left out. The
/// first line that is no row makes the whole an error, which names the line
/// by its index.
pub open spec fn usage_rows(lines: Seq<Seq<char>>) -> Result<Seq<DiskUsageView>, ParseErrorView>
    decreases lines.len(),
{
    if lines.len() <= 1 {
        Ok(Seq::empty())
    } else {
        match usage_rows(lines.drop_last()) {
            Err(error) => Err(error),
            Ok(rows) => match usage_row(lines.last()) {
                Ok(row) => Ok(rows.push(row)),
                Err(error) => Err(error.at_line((lines.len() - 1) as usize)),
            },
        }
    }
}

/// The rows of the table that `output` holds.
pub open spec fn usage_table(output: Seq<char>) -> Result<Seq<DiskUsageView>, ParseErrorView> {
    usage_rows(lines(output))
}

/// An error among the first `upto` lines is the error of them all.
pub proof fn lemma_usage_rows_error_stays(lines: Seq<Seq<char>>, upto: int)
    requires
        0 <= upto <= lines.len(),
        usage_rows(lines.take(upto)) is Err,
    ensures
        usage_rows(lines) == usage_rows(lines.take(upto)),
    decreases lines.len() - upto,
{
    if upto == lines.len() {
        assert(lines.take(upto) =~= lines);
    } else {
        assert(lines.take(upto + 1).drop_last() =~= lines.take(upto));
        lemma_usage_rows_error_stays(lines, upto + 1);
    }
}

/// What reading one row gave, as a plain value.
pub open spec fn row_view(row: Result<DiskUsage, RowError>) -> Result<DiskUsageView, RowError> {
    match row {
        Ok(usage) => Ok(usage.deep_view()),
        Err(error) => Err(error),
    }
}

impl DiskUsage {
    /// Reads one row of the table. See [`usage_row`].
    pub fn from_str(s: &str) -> (row: Result<DiskUsage, RowError>)
        ensures
            row_view(row) == usage_row(s@),
    {
        let fields = words_of(s);
        if fields.len() != 6 {
            return Err(RowError::FieldCount { found: fields.len() });
        }
        assert forall|k: int| 0 <= k < 6 implies (#[trigger] fields@[k])@ == split_whitespace(
            s@,
        )[k] by {
            assert(fields.deep_view()[k] == fields@[k]@);
        }
        let percent_chars = chars_of(fields[4].as_str());
        let use_percent = match parse_percent(&percent_chars) {
            Some(percent) => percent,
            None => {
                return Err(RowError::Percent);
            },
        };
        Ok(
            DiskUsage {
                file_system: fields[0].clone(),
                size: fields[1].clone(),
                used: fields[2].clone(),
                available: fields[3].clone(),
                use_percent,
                mount_point: fields[5].clone(),
            },
        )
    }
}

/// Reads the table that `df -h` prints. See [`usage_table`].
pub fn parse_disk_usage(input: String) -> (rows: Result<Vec<DiskUsage>, ParseError>)
    ensures
        parsed_view(rows) == usage_table(input@),
{
    let all = lines_of(input.as_str());
    let ghost texts = lines(input@);
    let mut list: Vec<DiskUsage> = Vec::new();
    assert(list.deep_view() =~= Seq::<DiskUsageView>::empty());
    if all.len() <= 1 {
        return Ok(list);
    }
    let mut i: usize = 1;
    assert(texts.take(1).len() == 1);
    while i < all.len()
        invariant
            1 <= i <= all.len(),
            texts == lines(input@),
            all.deep_view() == texts,
            usage_rows(texts.take(i as int)) == Ok::<Seq<DiskUsageView>, ParseErrorView>(
                list.deep_view(),
            ),
        decreases all.len() - i,
    {
        proof {
            assert(texts.take(i + 1).drop_last() =~= texts.take(i as int));
            assert(texts.take(i + 1).last() == texts[i as int]);
            assert(all.deep_view()[i as int] == all@[i as int]@);
        }
        match DiskUsage::from_str(all[i].as_str()) {
            Ok(row) => {
                let ghost before = list.deep_view();
                let ghost added = row.deep_view();
                list.push(row);
                assert(list.deep_view() =~= before.push(added));
            },
            Err(error) => {
                proof {
                    lemma_usage_rows_error_stays(texts, i + 1);
                }
                return Err(error.in_line(i));
            },
        }
        i += 1;
    }
    assert(texts.take(i as int) =~= texts);
    Ok(list)
}

/// The arguments of `df`: `-h`, and the path where there is one.
pub open spec fn usage_args(path: Option<Seq<char>>) -> Seq<Seq<char>> {
    match path {
        Some(path) => seq!["-h"@, path],
        None => seq!["-h"@],
    }
}

impl Disk {
    /// The command that prints the table, for the file system that holds
    /// `path` or for all of them: `df -h [path]`.
    pub fn usage_command(&self, path: Option<String>) -> (command: CommandLine)
        ensures
            command.deep_view() == (CommandLineView {
                program: "df"@,
                args: usage_args(path.deep_view()),
            }),
    {
        let mut args: Vec<String> = Vec::new();
        args.push(String::from_str("-h"));
        match path {
            Some(path) => {
                let ghost text = path@;
                args.push(path);
                assert(args.deep_view() =~= seq!["-h"@, text]);
            },
            None => {
                assert(args.deep_view() =~= seq!["-h"@]);
            },
        }
        CommandLine { program: String::from_str("df"), args }
    }

    /// The outcome of the field `usage` for a run of
    /// [`Disk::usage_command`].
    pub fn usage(&self, execution: Execution) -> (outcome: FieldOutcome<Vec<DiskUsage>>)
        ensures
            outcome.deep_view() == field_outcome(
                execution.deep_view(),
                |output: Seq<char>| usage_table(output),
            ),
    {
        match command_output(execution) {
            Err(error) => FieldOutcome::Error(error),
            Ok(output) => outcome_of(parse_disk_usage(output)),
        }
    }
}

/// A line with another number of fields than six is no row.
pub proof fn law_row_has_six_fields(line: Seq<char>)
    ensures
        usage_row(line) is Ok ==> split_whitespace(line).len() == 6,
        split_whitespace(line).len() != 6 ==> usage_row(line) == Err::<DiskUsageView, RowError>(
            RowError::FieldCount { found: split_whitespace(line).len() as usize },
        ),
{
}

/// The percentage of a row is from 0 to 100.
pub proof fn law_percent_is_at_most_100(line: Seq<char>)
    requires
        usage_row(line) is Ok,
    ensures
        usage_row(line)->Ok_0.use_percent <= 100,
{
}

/// One bad row fails the whole table: where a line after the header is no
/// row, no row is handed out.
pub proof fn law_bad_row_fails_the_table(lines: Seq<Seq<char>>, index: int)
    requires
        1 <= index < lines.len(),
        usage_row(lines[index]) is Err,
    ensures
        usage_rows(lines) is Err,
    decreases lines.len(),
{
    if index < lines.len() - 1 {
        assert(lines.drop_last()[index] == lines[index]);
        law_bad_row_fails_the_table(lines.drop_last(), index);
    }
}

/// Where every line after the header is a row, the table has one row to
/// each of them, in the order of the lines.
pub proof fn law_rows_keep_the_order_of_the_lines(lines: Seq<Seq<char>>)
    requires
        forall|i: int| 1 <= i < lines.len() ==> usage_row(#[trigger] lines[i]) is Ok,
    ensures
        usage_rows(lines) is Ok,
        lines.len() >= 1 ==> usage_rows(lines)->Ok_0.len() == lines.len() - 1,
        forall|i: int|
            1 <= i < lines.len() ==> Ok::<DiskUsageView, RowError>(
                #[trigger] usage_rows(lines)->Ok_0[i - 1],
            ) == usage_row(lines[i]),
    decreases lines.len(),
{
    if lines.len() > 1 {
        let before = lines.drop_last();
        assert forall|i: int| 1 <= i < before.len() implies usage_row(#[trigger] before[i]) is Ok by {
            assert(before[i] == lines[i]);
        }
        law_rows_keep_the_order_of_the_lines(before);
        assert(usage_row(lines[lines.len() - 1]) is Ok);
        let rows = usage_rows(lines)->Ok_0;
        assert forall|i: int| 1 <= i < lines.len() implies Ok::<DiskUsageView, RowError>(
            #[trigger] rows[i - 1],
        ) == usage_row(lines[i]) by {
            if i < before.len() {
                assert(before[i] == lines[i]);
                assert(rows[i - 1] == usage_rows(before)->Ok_0[i - 1]);
            }
        }
    }
}

} // verus!
