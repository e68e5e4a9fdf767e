//! Validation of the query text before anything is sent.

use vstd::prelude::*;

verus! {

/// One syntax error in a query text: where it stands, in bytes from the
/// start of the text, how many bytes the offending token has, and what the
/// parser says of it.
#[derive(Clone, Debug, PartialEq, Eq)]
pub struct SyntaxDiagnostic {
    pub offset: usize,
    pub length: usize,
    pub message: String,
}

/// A [`SyntaxDiagnostic`] as a plain value.
pub struct SyntaxDiagnosticView {
    pub offset: usize,
    pub length: usize,
    pub message: Seq<char>,
}

impl DeepView for SyntaxDiagnostic {
    type V = SyntaxDiagnosticView;

    open spec fn deep_view(&self) -> SyntaxDiagnosticView {
        SyntaxDiagnosticView { offset: self.offset, length: self.length, message: self.message@ }
    }
}

/// The syntax errors that the GraphQL parser finds in `query`, in the order
/// in which it reports them.
pub uninterp spec fn query_syntax_errors(query: Seq<char>) -> Seq<SyntaxDiagnosticView>;

/// Runs `apollo_parser::Parser` over `query` and hands out the errors of the
/// syntax tree it builds: for each, `index()`, the length of `data()` and
/// `message()`. Trusted: that these are a function of the query text alone,
/// which is what the name `query_syntax_errors` stands for.
#[verifier::external_body]
fn syntax_errors(query: &str) -> (errors: Vec<SyntaxDiagnostic>)
    ensures
        errors.deep_view() == query_syntax_errors(query@),
{
    let tree = apollo_parser::Parser::new(query).parse();
    tree.errors().map(
        |e| SyntaxDiagnostic {
            offset: e.index(),
            length: e.data().len(),
            message: e.message().to_string(),
        },
    ).collect()
}

/// Whether a list of syntax errors lets the query pass: it does where the
/// list is empty.
pub open spec fn accepts(errors: Seq<SyntaxDiagnosticView>) -> bool {
    errors.len() == 0
}

/// Decides [`accepts`] for the errors that validation produced.
pub fn is_accepted(errors: &Vec<SyntaxDiagnostic>) -> (ok: bool)
    ensures
        ok == accepts(errors.deep_view()),
{
    errors.len() == 0
}

/// Validates `query`: the syntax errors of the text, none where it is a
/// well-formed GraphQL document.
pub fn validate_query(query: &str) -> (errors: Vec<SyntaxDiagnostic>)
    ensures
        errors.deep_view() == query_syntax_errors(query@),
{
    syntax_errors(query)
}

/// Whether `query` is free of syntax errors.
pub fn verify_query(query: String) -> (ok: bool)
    ensures
        ok == accepts(query_syntax_errors(query@)),
{
    let errors = syntax_errors(query.as_str());
    is_accepted(&errors)
}

} // verus!
