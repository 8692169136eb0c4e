//! The record of the errors found before a program runs.

use crate::text::integer;
use crate::text::integer_text;
use crate::text::join3;
use crate::token::{Token, TokenType};
use vstd::prelude::*;

verus! {

/// Whether an error was reported, and the reports in the order they came.
#[derive(Debug)]
pub struct Context {
    pub had_error: bool,
    pub reports: Vec<String>,
}

/// The line that reports `message` for source line `line`; `occurred`
/// says where on the line.
pub open spec fn report_text(line: int, occurred: Seq<char>, message: Seq<char>) -> Seq<char> {
    "[line: "@ + integer_text(line) + "] Error"@ + occurred + ": "@ + message
}

/// Where a token stands, as a report says it.
pub open spec fn occurrence_text(token: Token) -> Seq<char> {
    if token.token_type == TokenType::EOF {
        " at end"@
    } else {
        " at '"@ + token.lexeme@ + "'"@
    }
}

impl Context {
    pub fn new() -> (r: Self)
        ensures
            !r.had_error,
            r.reports@.len() == 0,
    {
        Context { had_error: false, reports: Vec::new() }
    }

    /// The context after one more report with the text `text`.
    pub open spec fn reported(self, after: Context, text: Seq<char>) -> bool {
        &&& after.had_error
        &&& after.reports@.len() == self.reports@.len() + 1
        &&& after.reports@.drop_last() == self.reports@
        &&& after.reports@.last()@ == text
    }

    pub fn error(&mut self, line: i64, message: &str)
        ensures
            old(self).reported(*final(self), report_text(line as int, ""@, message@)),
    {
        self.report(line, "", message);
    }

    pub fn error_on(&mut self, token: &Token, message: &str)
        ensures
            old(self).reported(
                *final(self),
                report_text(token.line as int, occurrence_text(*token), message@),
            ),
    {
        if token.token_type == TokenType::EOF {
            self.report(token.line, " at end", message);
        } else {
            let occurred = join3(" at '", token.lexeme.as_str(), "'");
            self.report(token.line, occurred.as_str(), message);
        }
    }

    pub fn report(&mut self, line: i64, occurred: &str, message: &str)
        ensures
            old(self).reported(*final(self), report_text(line as int, occurred@, message@)),
    {
        let number = integer(line);
        let mut text = join3("[line: ", number.as_str(), "] Error");
        text.append(occurred);
        text.append(": ");
        text.append(message);
        let ghost before = self.reports@;
        self.reports.push(text);
        self.had_error = true;
        assert(self.reports@.drop_last() =~= before);
    }
}

} // verus!
