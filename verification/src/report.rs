//! From command-line arguments to the line of text that answers them.
//!
//! Nothing here reads or writes: `run` takes the arguments as values and
//! returns the text together with the stream it belongs on.

use vstd::prelude::*;
use crate::decimal::{numeral_of, push_decimal};
use crate::parse::{parse_filesize, spec_parse_filesize, ParseError};
use crate::sizes::Sizes;

verus! {

/// A line of text and the stream it is meant for.
#[derive(Debug, PartialEq, Eq)]
pub enum Report {
    /// A result, for standard output.
    Output(String),
    /// A usage or error message, for the diagnostic stream.
    Diagnostic(String),
}

/// A `Report` with its text as a sequence of characters.
pub enum ReportView {
    Output(Seq<char>),
    Diagnostic(Seq<char>),
}

impl View for Report {
    type V = ReportView;

    open spec fn view(&self) -> ReportView {
        match self {
            Report::Output(line) => ReportView::Output(line@),
            Report::Diagnostic(line) => ReportView::Diagnostic(line@),
        }
    }
}

impl Sizes {
    /// The four fields with their unit labels, as one line.
    pub open spec fn line(self) -> Seq<char> {
        "Sizes { bytes: "@ + numeral_of(self.bytes as nat) + " bytes, kilobytes: "@ + numeral_of(
            self.kilobytes as nat,
        ) + " kilobytes, megabytes: "@ + numeral_of(self.megabytes as nat)
            + " megabytes, gigabytes: "@ + numeral_of(self.gigabytes as nat) + " gigabytes }"@
    }

    /// The four fields with their unit labels, as one line.
    pub fn to_line(&self) -> (line: String)
        ensures
            line@ == self.line(),
    {
        let mut line = String::from_str("Sizes { bytes: ");
        push_decimal(&mut line, self.bytes);
        line.append(" bytes, kilobytes: ");
        push_decimal(&mut line, self.kilobytes);
        line.append(" kilobytes, megabytes: ");
        push_decimal(&mut line, self.megabytes);
        line.append(" megabytes, gigabytes: ");
        push_decimal(&mut line, self.gigabytes);
        line.append(" gigabytes }");
        line
    }
}

impl ParseError {
    /// The line that reports the error.
    pub open spec fn line(self) -> Seq<char> {
        "Error: "@ + self.text()
    }

    /// The line that reports the error.
    pub fn to_line(&self) -> (line: String)
        ensures
            line@ == self.line(),
    {
        let message = self.message();
        String::from_str("Error: ").concat(message.as_str())
    }
}

/// The line that tells how the program is called.
pub open spec fn usage() -> Seq<char> {
    "Usage: file-size-formatter <filesize>"@
}

/// The texts of the arguments.
pub open spec fn argument_texts(args: Seq<String>) -> Seq<Seq<char>> {
    args.map_values(|a: String| a@)
}

/// The report that answers the arguments `args`, the program's name first.
///
/// Without an argument after the name the report is the usage line.
/// Otherwise the first argument is read as a quantity, and the report is
/// the line of its sizes, or the line of the error. Further arguments are
/// ignored.
pub open spec fn spec_run(args: Seq<Seq<char>>) -> ReportView {
    if args.len() < 2 {
        ReportView::Diagnostic(usage())
    } else {
        match spec_parse_filesize(args[1]) {
            Ok(file_size) => ReportView::Output(file_size.sizes().line()),
            Err(error) => ReportView::Diagnostic(error.line()),
        }
    }
}

/// Answers the command-line arguments `args`, the program's name first.
pub fn run(args: &[String]) -> (report: Report)
    ensures
        report@ == spec_run(argument_texts(args@)),
{
    if args.len() < 2 {
        return Report::Diagnostic(String::from_str("Usage: file-size-formatter <filesize>"));
    }
    match parse_filesize(args[1].as_str()) {
        Ok(file_size) => Report::Output(Sizes::from_file_size(file_size).to_line()),
        Err(error) => Report::Diagnostic(error.to_line()),
    }
}

} // verus!
