//! The interpreter's front door: it runs the scanner over a source text and
//! keeps the record of what went wrong.

use vstd::prelude::*;
use vstd::string::StrSliceExecFns;
use crate::error::{LexError, LexErrorView};
use crate::grammar::{lemma_error_lines_bounded, lex};
use crate::scanner::{error_views, token_views, Scanner};
use crate::token::Token;

verus! {

/// What a report says: the model of `Report`.
pub struct ReportView {
    pub line: int,
    pub place: Seq<char>,
    pub message: Seq<char>,
}

/// One reported error: the line it was found on, where on the line, and what
/// is wrong.
#[derive(Debug, PartialEq, Eq)]
pub struct Report {
    pub line: i64,
    pub place: String,
    pub message: String,
}

impl View for Report {
    type V = ReportView;

    open spec fn view(&self) -> ReportView {
        ReportView { line: self.line as int, place: self.place@, message: self.message@ }
    }
}

impl Clone for Report {
    fn clone(&self) -> (copy: Self)
        ensures
            copy@ == self@,
    {
        Report { line: self.line, place: self.place.clone(), message: self.message.clone() }
    }
}

/// What a sequence of reports says.
pub open spec fn report_views(reports: Seq<Report>) -> Seq<ReportView> {
    reports.map_values(|report: Report| report@)
}

/// The report that a lexical error becomes: its line, no place, and the
/// message of its kind.
pub open spec fn report_of(error: LexErrorView) -> ReportView {
    ReportView { line: error.line as int, place: Seq::empty(), message: error.kind.message_text() }
}

/// The state of a `Lox`: whether an error has been reported, and the reports
/// so far, oldest first.
pub struct LoxView {
    pub had_error: bool,
    pub reports: Seq<ReportView>,
}

/// The interpreter and its error reporter.
pub struct Lox {
    had_error: bool,
    reports: Vec<Report>,
}

impl View for Lox {
    type V = LoxView;

    closed spec fn view(&self) -> LoxView {
        LoxView { had_error: self.had_error, reports: report_views(self.reports@) }
    }
}

impl Lox {
    /// An interpreter that has seen no error.
    pub fn new() -> (lox: Self)
        ensures
            !lox@.had_error,
            lox@.reports == Seq::<ReportView>::empty(),
    {
        Lox { had_error: false, reports: Vec::new() }
    }

    /// Whether an error has been reported.
    pub fn had_error(&self) -> (had_error: bool)
        ensures
            had_error == self@.had_error,
    {
        self.had_error
    }

    /// The reports so far, oldest first.
    pub fn reports(&self) -> (reports: &Vec<Report>)
        ensures
            report_views(reports@) == self@.reports,
    {
        &self.reports
    }

    /// Forgets every report and the fact that there was one.
    pub fn reset(&mut self)
        ensures
            !final(self)@.had_error,
            final(self)@.reports == Seq::<ReportView>::empty(),
    {
        self.had_error = false;
        self.reports = Vec::new();
    }

    /// Scans `source`. Returns the tokens that it denotes and reports every
    /// lexical error that it denotes, in source order.
    ///
    /// The scanner counts lines in `usize` and reports take them as `i64`, so
    /// the number of the last line has to fit both. `try_run` tests this
    /// itself.
    pub fn run(&mut self, source: String) -> (tokens: Vec<Token>)
        requires
            source@.len() < usize::MAX,
            source@.len() < i64::MAX,
        ensures
            token_views(tokens@) == lex(source@).tokens,
            final(self)@.reports == old(self)@.reports + lex(source@).errors.map_values(
                |error: LexErrorView| report_of(error),
            ),
            final(self)@.had_error == (old(self)@.had_error || lex(source@).errors.len() > 0),
    {
        let mut scanner = Scanner::new(source);
        let tokens = scanner.scan_tokens();
        let errors = scanner.errors();
        let ghost found = lex(source@).errors;
        proof {
            lemma_error_lines_bounded(source@, 0);
        }
        let mut i: usize = 0;
        while i < errors.len()
            invariant
                i <= errors@.len(),
                error_views(errors@) == found,
                forall|k: int| 0 <= k < found.len() ==> (#[trigger] found[k]).line <= i64::MAX,
                self@.reports == old(self)@.reports + found.take(i as int).map_values(
                    |error: LexErrorView| report_of(error),
                ),
                self@.had_error == (old(self)@.had_error || i > 0),
            decreases errors@.len() - i,
        {
            let error: LexError = errors[i];
            assert(error@ == found[i as int]);
            self.error(error.line as i64, error.kind.message());
            assert(found.take(i + 1) == found.take(i as int).push(found[i as int]));
            i += 1;
        }
        assert(found.take(i as int) == found);
        tokens
    }

    /// Scans `source` as `run` does, if `source` is short enough for `run`;
    /// else returns `None` and changes nothing.
    pub fn try_run(&mut self, source: String) -> (tokens: Option<Vec<Token>>)
        ensures
            tokens is Some <==> source@.len() < usize::MAX && source@.len() < i64::MAX,
            tokens is None ==> final(self)@ == old(self)@,
            tokens matches Some(found) ==> {
                &&& token_views(found@) == lex(source@).tokens
                &&& final(self)@.reports == old(self)@.reports + lex(source@).errors.map_values(
                    |error: LexErrorView| report_of(error),
                )
                &&& final(self)@.had_error == (old(self)@.had_error || lex(source@).errors.len()
                    > 0)
            },
    {
        let length = source.as_str().unicode_len();
        if length < usize::MAX && (length as u128) < 0x7fff_ffff_ffff_ffffu128 {
            Some(self.run(source))
        } else {
            None
        }
    }

    /// Reports `message` for `line`, without a place.
    pub fn error(&mut self, line: i64, message: String)
        ensures
            final(self)@.had_error,
            final(self)@.reports == old(self)@.reports.push(
                ReportView { line: line as int, place: Seq::empty(), message: message@ },
            ),
    {
        self.report(line, String::new(), message)
    }

    /// Records a report and remembers that there was an error.
    pub fn report(&mut self, line: i64, place: String, message: String)
        ensures
            final(self)@.had_error,
            final(self)@.reports == old(self)@.reports.push(
                ReportView { line: line as int, place: place@, message: message@ },
            ),
    {
        self.reports.push(Report { line, place, message });
        self.had_error = true;
    }
}

} // verus!
