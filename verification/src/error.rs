//! Error reports: lists of coded diagnostics.

use vstd::prelude::*;

verus! {

/// One coded message of an error report.
#[derive(Debug, PartialEq, Eq)]
pub struct Diagnostic {
    pub code: String,
    pub message: String,
}

/// The model of [`Diagnostic`].
#[verifier::ext_equal]
pub struct DiagnosticView {
    pub code: Seq<char>,
    pub message: Seq<char>,
}

impl DeepView for Diagnostic {
    type V = DiagnosticView;

    open spec fn deep_view(&self) -> DiagnosticView {
        DiagnosticView { code: self.code@, message: self.message@ }
    }
}

impl Clone for Diagnostic {
    fn clone(&self) -> (r: Self)
        ensures
            r.deep_view() == self.deep_view(),
    {
        Diagnostic { code: self.code.clone(), message: self.message.clone() }
    }
}

/// The error of every fallible operation of the runtime.
#[derive(Debug, PartialEq, Eq)]
pub struct ErrorReport {
    pub diagnostics: Vec<Diagnostic>,
}

/// The model of [`ErrorReport`].
#[verifier::ext_equal]
pub struct ErrorReportView {
    pub diagnostics: Seq<DiagnosticView>,
}

impl DeepView for ErrorReport {
    type V = ErrorReportView;

    open spec fn deep_view(&self) -> ErrorReportView {
        ErrorReportView { diagnostics: self.diagnostics.deep_view() }
    }
}

impl Clone for ErrorReport {
    fn clone(&self) -> (r: Self)
        ensures
            r.deep_view() == self.deep_view(),
    {
        let r = ErrorReport { diagnostics: self.diagnostics.clone() };
        proof {
            assert(r.diagnostics.deep_view() =~= self.diagnostics.deep_view());
        }
        r
    }
}

/// The report that holds a single diagnostic.
pub open spec fn report(code: Seq<char>, message: Seq<char>) -> ErrorReportView {
    ErrorReportView { diagnostics: seq![DiagnosticView { code, message }] }
}

/// Whether a result carries a given report, or none where no problem exists.
pub open spec fn fails_with<T>(r: Result<T, ErrorReport>, problem: Option<ErrorReportView>) -> bool {
    match r {
        Ok(_) => problem is None,
        Err(e) => problem == Some(e.deep_view()),
    }
}

/// Builds a report with a single diagnostic.
pub fn error(code: &str, message: &str) -> (r: ErrorReport)
    ensures
        r.deep_view() == report(code@, message@),
{
    let mut diagnostics: Vec<Diagnostic> = Vec::new();
    diagnostics.push(Diagnostic { code: code.to_owned(), message: message.to_owned() });
    let r = ErrorReport { diagnostics };
    proof {
        assert(r.deep_view().diagnostics =~= report(code@, message@).diagnostics);
    }
    r
}

} // verus!
