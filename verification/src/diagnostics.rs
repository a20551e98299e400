use crate::ids::{DocumentId, ObjectId};
use crate::text::string_of;
use vstd::prelude::*;

verus! {

/// How serious a diagnostic is.
#[derive(Debug, Clone, Copy, PartialEq, Eq, PartialOrd, Ord, Structural)]
pub enum Severity {
    Info,
    Warning,
    Error,
}

/// Where a diagnostic points.
#[derive(Debug, PartialEq, Eq)]
pub struct DiagnosticLocation {
    pub document: Option<DocumentId>,
    pub object: Option<ObjectId>,
    pub field_path: Option<String>,
}

/// A location, as plain text.
pub struct LocationView {
    pub document: Option<Seq<char>>,
    pub object: Option<Seq<char>>,
    pub field_path: Option<Seq<char>>,
}

impl DiagnosticLocation {
    /// The location as plain text.
    pub open spec fn view(&self) -> LocationView {
        LocationView {
            document: match self.document {
                Some(d) => Some(d.view()),
                None => None,
            },
            object: match self.object {
                Some(o) => Some(o.view()),
                None => None,
            },
            field_path: match self.field_path {
                Some(p) => Some(p@),
                None => None,
            },
        }
    }
}

/// A structured, machine-readable finding.
#[derive(Debug, PartialEq, Eq)]
pub struct Diagnostic {
    pub code: String,
    pub severity: Severity,
    pub message: String,
    pub location: Option<DiagnosticLocation>,
    pub suggested_tools: Vec<String>,
    pub auto_fixable: bool,
}

/// A diagnostic, as plain values.
pub struct DiagnosticView {
    pub code: Seq<char>,
    pub severity: Severity,
    pub message: Seq<char>,
    pub location: Option<LocationView>,
    pub suggested_tools: Seq<Seq<char>>,
    pub auto_fixable: bool,
}

/// A location that only names a document.
pub open spec fn document_location(document: Seq<char>) -> LocationView {
    LocationView { document: Some(document), object: None, field_path: None }
}

/// A location that only names a field path.
pub open spec fn field_location(path: Seq<char>) -> LocationView {
    LocationView { document: None, object: None, field_path: Some(path) }
}

/// A diagnostic of the given severity with no location and no suggestions.
pub open spec fn plain(code: Seq<char>, severity: Severity, message: Seq<char>) -> DiagnosticView {
    DiagnosticView {
        code,
        severity,
        message,
        location: None,
        suggested_tools: Seq::empty(),
        auto_fixable: false,
    }
}

/// An error at a field path.
pub open spec fn field_error(code: Seq<char>, message: Seq<char>, path: Seq<char>) -> DiagnosticView {
    DiagnosticView { location: Some(field_location(path)), ..plain(code, Severity::Error, message) }
}

/// A diagnostic that names a document.
pub open spec fn document_diagnostic(
    code: Seq<char>,
    severity: Severity,
    message: Seq<char>,
    document: Seq<char>,
) -> DiagnosticView {
    DiagnosticView { location: Some(document_location(document)), ..plain(code, severity, message) }
}

impl Diagnostic {
    /// The diagnostic as plain values.
    pub open spec fn view(&self) -> DiagnosticView {
        DiagnosticView {
            code: self.code@,
            severity: self.severity,
            message: self.message@,
            location: match self.location {
                Some(l) => Some(l.view()),
                None => None,
            },
            suggested_tools: self.suggested_tools@.map_values(|t: String| t@),
            auto_fixable: self.auto_fixable,
        }
    }

    fn with_severity(code: &str, severity: Severity, message: String) -> (d: Self)
        ensures
            d.view() == plain(code@, severity, message@),
    {
        let d = Diagnostic {
            code: string_of(code),
            severity,
            message,
            location: None,
            suggested_tools: Vec::new(),
            auto_fixable: false,
        };
        assert(d.view().suggested_tools =~= Seq::<Seq<char>>::empty());
        d
    }

    /// An error with no location.
    pub fn error(code: &str, message: String) -> (d: Self)
        ensures
            d.view() == plain(code@, Severity::Error, message@),
    {
        Self::with_severity(code, Severity::Error, message)
    }

    /// A warning with no location.
    pub fn warning(code: &str, message: String) -> (d: Self)
        ensures
            d.view() == plain(code@, Severity::Warning, message@),
    {
        Self::with_severity(code, Severity::Warning, message)
    }

    /// The same diagnostic, located at a document.
    pub fn at_document(self, document: DocumentId) -> (d: Self)
        ensures
            d.view() == (DiagnosticView {
                location: Some(document_location(document.view())),
                ..self.view()
            }),
    {
        Diagnostic {
            location: Some(DiagnosticLocation { document: Some(document), object: None, field_path: None }),
            ..self
        }
    }

    /// The same diagnostic, located at a field path.
    pub fn at_field_path(self, path: String) -> (d: Self)
        ensures
            d.view() == (DiagnosticView { location: Some(field_location(path@)), ..self.view() }),
    {
        Diagnostic {
            location: Some(DiagnosticLocation { document: None, object: None, field_path: Some(path) }),
            ..self
        }
    }
}

/// Number of diagnostics of a severity.
pub open spec fn count_severity(s: Seq<DiagnosticView>, severity: Severity) -> nat
    decreases s.len(),
{
    if s.len() == 0 {
        0
    } else {
        count_severity(s.drop_last(), severity) + if s.last().severity == severity {
            1nat
        } else {
            0nat
        }
    }
}

/// Some diagnostic is an error.
pub open spec fn any_error(s: Seq<DiagnosticView>) -> bool {
    exists|i: int| 0 <= i < s.len() && (#[trigger] s[i]).severity == Severity::Error
}

/// The views of a list of diagnostics.
pub open spec fn views(s: Seq<Diagnostic>) -> Seq<DiagnosticView> {
    s.map_values(|d: Diagnostic| d.view())
}

/// An ordered collection of diagnostics.
#[derive(Debug, PartialEq, Eq)]
pub struct DiagnosticBag {
    pub diagnostics: Vec<Diagnostic>,
}

/// How many diagnostics of each severity a bag holds.
#[derive(Debug, Clone, Copy, PartialEq, Eq, Structural)]
pub struct DiagnosticSummary {
    pub info: usize,
    pub warnings: usize,
    pub errors: usize,
}

impl DiagnosticBag {
    /// The diagnostics, in order, as plain values.
    pub open spec fn view(&self) -> Seq<DiagnosticView> {
        views(self.diagnostics@)
    }

    /// An empty bag.
    pub fn new() -> (b: Self)
        ensures
            b.view() == Seq::<DiagnosticView>::empty(),
    {
        let b = DiagnosticBag { diagnostics: Vec::new() };
        assert(b.view() =~= Seq::<DiagnosticView>::empty());
        b
    }

    /// Appends one diagnostic.
    pub fn push(&mut self, diagnostic: Diagnostic)
        ensures
            final(self).view() == old(self).view().push(diagnostic.view()),
    {
        self.diagnostics.push(diagnostic);
        assert(self.view() =~= old(self).view().push(diagnostic.view()));
    }

    /// Appends every diagnostic of `other`, in order.
    pub fn extend(&mut self, other: Self)
        ensures
            final(self).view() == old(self).view() + other.view(),
    {
        let ghost added = other.view();
        let mut other = other;
        self.diagnostics.append(&mut other.diagnostics);
        assert(self.view() =~= old(self).view() + added);
    }

    /// Whether any diagnostic is an error.
    pub fn has_errors(&self) -> (r: bool)
        ensures
            r == any_error(self.view()),
    {
        let mut i: usize = 0;
        while i < self.diagnostics.len()
            invariant
                i <= self.diagnostics@.len(),
                forall|j: int| 0 <= j < i ==> self.diagnostics@[j].severity != Severity::Error,
            decreases self.diagnostics@.len() - i,
        {
            if self.diagnostics[i].severity == Severity::Error {
                assert(self.view()[i as int].severity == Severity::Error);
                return true;
            }
            i = i + 1;
        }
        proof {
            assert forall|j: int| 0 <= j < self.view().len() implies (#[trigger] self.view()[j]).severity
                != Severity::Error by {
                assert(self.view()[j] == self.diagnostics@[j].view());
            }
        }
        false
    }

    /// Counts of each severity.
    pub fn summary(&self) -> (s: DiagnosticSummary)
        ensures
            s.info == count_severity(self.view(), Severity::Info),
            s.warnings == count_severity(self.view(), Severity::Warning),
            s.errors == count_severity(self.view(), Severity::Error),
    {
        let mut summary = DiagnosticSummary { info: 0, warnings: 0, errors: 0 };
        let mut i: usize = 0;
        while i < self.diagnostics.len()
            invariant
                i <= self.diagnostics@.len(),
                summary.info == count_severity(self.view().take(i as int), Severity::Info),
                summary.warnings == count_severity(self.view().take(i as int), Severity::Warning),
                summary.errors == count_severity(self.view().take(i as int), Severity::Error),
                summary.info + summary.warnings + summary.errors == i,
            decreases self.diagnostics@.len() - i,
        {
            assert(self.view().take(i as int + 1).drop_last() =~= self.view().take(i as int));
            assert(self.view().take(i as int + 1).last() == self.diagnostics@[i as int].view());
            match self.diagnostics[i].severity {
                Severity::Info => summary.info = summary.info + 1,
                Severity::Warning => summary.warnings = summary.warnings + 1,
                Severity::Error => summary.errors = summary.errors + 1,
            }
            i = i + 1;
        }
        assert(self.view().take(self.diagnostics@.len() as int) =~= self.view());
        summary
    }
}

impl Clone for DiagnosticLocation {
    fn clone(&self) -> (r: Self)
        ensures
            r == *self,
    {
        DiagnosticLocation {
            document: match &self.document {
                Some(d) => Some(d.clone()),
                None => None,
            },
            object: match &self.object {
                Some(o) => Some(o.clone()),
                None => None,
            },
            field_path: match &self.field_path {
                Some(p) => Some(p.clone()),
                None => None,
            },
        }
    }
}

impl Clone for Diagnostic {
    fn clone(&self) -> (r: Self)
        ensures
            r.view() == self.view(),
    {
        let mut tools: Vec<String> = Vec::new();
        let mut i: usize = 0;
        while i < self.suggested_tools.len()
            invariant
                i <= self.suggested_tools@.len(),
                tools@.len() == i,
                forall|j: int| 0 <= j < i ==> (#[trigger] tools@[j]) == self.suggested_tools@[j],
            decreases self.suggested_tools@.len() - i,
        {
            tools.push(self.suggested_tools[i].clone());
            i = i + 1;
        }
        let r = Diagnostic {
            code: self.code.clone(),
            severity: self.severity,
            message: self.message.clone(),
            location: match &self.location {
                Some(l) => Some(l.clone()),
                None => None,
            },
            suggested_tools: tools,
            auto_fixable: self.auto_fixable,
        };
        assert(r.view().suggested_tools =~= self.view().suggested_tools);
        r
    }
}

impl Clone for DiagnosticBag {
    fn clone(&self) -> (r: Self)
        ensures
            r.view() == self.view(),
    {
        let mut out: Vec<Diagnostic> = Vec::new();
        let mut i: usize = 0;
        while i < self.diagnostics.len()
            invariant
                i <= self.diagnostics@.len(),
                out@.len() == i,
                forall|j: int| 0 <= j < i ==> (#[trigger] out@[j]).view() == self.diagnostics@[j].view(),
            decreases self.diagnostics@.len() - i,
        {
            out.push(self.diagnostics[i].clone());
            i = i + 1;
        }
        let r = DiagnosticBag { diagnostics: out };
        assert(r.view() =~= self.view());
        r
    }
}

} // verus!
