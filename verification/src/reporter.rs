//! Compiler diagnostics: structured messages with secondary labels and
//! notes, and the pure part of reporting them — severity resolution,
//! label ranges and error counting.  Actual terminal rendering lives with
//! the caller that owns the output stream.

use vstd::prelude::*;

use vstd::string::StringExecFns;

verus! {

/// A half-open source region, in byte offsets.
#[derive(Clone, Copy, Debug, PartialEq, Eq, Structural)]
pub struct Span {
    pub start: u32,
    pub end: u32,
}

impl Span {
    pub fn new(start: u32, end: u32) -> (r: Span)
        ensures
            r.start == start,
            r.end == end,
    {
        Span { start, end }
    }
}

/// A file known to the file manager.
#[derive(Clone, Copy, Debug, PartialEq, Eq, Structural)]
pub struct FileId {
    pub index: usize,
}

/// Whether a diagnostic is an error or a warning.
#[derive(Clone, Copy, Debug, PartialEq, Eq, Structural)]
pub enum DiagnosticKind {
    Error,
    Warning,
}

/// A secondary message attached to a source span.
#[derive(Clone, Debug, PartialEq, Eq)]
pub struct CustomLabel {
    pub message: String,
    pub span: Span,
}

impl CustomLabel {
    pub fn new(message: String, span: Span) -> (r: CustomLabel)
        ensures
            r.message@ == message@,
            r.span == span,
    {
        CustomLabel { message, span }
    }
}

/// A compiler diagnostic: a primary message, secondary labels, notes and
/// a kind.
#[derive(Clone, Debug, PartialEq, Eq)]
pub struct CustomDiagnostic {
    pub message: String,
    pub secondaries: Vec<CustomLabel>,
    pub notes: Vec<String>,
    pub kind: DiagnosticKind,
}

/// A diagnostic located in a file.
#[derive(Clone, Debug, PartialEq, Eq)]
pub struct FileDiagnostic {
    pub file_id: FileId,
    pub diagnostic: CustomDiagnostic,
}

impl CustomDiagnostic {
    /// An error diagnostic from a bare message.
    pub fn from_message(msg: &str) -> (r: CustomDiagnostic)
        ensures
            r.message@ == msg@,
            r.secondaries@.len() == 0,
            r.notes@.len() == 0,
            r.kind is Error,
    {
        CustomDiagnostic {
            message: msg.to_owned(),
            secondaries: Vec::new(),
            notes: Vec::new(),
            kind: DiagnosticKind::Error,
        }
    }

    /// An error with one secondary label.
    pub fn simple_error(
        primary_message: String,
        secondary_message: String,
        secondary_span: Span,
    ) -> (r: CustomDiagnostic)
        ensures
            r.message@ == primary_message@,
            r.secondaries@.len() == 1,
            r.secondaries@[0].message@ == secondary_message@,
            r.secondaries@[0].span == secondary_span,
            r.notes@.len() == 0,
            r.kind is Error,
    {
        let mut secondaries: Vec<CustomLabel> = Vec::new();
        secondaries.push(CustomLabel::new(secondary_message, secondary_span));
        CustomDiagnostic {
            message: primary_message,
            secondaries,
            notes: Vec::new(),
            kind: DiagnosticKind::Error,
        }
    }

    /// A warning with one secondary label.
    pub fn simple_warning(
        primary_message: String,
        secondary_message: String,
        secondary_span: Span,
    ) -> (r: CustomDiagnostic)
        ensures
            r.message@ == primary_message@,
            r.secondaries@.len() == 1,
            r.secondaries@[0].message@ == secondary_message@,
            r.secondaries@[0].span == secondary_span,
            r.notes@.len() == 0,
            r.kind is Warning,
    {
        let mut secondaries: Vec<CustomLabel> = Vec::new();
        secondaries.push(CustomLabel::new(secondary_message, secondary_span));
        CustomDiagnostic {
            message: primary_message,
            secondaries,
            notes: Vec::new(),
            kind: DiagnosticKind::Warning,
        }
    }

    /// Locates the diagnostic in a file.
    pub fn in_file(self, file_id: FileId) -> (r: FileDiagnostic)
        ensures
            r.file_id == file_id,
            r.diagnostic == self,
    {
        FileDiagnostic { file_id, diagnostic: self }
    }

    /// Appends a note.
    pub fn add_note(&mut self, message: String)
        ensures
            final(self).notes@ == old(self).notes@.push(message),
            final(self).message@ == old(self).message@,
            final(self).secondaries@ == old(self).secondaries@,
            final(self).kind == old(self).kind,
    {
        self.notes.push(message);
    }

    /// Appends a secondary label.
    pub fn add_secondary(&mut self, message: String, span: Span)
        ensures
            final(self).secondaries@.len() == old(self).secondaries@.len() + 1,
            final(self).secondaries@.subrange(0, old(self).secondaries@.len() as int) == old(
                self,
            ).secondaries@,
            final(self).secondaries@.last().message@ == message@,
            final(self).secondaries@.last().span == span,
            final(self).notes@ == old(self).notes@,
            final(self).message@ == old(self).message@,
            final(self).kind == old(self).kind,
    {
        self.secondaries.push(CustomLabel::new(message, span));
        proof {
            assert(self.secondaries@.subrange(0, old(self).secondaries@.len() as int) =~= old(
                self,
            ).secondaries@);
        }
    }

    /// Whether the diagnostic is an error.
    pub fn is_error(&self) -> (r: bool)
        ensures
            r <==> self.kind is Error,
    {
        matches!(self.kind, DiagnosticKind::Error)
    }

    /// The diagnostic as display lines: the primary message, then one
    /// line per secondary label, then one line per note.
    pub fn render_lines(&self) -> (r: Vec<String>)
        ensures
            r@.len() == 1 + self.secondaries@.len() + self.notes@.len(),
            r@[0]@ == self.message@,
            forall|i: int|
                0 <= i < self.secondaries@.len() ==> r@[1 + i]@ == "secondary: "@
                    + self.secondaries@[i].message@,
            forall|i: int|
                0 <= i < self.notes@.len() ==> r@[1 + self.secondaries@.len() + i]@ == "note: "@
                    + self.notes@[i]@,
    {
        let mut lines: Vec<String> = Vec::new();
        lines.push(self.message.clone());
        let num_secondaries = self.secondaries.len();
        let mut i: usize = 0;
        while i < num_secondaries
            invariant
                num_secondaries == self.secondaries@.len(),
                i <= num_secondaries,
                lines@.len() == 1 + i,
                lines@[0]@ == self.message@,
                forall|k: int|
                    0 <= k < i ==> lines@[1 + k]@ == "secondary: "@
                        + self.secondaries@[k].message@,
            decreases num_secondaries - i,
        {
            let mut line = String::from_str("secondary: ");
            line.append(self.secondaries[i].message.as_str());
            lines.push(line);
            i += 1;
        }
        let num_notes = self.notes.len();
        let mut j: usize = 0;
        while j < num_notes
            invariant
                num_secondaries == self.secondaries@.len(),
                num_notes == self.notes@.len(),
                j <= num_notes,
                lines@.len() == 1 + num_secondaries + j,
                lines@[0]@ == self.message@,
                forall|k: int|
                    0 <= k < num_secondaries ==> lines@[1 + k]@ == "secondary: "@
                        + self.secondaries@[k].message@,
                forall|k: int|
                    0 <= k < j ==> lines@[1 + num_secondaries + k]@ == "note: "@
                        + self.notes@[k]@,
            decreases num_notes - j,
        {
            let mut line = String::from_str("note: ");
            line.append(self.notes[j].as_str());
            lines.push(line);
            j += 1;
        }
        lines
    }
}

/// A count of errors that have been reported.
#[derive(Clone, Copy, Debug, PartialEq, Eq, Structural)]
pub struct ReportedErrors {
    pub error_count: u32,
}

/// The rendered severity of a diagnostic.
#[derive(Clone, Copy, Debug, PartialEq, Eq, Structural)]
pub enum Severity {
    Error,
    Warning,
}

/// One label of a rendered diagnostic: a file, a half-open byte range and
/// a message.
#[derive(Clone, Debug, PartialEq, Eq)]
pub struct RenderedLabel {
    pub file: usize,
    pub range_start: usize,
    pub range_end: usize,
    pub message: String,
}

/// A diagnostic resolved for rendering: severity decided, label ranges
/// computed.  The caller owning the output stream draws it.
#[derive(Clone, Debug, PartialEq, Eq)]
pub struct RenderedDiagnostic {
    pub severity: Severity,
    pub message: String,
    pub labels: Vec<RenderedLabel>,
    pub notes: Vec<String>,
}

/// Whether reporting a diagnostic counts as an error: always when warnings
/// are denied, otherwise exactly for error diagnostics.
pub open spec fn spec_counts_as_error(kind: DiagnosticKind, deny_warnings: bool) -> bool {
    deny_warnings || kind is Error
}

/// Whether a reported diagnostic counts as an error.
pub fn counts_as_error(cd: &CustomDiagnostic, deny_warnings: bool) -> (r: bool)
    ensures
        r == spec_counts_as_error(cd.kind, deny_warnings),
{
    deny_warnings || cd.is_error()
}

/// How many of the diagnostics count as errors when reported.
pub open spec fn spec_error_count(diagnostics: Seq<FileDiagnostic>, deny_warnings: bool) -> int
    decreases diagnostics.len(),
{
    if diagnostics.len() == 0 {
        0
    } else {
        (if spec_counts_as_error(diagnostics[0].diagnostic.kind, deny_warnings) {
            1int
        } else {
            0int
        }) + spec_error_count(diagnostics.drop_first(), deny_warnings)
    }
}

/// Counting one more diagnostic adds its contribution.
proof fn lemma_error_count_push(diagnostics: Seq<FileDiagnostic>, d: FileDiagnostic, deny: bool)
    ensures
        spec_error_count(diagnostics.push(d), deny) == spec_error_count(diagnostics, deny) + (
        if spec_counts_as_error(d.diagnostic.kind, deny) {
            1int
        } else {
            0int
        }),
    decreases diagnostics.len(),
{
    assert(spec_error_count(Seq::<FileDiagnostic>::empty(), deny) == 0);
    if diagnostics.len() == 0 {
        assert(diagnostics.push(d)[0] == d);
        assert(diagnostics.push(d).drop_first() =~= Seq::<FileDiagnostic>::empty());
        assert(diagnostics =~= Seq::<FileDiagnostic>::empty());
    } else {
        assert(diagnostics.push(d)[0] == diagnostics[0]);
        assert(diagnostics.push(d).drop_first() =~= diagnostics.drop_first().push(d));
        lemma_error_count_push(diagnostics.drop_first(), d, deny);
    }
}

/// The count of the given diagnostics that count as errors when reported:
/// what reporting them all returns.
pub fn report_all_count(diagnostics: &Vec<FileDiagnostic>, deny_warnings: bool) -> (r:
    ReportedErrors)
    requires
        diagnostics@.len() <= u32::MAX,
    ensures
        r.error_count == spec_error_count(diagnostics@, deny_warnings),
{
    let mut error_count: u32 = 0;
    let n = diagnostics.len();
    let mut i: usize = 0;
    proof {
        assert(diagnostics@.take(0) =~= Seq::<FileDiagnostic>::empty());
    }
    while i < n
        invariant
            i <= n,
            n == diagnostics@.len(),
            n <= u32::MAX,
            error_count == spec_error_count(diagnostics@.take(i as int), deny_warnings),
            error_count <= i,
        decreases n - i,
    {
        proof {
            lemma_error_count_push(diagnostics@.take(i as int), diagnostics@[i as int],
                deny_warnings);
            assert(diagnostics@.take(i as int).push(diagnostics@[i as int]) =~= diagnostics@.take(
                i as int + 1,
            ));
        }
        if counts_as_error(&diagnostics[i].diagnostic, deny_warnings) {
            error_count = error_count + 1;
        }
        i += 1;
    }
    proof {
        assert(diagnostics@.take(n as int) =~= diagnostics@);
    }
    ReportedErrors { error_count }
}

/// Resolves a diagnostic for rendering: a warning stays a warning only
/// when warnings are not denied; label ranges are the spans widened by
/// one at the end; labels are kept only when the file is known.
pub fn convert_diagnostic(
    cd: &CustomDiagnostic,
    file: Option<FileId>,
    deny_warnings: bool,
) -> (r: RenderedDiagnostic)
    requires
        forall|i: int|
            0 <= i < cd.secondaries@.len() ==> (#[trigger] cd.secondaries@[i]).span.end
                < u32::MAX,
    ensures
        r.severity is Warning <==> (cd.kind is Warning && !deny_warnings),
        r.message@ == cd.message@,
        r.notes@ == cd.notes@,
        file is None ==> r.labels@.len() == 0,
        file is Some ==> {
            &&& r.labels@.len() == cd.secondaries@.len()
            &&& forall|i: int|
                0 <= i < r.labels@.len() ==> {
                    &&& (#[trigger] r.labels@[i]).file == file.unwrap().index
                    &&& r.labels@[i].range_start == cd.secondaries@[i].span.start
                    &&& r.labels@[i].range_end == cd.secondaries@[i].span.end + 1
                    &&& r.labels@[i].message@ == cd.secondaries@[i].message@
                }
        },
{
    let severity = match (cd.kind, deny_warnings) {
        (DiagnosticKind::Warning, false) => Severity::Warning,
        _ => Severity::Error,
    };
    let mut labels: Vec<RenderedLabel> = Vec::new();
    match file {
        Some(file_id) => {
            let n = cd.secondaries.len();
            let mut i: usize = 0;
            while i < n
                invariant
                    i <= n,
                    n == cd.secondaries@.len(),
                    labels@.len() == i,
                    forall|k: int|
                        0 <= k < cd.secondaries@.len() ==> (
                        #[trigger] cd.secondaries@[k]).span.end < u32::MAX,
                    forall|k: int|
                        0 <= k < i ==> {
                            &&& (#[trigger] labels@[k]).file == file_id.index
                            &&& labels@[k].range_start == cd.secondaries@[k].span.start
                            &&& labels@[k].range_end == cd.secondaries@[k].span.end + 1
                            &&& labels@[k].message@ == cd.secondaries@[k].message@
                        },
                decreases n - i,
            {
                let sl = &cd.secondaries[i];
                labels.push(
                    RenderedLabel {
                        file: file_id.index,
                        range_start: sl.span.start as usize,
                        range_end: sl.span.end as usize + 1,
                        message: sl.message.clone(),
                    },
                );
                i += 1;
            }
        },
        None => {},
    }
    RenderedDiagnostic { severity, message: cd.message.clone(), labels, notes: cd.notes.clone() }
}

} // verus!
