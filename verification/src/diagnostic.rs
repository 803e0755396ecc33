//! What a renderer reports about content that it left out.

use vstd::prelude::*;

verus! {

/// Why a piece of content left no output.
#[derive(Clone, Copy, Debug, PartialEq, Eq, Structural)]
pub enum DiagnosticKind {
    /// A node of a kind that has no rendering.
    UnsupportedNode,
    /// A raw HTML fragment that is none of the known tags.
    UnsupportedHtml,
    /// A closing HTML tag without an open one before it.
    UnmatchedTag,
    /// An image whose source has no local path.
    UnresolvedImage,
    /// A reference to an identifier that nothing defines.
    UndefinedReference,
    /// A table without a header row.
    EmptyTable,
    /// Cells of a table row beyond the width of the header.
    ExtraCells,
    /// Output data of a kind that has no rendering.
    UnsupportedMedia,
    /// Image data that is no Base64.
    UndecodableImage,
}

/// One report: the reason, and the content it is about (a tag, a URL, an
/// identifier, a kind).
#[derive(Debug, PartialEq, Eq)]
pub struct Diagnostic {
    pub kind: DiagnosticKind,
    pub subject: String,
}

impl View for Diagnostic {
    type V = (DiagnosticKind, Seq<char>);

    open spec fn view(&self) -> (DiagnosticKind, Seq<char>) {
        (self.kind, self.subject@)
    }
}

/// The values of a list of reports.
pub open spec fn reports_view(reports: Seq<Diagnostic>) -> Seq<(DiagnosticKind, Seq<char>)> {
    Seq::new(reports.len(), |i: int| reports[i]@)
}

/// Appends a report to a list.
pub fn report(reports: &mut Vec<Diagnostic>, kind: DiagnosticKind, subject: &str)
    ensures
        reports_view(final(reports)@) == reports_view(old(reports)@).push((kind, subject@)),
{
    reports.push(Diagnostic { kind, subject: subject.to_owned() });
    assert(reports_view(reports@) =~= reports_view(old(reports)@).push((kind, subject@)));
}

} // verus!
