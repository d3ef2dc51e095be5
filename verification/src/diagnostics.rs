//! Where in the sources a piece of syntax comes from, and the errors that the
//! compiler reports about it.

use vstd::prelude::*;

use crate::expression_tree::Unit;
use crate::expression_tree::unit_suffix;
use crate::typeregister::{written_type, SpecType, Type};

verus! {

/// A source file, given by its path.
#[derive(Debug)]
pub struct SourceFile {
    pub path: String,
}

/// An offset in a source file.
#[derive(Debug, Clone, Copy, PartialEq, Eq, Default, Structural)]
pub struct Span {
    pub offset: usize,
}

/// A piece of syntax: where it starts, and in which file.
#[derive(Debug)]
pub struct SyntaxNodeWithSourceFile {
    pub span: Span,
    pub source_file: Option<SourceFile>,
}

/// The mathematical model of a [`SyntaxNodeWithSourceFile`].
pub struct SpecSyntaxNode {
    pub span: Span,
    pub source_file: Option<Seq<char>>,
}

impl View for SyntaxNodeWithSourceFile {
    type V = SpecSyntaxNode;

    open spec fn view(&self) -> SpecSyntaxNode {
        SpecSyntaxNode {
            span: self.span,
            source_file: match &self.source_file {
                Some(f) => Some(f.path@),
                None => None,
            },
        }
    }
}

impl SourceLocation {
    /// A copy of this location.
    pub fn clone_location(&self) -> (r: SourceLocation)
        ensures
            r.span == self.span,
            match (r.source_file, self.source_file) {
                (Some(a), Some(b)) => a.path@ == b.path@,
                (None, None) => true,
                _ => false,
            },
    {
        let source_file = match &self.source_file {
            Some(f) => Some(f.clone_file()),
            None => None,
        };
        SourceLocation { span: self.span, source_file }
    }
}

impl SourceFile {
    /// A copy of this source file with the same path.
    pub fn clone_file(&self) -> (r: SourceFile)
        ensures
            r.path@ == self.path@,
    {
        SourceFile { path: self.path.clone() }
    }
}

/// What an error suggests to the user beyond the conversion that failed.
#[derive(Debug, Clone, Copy, PartialEq, Eq, Structural)]
pub enum ConversionHint {
    /// No suggestion.
    NoHint,
    /// "Divide by 1<unit> to convert to a plain number."
    DivideByUnit(Unit),
    /// "Use an unit, or multiply by 1<unit> to convert explicitly."
    MultiplyByUnit(Unit),
}

/// An error: a value of type `from` cannot be converted to type `to`.
#[derive(Debug)]
pub struct Diagnostic {
    pub from: Type,
    pub to: Type,
    pub hint: ConversionHint,
    /// The piece of syntax that the error is reported at.
    pub location: SourceLocation,
}

/// The place that a diagnostic is reported at: an offset and, where known, a file.
#[derive(Debug)]
pub struct SourceLocation {
    pub span: Span,
    pub source_file: Option<SourceFile>,
}

/// The mathematical model of a [`Diagnostic`].
pub struct SpecDiagnostic {
    pub from: SpecType,
    pub to: SpecType,
    pub hint: ConversionHint,
    pub span: Span,
    pub source_file: Option<Seq<char>>,
}

impl View for Diagnostic {
    type V = SpecDiagnostic;

    open spec fn view(&self) -> SpecDiagnostic {
        SpecDiagnostic {
            from: self.from@,
            to: self.to@,
            hint: self.hint,
            span: self.location.span,
            source_file: match &self.location.source_file {
                Some(f) => Some(f.path@),
                None => None,
            },
        }
    }
}

/// The errors reported while building a document, in the order of their reporting.
#[derive(Debug)]
pub struct BuildDiagnostics {
    pub inner: Vec<Diagnostic>,
}

impl View for BuildDiagnostics {
    type V = Seq<SpecDiagnostic>;

    open spec fn view(&self) -> Seq<SpecDiagnostic> {
        self.inner@.map_values(|d: Diagnostic| d@)
    }
}

impl BuildDiagnostics {
    /// No error reported yet.
    pub fn new() -> (d: BuildDiagnostics)
        ensures
            d@ == Seq::<SpecDiagnostic>::empty(),
    {
        let d = BuildDiagnostics { inner: Vec::new() };
        assert(d@ =~= Seq::<SpecDiagnostic>::empty());
        d
    }

    /// Reports an error.
    pub fn push_error(&mut self, error: Diagnostic)
        ensures
            final(self)@ == old(self)@.push(error@),
    {
        let ghost e = error@;
        self.inner.push(error);
        assert(self@ =~= old(self)@.push(e));
    }

    /// Whether an error was reported.
    pub fn has_error(&self) -> (r: bool)
        ensures
            r == (self@.len() > 0),
    {
        self.inner.len() > 0
    }
}

/// The text of an error: the conversion that failed, then what the hint suggests.
pub open spec fn message_text(d: SpecDiagnostic) -> Seq<char> {
    "Cannot convert "@ + written_type(d.from) + " to "@ + written_type(d.to) + match d.hint {
        ConversionHint::NoHint => Seq::empty(),
        ConversionHint::DivideByUnit(u) => ". Divide by 1"@ + unit_suffix(u)
            + " to convert to a plain number."@,
        ConversionHint::MultiplyByUnit(u) => ". Use an unit, or multiply by 1"@ + unit_suffix(u)
            + " to convert explicitly."@,
    }
}

impl Diagnostic {
    /// The text of this error, as it is shown to the user.
    pub fn message(&self) -> (s: String)
        ensures
            s@ == message_text(self@),
    {
        let mut out = String::from_str("Cannot convert ");
        let from = self.from.to_string();
        out.append(from.as_str());
        out.append(" to ");
        let to = self.to.to_string();
        out.append(to.as_str());
        match self.hint {
            ConversionHint::NoHint => {},
            ConversionHint::DivideByUnit(u) => {
                out.append(". Divide by 1");
                let suffix = u.to_string();
                out.append(suffix.as_str());
                out.append(" to convert to a plain number.");
            },
            ConversionHint::MultiplyByUnit(u) => {
                out.append(". Use an unit, or multiply by 1");
                let suffix = u.to_string();
                out.append(suffix.as_str());
                out.append(" to convert explicitly.");
            },
        }
        proof {
            assert(out@ =~= message_text(self@));
        }
        out
    }
}

} // verus!
