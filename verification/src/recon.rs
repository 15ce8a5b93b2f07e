//! The provider list and the error taxonomy.

use vstd::prelude::*;

verus! {

/// A database or search provider that can serve book metadata.
#[derive(Copy, Clone, Debug, PartialEq, Eq, Hash, Structural)]
pub enum Source {
    GoogleBooks,
    OpenLibrary,
    Goodreads,
    Amazon,
}

/// An error raised while reconciling book metadata.
///
/// Per-item parse failures ([`ReconError::ISBNParse`], [`ReconError::DateParse`])
/// carry the raw input that failed, and are kept inside record fields as data;
/// the remaining variants are fatal to one provider's contribution.
#[derive(Debug, PartialEq, Eq)]
pub enum ReconError {
    /// An unexpected provider response, described in prose.
    Message(String),
    /// Malformed JSON, or a value of the wrong shape at the named place.
    JSONParse(String),
    /// A transport failure while reaching a provider.
    Connection(String),
    /// A string that failed ISBN validation; the raw string is kept.
    ISBNParse(String),
    /// A string that no publication-date format matched; the raw string is kept.
    DateParse(String),
    /// A required field was absent from a provider's answer.
    MissingField(String),
    /// A known field appeared twice in one provider's answer.
    DuplicateField(String),
    /// The provider is listed but has no decoder.
    UnsupportedProvider(Source),
}

/// The mathematical value of a [`ReconError`]: the same variants over
/// sequences of characters.
pub enum ErrView {
    Message(Seq<char>),
    JSONParse(Seq<char>),
    Connection(Seq<char>),
    ISBNParse(Seq<char>),
    DateParse(Seq<char>),
    MissingField(Seq<char>),
    DuplicateField(Seq<char>),
    UnsupportedProvider(Source),
}

impl View for ReconError {
    type V = ErrView;

    open spec fn view(&self) -> ErrView {
        match self {
            ReconError::Message(s) => ErrView::Message(s@),
            ReconError::JSONParse(s) => ErrView::JSONParse(s@),
            ReconError::Connection(s) => ErrView::Connection(s@),
            ReconError::ISBNParse(s) => ErrView::ISBNParse(s@),
            ReconError::DateParse(s) => ErrView::DateParse(s@),
            ReconError::MissingField(s) => ErrView::MissingField(s@),
            ReconError::DuplicateField(s) => ErrView::DuplicateField(s@),
            ReconError::UnsupportedProvider(s) => ErrView::UnsupportedProvider(*s),
        }
    }
}

impl ReconError {
    /// An owned copy with the same value.
    pub fn duplicate(&self) -> (r: ReconError)
        ensures
            r@ == self@,
    {
        match self {
            ReconError::Message(s) => ReconError::Message(s.clone()),
            ReconError::JSONParse(s) => ReconError::JSONParse(s.clone()),
            ReconError::Connection(s) => ReconError::Connection(s.clone()),
            ReconError::ISBNParse(s) => ReconError::ISBNParse(s.clone()),
            ReconError::DateParse(s) => ReconError::DateParse(s.clone()),
            ReconError::MissingField(s) => ReconError::MissingField(s.clone()),
            ReconError::DuplicateField(s) => ReconError::DuplicateField(s.clone()),
            ReconError::UnsupportedProvider(s) => ReconError::UnsupportedProvider(*s),
        }
    }

    /// Value equality, decided on the views.
    pub fn eq_view(&self, other: &ReconError) -> (r: bool)
        ensures
            r == (self@ == other@),
    {
        match (self, other) {
            (ReconError::Message(a), ReconError::Message(b)) => *a == *b,
            (ReconError::JSONParse(a), ReconError::JSONParse(b)) => *a == *b,
            (ReconError::Connection(a), ReconError::Connection(b)) => *a == *b,
            (ReconError::ISBNParse(a), ReconError::ISBNParse(b)) => *a == *b,
            (ReconError::DateParse(a), ReconError::DateParse(b)) => *a == *b,
            (ReconError::MissingField(a), ReconError::MissingField(b)) => *a == *b,
            (ReconError::DuplicateField(a), ReconError::DuplicateField(b)) => *a == *b,
            (ReconError::UnsupportedProvider(a), ReconError::UnsupportedProvider(b)) => *a == *b,
            _ => false,
        }
    }
}

} // verus!
