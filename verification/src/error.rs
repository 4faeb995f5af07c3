//! Location-tagged, multi-message diagnostics, and an accumulator that can
//! hold many of them per run.
//!
//! A diagnostic carries a short title, an ordered list of annotations (each an
//! optional source span plus a message, for "defined here" / "provided here"
//! style explanations) and a severity. Non-fatal diagnostics are advisory and
//! never stop processing.

use vstd::prelude::*;

verus! {

/// A source location: a file path plus a byte range in that file.
#[derive(Debug, Clone, PartialEq, Eq)]
pub struct Loc {
    pub path: String,
    pub start: usize,
    pub end: usize,
}

/// Mathematical image of a [`Loc`].
pub struct LocV {
    pub path: Seq<char>,
    pub start: int,
    pub end: int,
}

impl DeepView for Loc {
    type V = LocV;

    open spec fn deep_view(&self) -> LocV {
        LocV { path: self.path@, start: self.start as int, end: self.end as int }
    }
}

/// One annotation of a diagnostic: a message, optionally pinned to a location.
#[derive(Debug, Clone)]
pub struct Note {
    pub loc: Option<Loc>,
    pub text: String,
}

/// Mathematical image of a [`Note`].
pub struct NoteV {
    pub loc: Option<LocV>,
    pub text: Seq<char>,
}

impl DeepView for Note {
    type V = NoteV;

    open spec fn deep_view(&self) -> NoteV {
        NoteV { loc: self.loc.deep_view(), text: self.text@ }
    }
}

/// A diagnostic: title, ordered annotations, severity.
#[derive(Debug, Clone)]
pub struct Error {
    pub title: String,
    pub notes: Vec<Note>,
    pub fatal: bool,
}

/// Mathematical image of an [`Error`].
pub struct ErrorV {
    pub title: Seq<char>,
    pub notes: Seq<NoteV>,
    pub fatal: bool,
}

impl DeepView for Error {
    type V = ErrorV;

    open spec fn deep_view(&self) -> ErrorV {
        ErrorV { title: self.title@, notes: self.notes.deep_view(), fatal: self.fatal }
    }
}

/// Spec-side constructor: a fresh fatal diagnostic with no annotations.
pub open spec fn error_v(title: Seq<char>) -> ErrorV {
    ErrorV { title: title, notes: Seq::empty(), fatal: true }
}

impl ErrorV {
    /// Spec-side image of [`Error::with_span`].
    pub open spec fn with_span_v(self, loc: LocV, text: Seq<char>) -> ErrorV {
        ErrorV { notes: self.notes.push(NoteV { loc: Some(loc), text: text }), ..self }
    }

    /// Spec-side image of [`Error::with_message`].
    pub open spec fn with_message_v(self, text: Seq<char>) -> ErrorV {
        ErrorV { notes: self.notes.push(NoteV { loc: None, text: text }), ..self }
    }

    /// Spec-side image of [`Error::nonfatal`].
    pub open spec fn nonfatal_v(self) -> ErrorV {
        ErrorV { fatal: false, ..self }
    }
}

impl Error {
    /// A fresh diagnostic with the given title; fatal unless demoted.
    pub fn new(title: &str) -> (r: Error)
        ensures
            r.deep_view() == error_v(title@),
    {
        let r = Error { title: title.to_owned(), notes: Vec::new(), fatal: true };
        proof {
            assert(r.deep_view().notes =~= error_v(title@).notes);
        }
        r
    }

    /// Append an annotation pinned to a source location.
    pub fn with_span(self, loc: &Loc, text: String) -> (r: Error)
        ensures
            r.deep_view() == self.deep_view().with_span_v(loc.deep_view(), text@),
    {
        let loc_copy = Loc { path: loc.path.clone(), start: loc.start, end: loc.end };
        let mut notes = self.notes;
        notes.push(Note { loc: Some(loc_copy), text: text });
        let r = Error { title: self.title, notes: notes, fatal: self.fatal };
        proof {
            assert(r.deep_view().notes =~= self
                .deep_view()
                .with_span_v(loc.deep_view(), text@)
                .notes);
        }
        r
    }

    /// Append an annotation with no location.
    pub fn with_message(self, text: String) -> (r: Error)
        ensures
            r.deep_view() == self.deep_view().with_message_v(text@),
    {
        let mut notes = self.notes;
        notes.push(Note { loc: None, text: text });
        let r = Error { title: self.title, notes: notes, fatal: self.fatal };
        proof {
            assert(r.deep_view().notes =~= self.deep_view().with_message_v(text@).notes);
        }
        r
    }

    /// Demote the diagnostic to an advisory: reported, but never stops
    /// processing.
    pub fn nonfatal(self) -> (r: Error)
        ensures
            r.deep_view() == self.deep_view().nonfatal_v(),
    {
        Error { fatal: false, ..self }
    }

    /// Hand the diagnostic over to an accumulator.
    pub fn register(self, errs: &mut ErrorRecord)
        ensures
            final(errs).deep_view() == old(errs).deep_view().push(self.deep_view()),
    {
        errs.push(self);
    }
}

/// Accumulator for the diagnostics of one run.
#[derive(Debug, Clone)]
pub struct ErrorRecord {
    pub errors: Vec<Error>,
}

impl DeepView for ErrorRecord {
    type V = Seq<ErrorV>;

    open spec fn deep_view(&self) -> Seq<ErrorV> {
        self.errors.deep_view()
    }
}

/// How many of the diagnostics in `s` are fatal.
pub open spec fn count_fatal_v(s: Seq<ErrorV>) -> nat
    decreases s.len(),
{
    if s.len() == 0 {
        0
    } else {
        count_fatal_v(s.drop_last()) + if s.last().fatal {
            1nat
        } else {
            0nat
        }
    }
}

impl ErrorRecord {
    /// An empty accumulator.
    pub fn new() -> (r: ErrorRecord)
        ensures
            r.deep_view() == Seq::<ErrorV>::empty(),
    {
        let r = ErrorRecord { errors: Vec::new() };
        proof {
            assert(r.deep_view() =~= Seq::<ErrorV>::empty());
        }
        r
    }

    /// Append one diagnostic.
    pub fn push(&mut self, e: Error)
        ensures
            final(self).deep_view() == old(self).deep_view().push(e.deep_view()),
    {
        self.errors.push(e);
        proof {
            assert(self.deep_view() =~= old(self).deep_view().push(e.deep_view()));
        }
    }

    /// How many diagnostics have been recorded.
    pub fn len(&self) -> (n: usize)
        ensures
            n == self.deep_view().len(),
    {
        self.errors.len()
    }

    /// How many recorded diagnostics are fatal.
    pub fn count_fatal(&self) -> (n: usize)
        ensures
            n == count_fatal_v(self.deep_view()),
    {
        let mut n: usize = 0;
        let mut i: usize = 0;
        while i < self.errors.len()
            invariant
                i <= self.errors.len(),
                n == count_fatal_v(self.deep_view().take(i as int)),
                n <= i,
            decreases self.errors.len() - i,
        {
            proof {
                assert(self.deep_view().take(i + 1).drop_last() =~= self.deep_view().take(
                    i as int,
                ));
                assert(self.deep_view().take(i + 1).last() == self.errors[i as int].deep_view());
            }
            if self.errors[i].fatal {
                n = n + 1;
            }
            i = i + 1;
        }
        proof {
            assert(self.deep_view().take(self.errors.len() as int) =~= self.deep_view());
        }
        n
    }

    /// Whether any recorded diagnostic is fatal.
    pub fn is_fatal(&self) -> (r: bool)
        ensures
            r == (count_fatal_v(self.deep_view()) > 0),
    {
        let n = self.count_fatal();
        n > 0
    }
}

} // verus!
