//! What is reported about a piece of source code.

use vstd::prelude::*;

use crate::collections::views;
use crate::collections::option_view;
use crate::collections::lemma_views_push;
use crate::word::copy_word;
use crate::word::copy_words;
use crate::word::Word;

verus! {

/// A stretch of a source file: the file and the offsets of its two ends.
#[derive(Clone, Copy, Debug, PartialEq, Eq, Structural)]
pub struct Span {
    pub file: u64,
    pub start: u32,
    pub end: u32,
}

impl View for Span {
    type V = Span;

    open spec fn view(&self) -> Span {
        *self
    }
}

#[derive(Clone, Copy, Debug, PartialEq, Eq, Structural)]
pub enum Level {
    Help,
    Error,
}

/// The kind of a problem.
#[derive(Clone, Copy, Debug, PartialEq, Eq, Structural)]
pub enum IssueCode {
    MissingConstructor,
    UninitializedProperty,
    MalformedDocblockComment,
    InvalidTemplateTag,
    CircularTypeImport,
    InvalidTypeTag,
    InvalidExtendsTag,
    InvalidImplementsTag,
    InvalidRequireExtendsTag,
    InvalidRequireImplementsTag,
    InvalidInheritorsTag,
    InvalidMixinTag,
    InvalidPropertyTag,
    InvalidUseTag,
}

/// A remark on a stretch of source code.
pub struct Annotation {
    pub is_primary: bool,
    pub span: Span,
    pub message: Word,
}

#[verifier::ext_equal]
pub struct AnnotationView {
    pub is_primary: bool,
    pub span: Span,
    pub message: Seq<u8>,
}

impl View for Annotation {
    type V = AnnotationView;

    open spec fn view(&self) -> AnnotationView {
        AnnotationView { is_primary: self.is_primary, span: self.span, message: self.message@ }
    }
}

impl Annotation {
    pub fn primary(span: Span, message: Word) -> (a: Annotation)
        ensures
            a@ == primary_annotation(span, message@),
    {
        Annotation { is_primary: true, span, message }
    }

    pub fn secondary(span: Span, message: Word) -> (a: Annotation)
        ensures
            a@ == secondary_annotation(span, message@),
    {
        Annotation { is_primary: false, span, message }
    }
}

pub open spec fn primary_annotation(span: Span, message: Seq<u8>) -> AnnotationView {
    AnnotationView { is_primary: true, span, message }
}

pub open spec fn secondary_annotation(span: Span, message: Seq<u8>) -> AnnotationView {
    AnnotationView { is_primary: false, span, message }
}

/// A problem that was found in source code.
pub struct Issue {
    pub level: Level,
    pub code: Option<IssueCode>,
    pub message: Word,
    pub annotations: Vec<Annotation>,
    pub notes: Vec<Word>,
    pub help: Option<Word>,
}

#[verifier::ext_equal]
pub struct IssueView {
    pub level: Level,
    pub code: Option<IssueCode>,
    pub message: Seq<u8>,
    pub annotations: Seq<AnnotationView>,
    pub notes: Seq<Seq<u8>>,
    pub help: Option<Seq<u8>>,
}

impl View for Issue {
    type V = IssueView;

    open spec fn view(&self) -> IssueView {
        IssueView {
            level: self.level,
            code: self.code,
            message: self.message@,
            annotations: views(self.annotations@),
            notes: views(self.notes@),
            help: option_view(self.help),
        }
    }
}

impl IssueView {
    /// An issue of which only the level and the message are known.
    pub open spec fn new(level: Level, message: Seq<u8>) -> IssueView {
        IssueView { level, code: None, message, annotations: Seq::empty(), notes: Seq::empty(), help: None }
    }

    pub open spec fn with_code(self, code: IssueCode) -> IssueView {
        IssueView { code: Some(code), ..self }
    }

    pub open spec fn with_annotation(self, annotation: AnnotationView) -> IssueView {
        IssueView { annotations: self.annotations.push(annotation), ..self }
    }

    pub open spec fn with_note(self, note: Seq<u8>) -> IssueView {
        IssueView { notes: self.notes.push(note), ..self }
    }

    pub open spec fn with_help(self, help: Seq<u8>) -> IssueView {
        IssueView { help: Some(help), ..self }
    }
}

impl Issue {
    pub fn new(level: Level, message: Word) -> (issue: Issue)
        ensures
            issue@ == IssueView::new(level, message@),
    {
        let issue = Issue { level, code: None, message, annotations: Vec::new(), notes: Vec::new(), help: None };
        assert(issue@ =~= IssueView::new(level, message@));
        issue
    }

    pub fn error(message: Word) -> (issue: Issue)
        ensures
            issue@ == IssueView::new(Level::Error, message@),
    {
        Issue::new(Level::Error, message)
    }

    pub fn with_code(self, code: IssueCode) -> (issue: Issue)
        ensures
            issue@ == self@.with_code(code),
    {
        Issue { code: Some(code), ..self }
    }

    pub fn with_annotation(self, annotation: Annotation) -> (issue: Issue)
        ensures
            issue@ == self@.with_annotation(annotation@),
    {
        let mut annotations: Vec<Annotation> = self.annotations;
        annotations.push(annotation);
        let issue = Issue { annotations, ..self };
        assert(issue@ =~= self@.with_annotation(annotation@));
        issue
    }

    pub fn with_note(self, note: Word) -> (issue: Issue)
        ensures
            issue@ == self@.with_note(note@),
    {
        let mut notes: Vec<Word> = self.notes;
        notes.push(note);
        let issue = Issue { notes, ..self };
        assert(issue@ =~= self@.with_note(note@));
        issue
    }

    pub fn with_help(self, help: Word) -> (issue: Issue)
        ensures
            issue@ == self@.with_help(help@),
    {
        Issue { help: Some(help), ..self }
    }
}

impl Annotation {
    pub fn copy(&self) -> (a: Annotation)
        ensures
            a@ == self@,
    {
        Annotation { is_primary: self.is_primary, span: self.span, message: copy_word(self.message.as_slice()) }
    }
}

impl Issue {
    pub fn copy(&self) -> (issue: Issue)
        ensures
            issue@ == self@,
    {
        broadcast use lemma_views_push;

        let mut annotations: Vec<Annotation> = Vec::new();
        let mut i: usize = 0;
        assert(views(annotations@) =~= views(self.annotations@).take(0));
        while i < self.annotations.len()
            invariant
                i <= self.annotations@.len(),
                views(annotations@) == views(self.annotations@).take(i as int),
            decreases self.annotations@.len() - i,
        {
            let ghost before = views(annotations@);
            annotations.push(self.annotations[i].copy());
            assert(views(annotations@) == before.push(views(self.annotations@)[i as int]));
            i = i + 1;
            assert(views(annotations@) =~= views(self.annotations@).take(i as int));
        }
        assert(views(self.annotations@).take(i as int) =~= views(self.annotations@));
        let help: Option<Word> = match &self.help {
            Some(help) => Some(copy_word(help.as_slice())),
            None => None,
        };
        let issue = Issue {
            level: self.level,
            code: self.code,
            message: copy_word(self.message.as_slice()),
            annotations,
            notes: copy_words(&self.notes),
            help,
        };
        assert(issue@ =~= self@);
        issue
    }
}

} // verus!
