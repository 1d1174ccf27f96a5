use vstd::prelude::*;

use crate::span::Span;

verus! {

/// How severe a report is. Ordered Silent < Error < Warn < Advice; the order
/// serves filtering only.
#[derive(Clone, Copy, Debug, PartialEq, Eq, Structural)]
pub enum ReportLevel {
    Silent,
    Error,
    Warn,
    Advice,
}

/// The position of a level in the order of levels.
pub open spec fn level_rank(l: ReportLevel) -> nat {
    match l {
        ReportLevel::Silent => 0,
        ReportLevel::Error => 1,
        ReportLevel::Warn => 2,
        ReportLevel::Advice => 3,
    }
}

impl ReportLevel {
    pub fn rank(self) -> (r: u8)
        ensures
            r == level_rank(self),
    {
        match self {
            ReportLevel::Silent => 0,
            ReportLevel::Error => 1,
            ReportLevel::Warn => 2,
            ReportLevel::Advice => 3,
        }
    }

    /// Whether `self` comes at or after `other` in the order of levels.
    pub fn at_least(self, other: ReportLevel) -> (r: bool)
        ensures
            r == (level_rank(self) >= level_rank(other)),
    {
        self.rank() >= other.rank()
    }
}

/// The colour a label is drawn in, when it is not that of the report's level.
#[derive(Clone, Copy, Debug, PartialEq, Eq, Structural)]
pub enum Color {
    Red,
    Yellow,
    Blue,
    BrightBlue,
}

/// A span of source to point at, with an optional message and colour.
pub struct Label {
    pub span: Span,
    pub message: Option<String>,
    pub color: Option<Color>,
}

/// The model of a `Label`.
pub struct LabelModel {
    pub span: Span,
    pub message: Option<Seq<char>>,
    pub color: Option<Color>,
}

/// A diagnostic record: severity, title, labelled spans, and optional help and note.
pub struct Report {
    pub level: ReportLevel,
    pub title: String,
    pub help: Option<String>,
    pub note: Option<String>,
    pub labels: Vec<Label>,
}

/// The model of a `Report`.
pub struct ReportModel {
    pub level: ReportLevel,
    pub title: Seq<char>,
    pub help: Option<Seq<char>>,
    pub note: Option<Seq<char>>,
    pub labels: Seq<LabelModel>,
}

pub open spec fn opt_text(s: Option<String>) -> Option<Seq<char>> {
    match s {
        Some(t) => Some(t@),
        None => None,
    }
}

impl View for Label {
    type V = LabelModel;

    open spec fn view(&self) -> LabelModel {
        LabelModel { span: self.span, message: opt_text(self.message), color: self.color }
    }
}

impl View for Report {
    type V = ReportModel;

    open spec fn view(&self) -> ReportModel {
        ReportModel {
            level: self.level,
            title: self.title@,
            help: opt_text(self.help),
            note: opt_text(self.note),
            labels: self.labels@.map_values(|l: Label| l@),
        }
    }
}

/// A label over `span` with no message and no colour of its own.
pub open spec fn plain_label(span: Span) -> LabelModel {
    LabelModel { span, message: None, color: None }
}

/// A label over `span` with a message.
pub open spec fn message_label(span: Span, m: Seq<char>) -> LabelModel {
    LabelModel { span, message: Some(m), color: None }
}

/// A blue label over `span`, pointing at the context of an error.
pub open spec fn context_label(span: Span) -> LabelModel {
    LabelModel { span, message: None, color: Some(Color::Blue) }
}

/// An error report with the given title and labels, and no help or note.
pub open spec fn error_model(title: Seq<char>, labels: Seq<LabelModel>) -> ReportModel {
    ReportModel { level: ReportLevel::Error, title, help: None, note: None, labels }
}

impl Label {
    pub fn new(span: Span) -> (r: Label)
        ensures
            r@ == plain_label(span),
    {
        Label { span, message: None, color: None }
    }

    pub fn with_message(self, message: String) -> (r: Label)
        ensures
            r@ == (LabelModel { message: Some(message@), ..self@ }),
    {
        Label { span: self.span, message: Some(message), color: self.color }
    }

    pub fn with_color(self, color: Color) -> (r: Label)
        ensures
            r@ == (LabelModel { color: Some(color), ..self@ }),
    {
        Label { span: self.span, message: self.message, color: Some(color) }
    }
}

impl Report {
    /// An error report with a title and no labels, help or note.
    pub fn error(title: String) -> (r: Report)
        ensures
            r@ == error_model(title@, Seq::empty()),
    {
        let r = Report { level: ReportLevel::Error, title, help: None, note: None, labels: Vec::new() };
        proof {
            assert(r@.labels =~= Seq::<LabelModel>::empty());
        }
        r
    }

    pub fn with_label(self, label: Label) -> (r: Report)
        ensures
            r@ == (ReportModel { labels: self@.labels.push(label@), ..self@ }),
    {
        let ghost old_labels = self@.labels;
        let ghost lm = label@;
        let mut labels = self.labels;
        labels.push(label);
        let r = Report { level: self.level, title: self.title, help: self.help, note: self.note, labels };
        proof {
            assert(r@.labels =~= old_labels.push(lm));
        }
        r
    }

    pub fn with_note(self, note: String) -> (r: Report)
        ensures
            r@ == (ReportModel { note: Some(note@), ..self@ }),
    {
        Report { level: self.level, title: self.title, help: self.help, note: Some(note), labels: self.labels }
    }

    pub fn with_help(self, help: String) -> (r: Report)
        ensures
            r@ == (ReportModel { help: Some(help@), ..self@ }),
    {
        Report { level: self.level, title: self.title, help: Some(help), note: self.note, labels: self.labels }
    }
}

/// Whether the caller must stop with a failure status.
#[derive(Clone, Copy, Debug, PartialEq, Eq, Structural)]
pub enum ExitStatus {
    No,
    Yes,
}

/// How reports are laid out when shown.
#[derive(Clone, Copy, Debug, PartialEq, Eq, Structural)]
pub struct ReportConfig {
    pub compact: bool,
    pub context: bool,
}

/// A report is shown when its level comes at or before the chosen one.
pub open spec fn displayed(display: ReportLevel, level: ReportLevel) -> bool {
    level_rank(display) >= level_rank(level)
}

/// Going through reports of the given levels, in order: the positions of those
/// shown, the number of errors, and the count of reports shown so far. A report
/// is shown when its level is displayed and fewer than `max` were shown.
pub open spec fn check_spec(levels: Seq<ReportLevel>, display: ReportLevel, max: nat, reported: nat) -> (Seq<nat>, nat, nat)
    decreases levels.len(),
{
    if levels.len() == 0 {
        (Seq::empty(), 0, reported)
    } else {
        let (shown, errors, rep) = check_spec(levels.drop_last(), display, max, reported);
        let l = levels.last();
        let errors2 = if l == ReportLevel::Error { errors + 1 } else { errors };
        if !displayed(display, l) || rep == max {
            (shown, errors2, rep)
        } else {
            (shown.push((levels.len() - 1) as nat), errors2, rep + 1)
        }
    }
}

/// Decides which reports are shown, up to a cap over the whole run.
pub struct ReportFilter {
    pub display: ReportLevel,
    pub max_reports: usize,
    pub reported: usize,
}

impl ReportFilter {
    pub fn new(display: ReportLevel, max_reports: usize) -> (r: ReportFilter)
        ensures
            r.display == display,
            r.max_reports == max_reports,
            r.reported == 0,
    {
        ReportFilter { display, max_reports, reported: 0 }
    }

    pub fn should_display(&self, level: ReportLevel) -> (r: bool)
        ensures
            r == displayed(self.display, level),
    {
        self.display.at_least(level)
    }

    /// Goes through a batch of reports by level: the positions of those to show
    /// and the number of errors among them all.
    pub fn check_reports(&mut self, levels: &Vec<ReportLevel>) -> (r: (Vec<usize>, usize))
        requires
            old(self).reported <= old(self).max_reports,
        ensures
            ({
                let (shown, errors, rep) = check_spec(levels@, old(self).display, old(self).max_reports as nat, old(self).reported as nat);
                &&& r.0@.map_values(|i: usize| i as nat) == shown
                &&& r.1 == errors
                &&& final(self).reported == rep
            }),
            final(self).display == old(self).display,
            final(self).max_reports == old(self).max_reports,
            final(self).reported <= final(self).max_reports,
    {
        let mut shown: Vec<usize> = Vec::new();
        let mut errors: usize = 0;
        let mut i: usize = 0;
        let n = levels.len();
        proof {
            assert(levels@.subrange(0, 0) =~= Seq::<ReportLevel>::empty());
        }
        while i < n
            invariant
                n == levels@.len(),
                i <= n,
                self.display == old(self).display,
                self.max_reports == old(self).max_reports,
                ({
                    let (sh, e, rep) = check_spec(levels@.subrange(0, i as int), self.display, self.max_reports as nat, old(self).reported as nat);
                    &&& shown@.map_values(|j: usize| j as nat) == sh
                    &&& errors == e
                    &&& self.reported == rep
                }),
                errors <= i,
                old(self).reported <= self.reported <= self.max_reports,
            decreases n - i,
        {
            let ghost sub = levels@.subrange(0, i + 1);
            assert(sub.drop_last() =~= levels@.subrange(0, i as int));
            let level = levels[i];
            if level == ReportLevel::Error {
                errors = errors + 1;
            }
            if self.should_display(level) && self.reported != self.max_reports {
                let ghost before = shown@.map_values(|j: usize| j as nat);
                shown.push(i);
                proof {
                    assert(shown@.map_values(|j: usize| j as nat) =~= before.push(i as nat));
                }
                self.reported = self.reported + 1;
            }
            i = i + 1;
        }
        proof {
            assert(levels@.subrange(0, n as int) =~= levels@);
        }
        (shown, errors)
    }
}

/// The status a batch with `errors` errors ends in.
pub fn exit_status(errors: usize) -> (r: ExitStatus)
    ensures
        r == (if errors > 0 { ExitStatus::Yes } else { ExitStatus::No }),
{
    if errors > 0 {
        ExitStatus::Yes
    } else {
        ExitStatus::No
    }
}

} // verus!
