use crate::location::FileLocation;
use vstd::prelude::*;

verus! {

/// One thing reported while processing a program.
pub enum ReportView {
    Diagnostic { start: FileLocation, end: FileLocation, message: Seq<char> },
    Message { message: Seq<char> },
}

pub open spec fn is_diagnostic(r: ReportView) -> bool {
    r is Diagnostic
}

/// Whether a history of reports holds at least one diagnostic.
pub open spec fn spec_has_diagnostics(reports: Seq<ReportView>) -> bool {
    exists|i: int| 0 <= i < reports.len() && is_diagnostic(#[trigger] reports[i])
}

pub open spec fn diagnostic(start: FileLocation, end: FileLocation, message: Seq<char>) -> ReportView {
    ReportView::Diagnostic { start, end, message }
}

pub open spec fn message(message: Seq<char>) -> ReportView {
    ReportView::Message { message }
}

/// `after` keeps every report of `before`, in its place, and may add more.
pub open spec fn extends(before: Seq<ReportView>, after: Seq<ReportView>) -> bool {
    &&& before.len() <= after.len()
    &&& forall|i: int| 0 <= i < before.len() ==> #[trigger] after[i] == before[i]
}

pub proof fn lemma_extends_trans(a: Seq<ReportView>, b: Seq<ReportView>, c: Seq<ReportView>)
    requires
        extends(a, b),
        extends(b, c),
    ensures
        extends(a, c),
{
    assert forall|i: int| 0 <= i < a.len() implies #[trigger] c[i] == a[i] by {
        assert(c[i] == b[i]);
    }
}

/// Receives the diagnostics and messages that scanning, parsing, resolving and
/// interpreting produce.  `reports` is the history of what it received.
pub trait Reporter {
    spec fn reports(&self) -> Seq<ReportView>;

    fn add_diagnostic(&mut self, start: &FileLocation, end: &FileLocation, message: &str)
        ensures
            final(self).reports() == old(self).reports().push(diagnostic(*start, *end, message@)),
    ;

    fn add_message(&mut self, message: &str)
        ensures
            final(self).reports() == old(self).reports().push(ReportView::Message { message: message@ }),
    ;

    fn has_diagnostics(&self) -> (r: bool)
        ensures
            r == spec_has_diagnostics(self.reports()),
    ;
}

/// A stored report.
pub enum Report {
    Diagnostic { start: FileLocation, end: FileLocation, message: String },
    Message { message: String },
}

impl View for Report {
    type V = ReportView;

    open spec fn view(&self) -> ReportView {
        match self {
            Report::Diagnostic { start, end, message } => ReportView::Diagnostic {
                start: *start,
                end: *end,
                message: message@,
            },
            Report::Message { message } => ReportView::Message { message: message@ },
        }
    }
}

impl Report {
    pub fn is_diagnostic(&self) -> (r: bool)
        ensures
            r == is_diagnostic(self@),
    {
        match self {
            Report::Diagnostic { .. } => true,
            Report::Message { .. } => false,
        }
    }

    /// The text of the report.
    pub fn text(&self) -> (r: &str)
        ensures
            r@ == match self@ {
                ReportView::Diagnostic { message, .. } => message,
                ReportView::Message { message } => message,
            },
    {
        match self {
            Report::Diagnostic { message, .. } => message.as_str(),
            Report::Message { message } => message.as_str(),
        }
    }
}

/// A reporter that keeps every report, in order.
pub struct Collector {
    pub reports: Vec<Report>,
}

pub open spec fn reports_view(v: Seq<Report>) -> Seq<ReportView> {
    v.map_values(|r: Report| r@)
}

impl Collector {
    pub fn new() -> (c: Self)
        ensures
            c.reports() == Seq::<ReportView>::empty(),
    {
        let c = Collector { reports: Vec::new() };
        assert(reports_view(c.reports@) =~= Seq::<ReportView>::empty());
        c
    }

    /// Forgets every report.
    pub fn reset(&mut self)
        ensures
            final(self).reports() == Seq::<ReportView>::empty(),
    {
        self.reports = Vec::new();
        assert(reports_view(self.reports@) =~= Seq::<ReportView>::empty());
    }

    pub fn len(&self) -> (n: usize)
        ensures
            n == self.reports().len(),
    {
        self.reports.len()
    }

    /// Whether a message with the text `text` was reported.
    pub fn has_message(&self, text: &str) -> (r: bool)
        ensures
            r == exists|i: int|
                0 <= i < self.reports().len() && #[trigger] self.reports()[i] == message(text@),
    {
        let mut i: usize = 0;
        while i < self.reports.len()
            invariant
                0 <= i <= self.reports.len(),
                forall|j: int| 0 <= j < i ==> #[trigger] self.reports()[j] != message(text@),
            decreases self.reports.len() - i,
        {
            if !self.reports[i].is_diagnostic() && crate::token::str_equal(self.reports[i].text(), text) {
                assert(self.reports()[i as int] == message(text@));
                return true;
            }
            i = i + 1;
        }
        false
    }

    /// Whether a diagnostic with the text `text` was reported.
    pub fn has_diagnostic(&self, text: &str) -> (r: bool)
        ensures
            r == exists|i: int|
                0 <= i < self.reports().len() && #[trigger] is_diagnostic(self.reports()[i])
                    && self.reports()[i]->Diagnostic_message == text@,
    {
        let mut i: usize = 0;
        while i < self.reports.len()
            invariant
                0 <= i <= self.reports.len(),
                forall|j: int|
                    0 <= j < i ==> !(#[trigger] is_diagnostic(self.reports()[j])
                        && self.reports()[j]->Diagnostic_message == text@),
            decreases self.reports.len() - i,
        {
            if self.reports[i].is_diagnostic() && crate::token::str_equal(self.reports[i].text(), text) {
                assert(is_diagnostic(self.reports()[i as int]));
                return true;
            }
            i = i + 1;
        }
        false
    }

    /// Whether a diagnostic with the text `text`, from `start` to `end`, was reported.
    pub fn has_diagnostic_at(&self, start: &FileLocation, end: &FileLocation, text: &str) -> (r:
        bool)
        ensures
            r == exists|i: int|
                0 <= i < self.reports().len() && #[trigger] self.reports()[i] == diagnostic(
                    *start,
                    *end,
                    text@,
                ),
    {
        let mut i: usize = 0;
        while i < self.reports.len()
            invariant
                0 <= i <= self.reports.len(),
                forall|j: int|
                    0 <= j < i ==> #[trigger] self.reports()[j] != diagnostic(*start, *end, text@),
            decreases self.reports.len() - i,
        {
            match &self.reports[i] {
                Report::Diagnostic { start: s, end: e, message } => {
                    if *s == *start && *e == *end && crate::token::str_equal(message.as_str(), text) {
                        assert(self.reports()[i as int] == diagnostic(*start, *end, text@));
                        return true;
                    }
                },
                Report::Message { .. } => {},
            }
            i = i + 1;
        }
        false
    }
}

impl Reporter for Collector {
    open spec fn reports(&self) -> Seq<ReportView> {
        reports_view(self.reports@)
    }

    fn add_diagnostic(&mut self, start: &FileLocation, end: &FileLocation, message: &str) {
        self.reports.push(
            Report::Diagnostic { start: *start, end: *end, message: String::from_str(message) },
        );
        assert(reports_view(self.reports@) =~= reports_view(old(self).reports@).push(
            diagnostic(*start, *end, message@),
        ));
    }

    fn add_message(&mut self, message: &str) {
        self.reports.push(Report::Message { message: String::from_str(message) });
        assert(reports_view(self.reports@) =~= reports_view(old(self).reports@).push(
            ReportView::Message { message: message@ },
        ));
    }

    fn has_diagnostics(&self) -> (r: bool) {
        let mut i: usize = 0;
        while i < self.reports.len()
            invariant
                0 <= i <= self.reports.len(),
                forall|j: int| 0 <= j < i ==> !is_diagnostic(#[trigger] self.reports()[j]),
            decreases self.reports.len() - i,
        {
            if self.reports[i].is_diagnostic() {
                assert(is_diagnostic(self.reports()[i as int]));
                return true;
            }
            i = i + 1;
        }
        false
    }
}

/// Hands every report of `collected` on to `reporter`, in order.
pub fn forward<R: Reporter>(reporter: &mut R, collected: &Collector)
    ensures
        final(reporter).reports() == old(reporter).reports() + collected.reports(),
{
    let mut i: usize = 0;
    while i < collected.reports.len()
        invariant
            0 <= i <= collected.reports.len(),
            reporter.reports() == old(reporter).reports() + collected.reports().take(i as int),
        decreases collected.reports.len() - i,
    {
        match &collected.reports[i] {
            Report::Diagnostic { start, end, message } => {
                reporter.add_diagnostic(start, end, message.as_str());
            },
            Report::Message { message } => {
                reporter.add_message(message.as_str());
            },
        }
        assert(collected.reports().take(i + 1) =~= collected.reports().take(i as int).push(
            collected.reports()[i as int],
        ));
        i = i + 1;
    }
    assert(collected.reports().take(i as int) =~= collected.reports());
}

} // verus!
