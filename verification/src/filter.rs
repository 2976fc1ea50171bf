//! The streaming filter: lines go in one at a time, and each call hands
//! back the line, if any, that is now safe to write.
//!
//! A surviving line is held in a window of `trailing_drop_count` lines and
//! released only when a later survivor pushes it out, so the last survivors
//! of the input are never released.

use crate::config::FilterConfig;
use crate::config::Rules;
use crate::config::Verdict;
use crate::model::kept_lines;
use crate::model::lemma_every_line_accounted_for;
use crate::model::lemma_kept_lines_grow;
use crate::model::lemma_one_more_line;
use crate::model::released_by;
use crate::model::tally;
use crate::model::withheld_lines;
use crate::model::Tally;
use std::collections::VecDeque;
use vstd::prelude::*;

verus! {

/// The counts of a run.
#[derive(Clone, Copy, Debug, PartialEq, Eq)]
pub struct FilterReport {
    /// Lines read.
    pub total: usize,
    /// Lines released for writing.
    pub kept: usize,
    /// Lines read and not released: `total - kept`.
    pub dropped: usize,
    /// Lines dropped for their position.
    pub dropped_by_position: usize,
    /// Lines dropped for containing the pattern.
    pub dropped_by_pattern: usize,
    /// Survivors held back in the trailing window.
    pub withheld: usize,
}

impl View for FilterReport {
    type V = Tally;

    open spec fn view(&self) -> Tally {
        Tally {
            total: self.total as nat,
            kept: self.kept as nat,
            dropped: self.dropped as nat,
            dropped_by_position: self.dropped_by_position as nat,
            dropped_by_pattern: self.dropped_by_pattern as nat,
            withheld: self.withheld as nat,
        }
    }
}

/// A cleaning run in progress. Its view is the sequence of lines read so
/// far; everything else about it follows from that and the rules.
pub struct LineFilter {
    config: FilterConfig,
    window: VecDeque<String>,
    read: usize,
    kept: usize,
    by_position: usize,
    by_pattern: usize,
    seen: Ghost<Seq<Seq<char>>>,
}

impl View for LineFilter {
    type V = Seq<Seq<char>>;

    closed spec fn view(&self) -> Seq<Seq<char>> {
        self.seen@
    }
}

impl LineFilter {
    /// The rules that the filter was made with.
    pub closed spec fn rules(&self) -> Rules {
        self.config@
    }

    /// The lines in the trailing window, oldest first.
    pub closed spec fn window(&self) -> Seq<Seq<char>> {
        self.window.deep_view()
    }

    /// The counters and the window agree with the lines read so far.
    pub closed spec fn wf(&self) -> bool {
        &&& self.window.deep_view() == withheld_lines(self.config@, self.seen@)
        &&& self.read == self.seen@.len()
        &&& self.kept == tally(self.config@, self.seen@).kept
        &&& self.by_position == tally(self.config@, self.seen@).dropped_by_position
        &&& self.by_pattern == tally(self.config@, self.seen@).dropped_by_pattern
    }

    /// In a well-formed filter the window holds the withheld survivors of
    /// the lines read, so never more than `trailing` of them.
    pub proof fn lemma_window(&self)
        requires
            self.wf(),
        ensures
            self.window() == withheld_lines(self.rules(), self@),
            self.window().len() <= self.rules().trailing,
    {
    }

    /// Starts a run that has read nothing.
    pub fn new(config: FilterConfig) -> (filter: Self)
        ensures
            filter.wf(),
            filter.rules() == config@,
            filter@ == Seq::<Seq<char>>::empty(),
    {
        let filter = LineFilter {
            config,
            window: VecDeque::new(),
            read: 0,
            kept: 0,
            by_position: 0,
            by_pattern: 0,
            seen: Ghost(Seq::empty()),
        };
        assert(filter.window.deep_view() =~= withheld_lines(filter.config@, filter.seen@));
        filter
    }

    /// Reads one more line. Returns the line that this releases for
    /// writing: the oldest of the window, when `line` survives and the
    /// window was full; nothing otherwise.
    pub fn push_line(&mut self, line: String) -> (released: Option<String>)
        requires
            old(self).wf(),
            old(self)@.len() < usize::MAX,
        ensures
            final(self).wf(),
            final(self).rules() == old(self).rules(),
            final(self)@ == old(self)@.push(line@),
            released.deep_view() == released_by(old(self).rules(), old(self)@, line@),
    {
        let ghost rules = self.config@;
        let ghost before = self.seen@;
        let ghost held = self.window.deep_view();
        proof {
            lemma_one_more_line(rules, before, line@);
            lemma_kept_lines_grow(rules, before, line@);
            lemma_every_line_accounted_for(rules, before);
            lemma_every_line_accounted_for(rules, before.push(line@));
        }
        let position = self.read + 1;
        self.read = position;
        self.seen = Ghost(before.push(line@));
        match self.config.judge(position, line.as_str()) {
            Verdict::ExcludedPosition => {
                self.by_position = self.by_position + 1;
                None
            },
            Verdict::MatchedPattern => {
                self.by_pattern = self.by_pattern + 1;
                None
            },
            Verdict::Survives => {
                self.window.push_back(line);
                assert(self.window.deep_view() =~= held.push(line@));
                if self.window.len() > self.config.trailing_drop_count {
                    self.kept = self.kept + 1;
                    let oldest = self.window.pop_front();
                    assert(self.window.deep_view() =~= held.push(line@).skip(1));
                    oldest
                } else {
                    None
                }
            },
        }
    }

    /// The number of lines read so far.
    pub fn lines_read(&self) -> (n: usize)
        requires
            self.wf(),
        ensures
            n == self@.len(),
    {
        self.read
    }

    /// The counts so far. Every line read is in exactly one of `kept`,
    /// `dropped_by_position`, `dropped_by_pattern` and `withheld`.
    pub fn report(&self) -> (report: FilterReport)
        requires
            self.wf(),
        ensures
            report@ == tally(self.rules(), self@),
            report.kept + report.dropped_by_position + report.dropped_by_pattern
                + report.withheld == report.total,
            report.dropped == report.total - report.kept,
    {
        proof {
            lemma_every_line_accounted_for(self.config@, self.seen@);
        }
        FilterReport {
            total: self.read,
            kept: self.kept,
            dropped: self.read - self.kept,
            dropped_by_position: self.by_position,
            dropped_by_pattern: self.by_pattern,
            withheld: self.window.len(),
        }
    }
}

/// The lines to write and the counts of a run over a whole input.
pub struct FilterOutcome {
    /// The lines to write, in order.
    pub kept: Vec<String>,
    /// The counts of the run.
    pub report: FilterReport,
}

/// Cleans a whole input at once: the survivors of `lines` in their order,
/// without the last `trailing_drop_count` of them.
pub fn filter_lines(lines: &Vec<String>, config: FilterConfig) -> (outcome: FilterOutcome)
    ensures
        outcome.kept.deep_view() == kept_lines(config@, lines.deep_view()),
        outcome.report@ == tally(config@, lines.deep_view()),
{
    let ghost rules = config@;
    let ghost all = lines.deep_view();
    let mut filter = LineFilter::new(config);
    let mut kept: Vec<String> = Vec::new();
    let mut i: usize = 0;
    assert(kept.deep_view() =~= kept_lines(rules, filter@));
    while i < lines.len()
        invariant
            i <= lines.len(),
            all == lines.deep_view(),
            filter.wf(),
            filter.rules() == rules,
            filter@ == all.take(i as int),
            kept.deep_view() == kept_lines(rules, filter@),
        decreases lines.len() - i,
    {
        let line = lines[i].clone();
        let ghost before = filter@;
        let ghost written = kept.deep_view();
        proof {
            lemma_kept_lines_grow(rules, before, line@);
            assert(all.take(i as int).push(line@) =~= all.take(i + 1));
        }
        match filter.push_line(line) {
            Some(out) => {
                kept.push(out);
                assert(kept.deep_view() =~= written.push(out@));
            },
            None => {},
        }
        i += 1;
    }
    assert(all.take(i as int) =~= all);
    let report = filter.report();
    FilterOutcome { kept, report }
}

} // verus!
