//! What a cleaning run is configured with: the positions that are always
//! dropped, the pattern that marks a line for removal, and the number of
//! trailing lines to withhold.

use crate::matcher::contains_ignore_ascii_case;
use crate::matcher::text_contains;
use vstd::prelude::*;

verus! {

/// The pattern that the cleaning was first written for.
pub const DEFAULT_PATTERN: &'static str = "unistr(";

/// The rules of a run as mathematical values.
pub struct Rules {
    /// The 1-based positions whose lines are dropped whatever they hold.
    pub excluded: Set<nat>,
    /// A line that contains this text, ignoring ASCII case, is dropped.
    pub pattern: Seq<char>,
    /// How many of the last surviving lines are never written.
    pub trailing: nat,
}

/// What the rules say of one line at one position.
#[derive(Clone, Copy, Debug, PartialEq, Eq)]
pub enum Verdict {
    /// The position is excluded; the content was not looked at.
    ExcludedPosition,
    /// The position is allowed, and the line contains the pattern.
    MatchedPattern,
    /// Neither rule applies: the line enters the trailing window.
    Survives,
}

/// The positions listed in `positions`, as a set.
pub open spec fn position_set(positions: Seq<usize>) -> Set<nat> {
    Set::new(|p: nat| exists|i: int| 0 <= i < positions.len() && positions[i] == p)
}

/// The verdict on the line at 1-based `position`. Position comes first: an
/// excluded line is never matched against the pattern.
pub open spec fn verdict(rules: Rules, position: nat, line: Seq<char>) -> Verdict {
    if rules.excluded.contains(position) {
        Verdict::ExcludedPosition
    } else if text_contains(line, rules.pattern) {
        Verdict::MatchedPattern
    } else {
        Verdict::Survives
    }
}

/// Tells whether `position` is one of `excluded`.
pub fn is_excluded_position(position: usize, excluded: &[usize]) -> (hit: bool)
    ensures
        hit == position_set(excluded@).contains(position as nat),
{
    let mut i: usize = 0;
    while i < excluded.len()
        invariant
            i <= excluded.len(),
            forall|j: int| 0 <= j < i ==> excluded@[j] != position,
        decreases excluded.len() - i,
    {
        if excluded[i] == position {
            return true;
        }
        i += 1;
    }
    false
}

/// The configuration of a cleaning run.
pub struct FilterConfig {
    /// 1-based positions to drop regardless of content. Position 0 names no
    /// line.
    pub excluded_positions: Vec<usize>,
    /// Lines containing this text, ignoring ASCII case, are dropped. The
    /// empty pattern is contained in every line.
    pub pattern: String,
    /// The number of trailing surviving lines that are withheld.
    pub trailing_drop_count: usize,
}

impl View for FilterConfig {
    type V = Rules;

    open spec fn view(&self) -> Rules {
        Rules {
            excluded: position_set(self.excluded_positions@),
            pattern: self.pattern@,
            trailing: self.trailing_drop_count as nat,
        }
    }
}

impl FilterConfig {
    /// Gives the verdict on `line`, read as the `position`-th line of the
    /// input.
    pub fn judge(&self, position: usize, line: &str) -> (v: Verdict)
        ensures
            v == verdict(self@, position as nat, line@),
    {
        if is_excluded_position(position, self.excluded_positions.as_slice()) {
            Verdict::ExcludedPosition
        } else if contains_ignore_ascii_case(line, self.pattern.as_str()) {
            Verdict::MatchedPattern
        } else {
            Verdict::Survives
        }
    }
}

} // verus!
