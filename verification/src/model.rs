//! What cleaning means, stated over whole inputs.
//!
//! A line survives when neither its position nor the pattern removes it.
//! The output is the survivors in their order, without the last `trailing`
//! of them.

use crate::config::verdict;
use crate::config::Rules;
use crate::config::Verdict;
use crate::matcher::text_contains;
use vstd::prelude::*;

verus! {

/// The lines of `lines` that neither rule removes, in their order. The line
/// `lines[i]` has position `i + 1`.
pub open spec fn survivors(rules: Rules, lines: Seq<Seq<char>>) -> Seq<Seq<char>>
    decreases lines.len(),
{
    if lines.len() == 0 {
        Seq::empty()
    } else {
        let earlier = survivors(rules, lines.drop_last());
        if verdict(rules, lines.len(), lines.last()) is Survives {
            earlier.push(lines.last())
        } else {
            earlier
        }
    }
}

/// How many lines of `lines` get the verdict `v`.
pub open spec fn count_verdict(rules: Rules, lines: Seq<Seq<char>>, v: Verdict) -> nat
    decreases lines.len(),
{
    if lines.len() == 0 {
        0
    } else {
        let earlier = count_verdict(rules, lines.drop_last(), v);
        if verdict(rules, lines.len(), lines.last()) == v {
            earlier + 1
        } else {
            earlier
        }
    }
}

/// How many lines are written: all survivors but the last `trailing`.
pub open spec fn kept_count(rules: Rules, lines: Seq<Seq<char>>) -> nat {
    let n = survivors(rules, lines).len();
    if n > rules.trailing {
        (n - rules.trailing) as nat
    } else {
        0
    }
}

/// The lines that are written, in the order in which they are written.
pub open spec fn kept_lines(rules: Rules, lines: Seq<Seq<char>>) -> Seq<Seq<char>> {
    survivors(rules, lines).take(kept_count(rules, lines) as int)
}

/// The survivors that are not written: the trailing window once `lines`
/// have been read.
pub open spec fn withheld_lines(rules: Rules, lines: Seq<Seq<char>>) -> Seq<Seq<char>> {
    survivors(rules, lines).skip(kept_count(rules, lines) as int)
}

/// The counts of a run over `lines`.
pub struct Tally {
    /// Lines read.
    pub total: nat,
    /// Lines written.
    pub kept: nat,
    /// Lines read and not written.
    pub dropped: nat,
    /// Lines dropped for their position.
    pub dropped_by_position: nat,
    /// Lines dropped for containing the pattern.
    pub dropped_by_pattern: nat,
    /// Survivors left in the trailing window.
    pub withheld: nat,
}

/// The counts of a run over `lines`.
pub open spec fn tally(rules: Rules, lines: Seq<Seq<char>>) -> Tally {
    Tally {
        total: lines.len(),
        kept: kept_count(rules, lines),
        dropped: (lines.len() - kept_count(rules, lines)) as nat,
        dropped_by_position: count_verdict(rules, lines, Verdict::ExcludedPosition),
        dropped_by_pattern: count_verdict(rules, lines, Verdict::MatchedPattern),
        withheld: withheld_lines(rules, lines).len(),
    }
}

/// The line that reading `line` after `seen` releases for writing, if any:
/// the one by which the kept lines grow.
pub open spec fn released_by(rules: Rules, seen: Seq<Seq<char>>, line: Seq<char>) -> Option<
    Seq<char>,
> {
    let after = seen.push(line);
    if kept_count(rules, after) > kept_count(rules, seen) {
        Some(kept_lines(rules, after).last())
    } else {
        None
    }
}

/// What one more line does to survivors and counts.
pub proof fn lemma_one_more_line(rules: Rules, seen: Seq<Seq<char>>, line: Seq<char>)
    ensures
        survivors(rules, seen.push(line)) == (if verdict(rules, seen.len() + 1, line)
            is Survives {
            survivors(rules, seen).push(line)
        } else {
            survivors(rules, seen)
        }),
        forall|v: Verdict|
            #[trigger] count_verdict(rules, seen.push(line), v) == count_verdict(rules, seen, v)
                + (if verdict(rules, seen.len() + 1, line) == v {
                1nat
            } else {
                0nat
            }),
{
    let after = seen.push(line);
    assert(after.drop_last() =~= seen);
    assert(after.last() == line);
}

/// Every line read is accounted for exactly once: it was written, dropped
/// for its position, dropped for the pattern, or is still in the trailing
/// window.
pub proof fn lemma_every_line_accounted_for(rules: Rules, lines: Seq<Seq<char>>)
    ensures
        kept_lines(rules, lines).len() + count_verdict(rules, lines, Verdict::ExcludedPosition)
            + count_verdict(rules, lines, Verdict::MatchedPattern) + withheld_lines(
            rules,
            lines,
        ).len() == lines.len(),
        survivors(rules, lines).len() + count_verdict(rules, lines, Verdict::ExcludedPosition)
            + count_verdict(rules, lines, Verdict::MatchedPattern) == lines.len(),
        kept_lines(rules, lines).len() == kept_count(rules, lines),
        kept_lines(rules, lines) + withheld_lines(rules, lines) == survivors(rules, lines),
    decreases lines.len(),
{
    if lines.len() > 0 {
        lemma_every_line_accounted_for(rules, lines.drop_last());
    }
}

/// The trailing window never holds more than `trailing` lines, and it is
/// full whenever anything has been written.
pub proof fn lemma_window_is_bounded(rules: Rules, lines: Seq<Seq<char>>)
    ensures
        withheld_lines(rules, lines).len() <= rules.trailing,
        kept_count(rules, lines) > 0 ==> withheld_lines(rules, lines).len() == rules.trailing,
{
}

/// Reading one more line leaves what was written as it is and adds at most
/// the released line to it.
pub proof fn lemma_kept_lines_grow(rules: Rules, seen: Seq<Seq<char>>, line: Seq<char>)
    ensures
        kept_lines(rules, seen.push(line)) == (match released_by(rules, seen, line) {
            Some(out) => kept_lines(rules, seen).push(out),
            None => kept_lines(rules, seen),
        }),
        released_by(rules, seen, line) is Some ==> verdict(rules, seen.len() + 1, line)
            is Survives && released_by(rules, seen, line) == Some(
            withheld_lines(rules, seen).push(line)[0],
        ),
        withheld_lines(rules, seen.push(line)) == (if verdict(rules, seen.len() + 1, line)
            is Survives {
            if released_by(rules, seen, line) is Some {
                withheld_lines(rules, seen).push(line).skip(1)
            } else {
                withheld_lines(rules, seen).push(line)
            }
        } else {
            withheld_lines(rules, seen)
        }),
        released_by(rules, seen, line) is Some <==> verdict(rules, seen.len() + 1, line)
            is Survives && withheld_lines(rules, seen).len() == rules.trailing,
{
    lemma_one_more_line(rules, seen, line);
    let after = seen.push(line);
    let before = survivors(rules, seen);
    let k = kept_count(rules, seen) as int;
    if verdict(rules, seen.len() + 1, line) is Survives {
        assert(survivors(rules, after) == before.push(line));
        if before.len() >= rules.trailing {
            assert(kept_count(rules, after) == k + 1);
            assert(before.push(line).take(k + 1) =~= before.take(k).push(before.push(line)[k]));
            assert(withheld_lines(rules, seen).push(line)[0] == before.push(line)[k]);
            assert(before.push(line).skip(k + 1) =~= before.skip(k).push(line).skip(1));
        } else {
            assert(kept_count(rules, after) == 0);
            assert(before.push(line).skip(0) =~= before.skip(0).push(line));
        }
    }
}

/// The 0-based indices in `lines` of the lines that survive, in rising
/// order.
pub open spec fn survivor_indices(rules: Rules, lines: Seq<Seq<char>>) -> Seq<int>
    decreases lines.len(),
{
    if lines.len() == 0 {
        Seq::empty()
    } else {
        let earlier = survivor_indices(rules, lines.drop_last());
        if verdict(rules, lines.len(), lines.last()) is Survives {
            earlier.push(lines.len() - 1)
        } else {
            earlier
        }
    }
}

/// `part` is made of the lines of `whole` at the indices `at`, which rise
/// strictly: `part` is `whole` with some lines left out and nothing moved.
pub open spec fn embeds_at(part: Seq<Seq<char>>, whole: Seq<Seq<char>>, at: Seq<int>) -> bool {
    &&& at.len() == part.len()
    &&& forall|k: int|
        0 <= k < at.len() ==> 0 <= #[trigger] at[k] < whole.len() && whole[at[k]] == part[k]
    &&& forall|j: int, k: int| 0 <= j < k < at.len() ==> at[j] < at[k]
}

/// The survivors are lines of the input in input order, and each
/// of them has the verdict `Survives` at its position.
pub proof fn lemma_survivors_in_input_order(rules: Rules, lines: Seq<Seq<char>>)
    ensures
        embeds_at(survivors(rules, lines), lines, survivor_indices(rules, lines)),
        forall|k: int|
            0 <= k < survivors(rules, lines).len() ==> verdict(
                rules,
                (#[trigger] survivor_indices(rules, lines)[k] + 1) as nat,
                survivors(rules, lines)[k],
            ) is Survives,
    decreases lines.len(),
{
    if lines.len() > 0 {
        let shorter = lines.drop_last();
        lemma_survivors_in_input_order(rules, shorter);
        let at = survivor_indices(rules, lines);
        let part = survivors(rules, lines);
        assert forall|k: int| 0 <= k < at.len() implies 0 <= #[trigger] at[k] < lines.len()
            && lines[at[k]] == part[k] by {
            if k < survivor_indices(rules, shorter).len() {
                assert(at[k] == survivor_indices(rules, shorter)[k]);
                assert(shorter[at[k]] == lines[at[k]]);
            }
        }
        assert forall|j: int, k: int| 0 <= j < k < at.len() implies at[j] < at[k] by {
            assert(at[j] == survivor_indices(rules, shorter)[j]);
            if k < survivor_indices(rules, shorter).len() {
                assert(at[k] == survivor_indices(rules, shorter)[k]);
            }
        }
        assert forall|k: int| 0 <= k < part.len() implies verdict(
            rules,
            (#[trigger] at[k] + 1) as nat,
            part[k],
        ) is Survives by {
            if k < survivor_indices(rules, shorter).len() {
                assert(at[k] == survivor_indices(rules, shorter)[k]);
                assert(part[k] == survivors(rules, shorter)[k]);
            }
        }
    }
}

/// The output keeps the order of the input: the kept lines are lines of
/// the input at rising indices. None of them stands at an excluded
/// position, and none of them contains the pattern.
pub proof fn lemma_kept_lines_in_input_order(rules: Rules, lines: Seq<Seq<char>>)
    ensures
        embeds_at(
            kept_lines(rules, lines),
            lines,
            survivor_indices(rules, lines).take(kept_count(rules, lines) as int),
        ),
        forall|k: int|
            0 <= k < kept_count(rules, lines) ==> !rules.excluded.contains(
                (#[trigger] survivor_indices(rules, lines)[k] + 1) as nat,
            ),
        forall|k: int|
            0 <= k < kept_count(rules, lines) ==> !text_contains(
                #[trigger] kept_lines(rules, lines)[k],
                rules.pattern,
            ),
{
    lemma_survivors_in_input_order(rules, lines);
    let at = survivor_indices(rules, lines);
    let part = survivors(rules, lines);
    assert forall|k: int| 0 <= k < kept_count(rules, lines) implies !rules.excluded.contains(
        (#[trigger] at[k] + 1) as nat,
    ) by {
        assert(verdict(rules, (at[k] + 1) as nat, part[k]) is Survives);
    }
    assert forall|k: int| 0 <= k < kept_count(rules, lines) implies !text_contains(
        #[trigger] kept_lines(rules, lines)[k],
        rules.pattern,
    ) by {
        assert(verdict(rules, (at[k] + 1) as nat, part[k]) is Survives);
    }
}

/// An input with fewer lines than the trailing window holds produces no
/// output: every surviving line is still in the window at the end.
pub proof fn lemma_short_input_keeps_nothing(rules: Rules, lines: Seq<Seq<char>>)
    requires
        lines.len() < rules.trailing,
    ensures
        kept_lines(rules, lines) == Seq::<Seq<char>>::empty(),
        withheld_lines(rules, lines) == survivors(rules, lines),
{
    lemma_every_line_accounted_for(rules, lines);
    assert(kept_lines(rules, lines) =~= Seq::<Seq<char>>::empty());
    assert(withheld_lines(rules, lines) =~= survivors(rules, lines));
}

/// The empty input produces no output and counts of zero, whatever the
/// rules.
pub proof fn lemma_empty_input(rules: Rules)
    ensures
        kept_lines(rules, Seq::empty()) == Seq::<Seq<char>>::empty(),
        tally(rules, Seq::empty()) == (Tally {
            total: 0,
            kept: 0,
            dropped: 0,
            dropped_by_position: 0,
            dropped_by_pattern: 0,
            withheld: 0,
        }),
{
    assert(kept_lines(rules, Seq::empty()) =~= Seq::<Seq<char>>::empty());
}

} // verus!
