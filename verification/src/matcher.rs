//! Case-insensitive substring search over bytes.
//!
//! Only the ASCII letters `A`..=`Z` are folded; every other byte, including
//! the bytes of multi-byte UTF-8 sequences, is compared as it stands.

use vstd::prelude::*;
use vstd::utf8::encode_utf8;

verus! {

/// The lower-case form of a byte: `A`..=`Z` become `a`..=`z`, all other
/// bytes stay as they are.
pub open spec fn fold_byte(b: u8) -> u8 {
    if 0x41 <= b <= 0x5a {
        (b + 0x20) as u8
    } else {
        b
    }
}

/// A byte sequence with every byte folded to lower case.
pub open spec fn fold(bytes: Seq<u8>) -> Seq<u8> {
    Seq::new(bytes.len(), |i: int| fold_byte(bytes[i]))
}

/// `target` occurs in `line` at offset `at`, ignoring ASCII case.
pub open spec fn matches_at(line: Seq<u8>, target: Seq<u8>, at: int) -> bool {
    &&& 0 <= at
    &&& at + target.len() <= line.len()
    &&& forall|k: int|
        0 <= k < target.len() ==> fold_byte(line[at + k]) == fold_byte(#[trigger] target[k])
}

/// `target` occurs somewhere in `line`, ignoring ASCII case. The empty
/// target occurs in every line; a target longer than the line in none.
pub open spec fn contains_folded(line: Seq<u8>, target: Seq<u8>) -> bool {
    exists|at: int| matches_at(line, target, at)
}

/// The search as it applies to text: both sides are taken as their UTF-8
/// bytes.
pub open spec fn text_contains(line: Seq<char>, target: Seq<char>) -> bool {
    contains_folded(encode_utf8(line), encode_utf8(target))
}

/// `a` and `b` are the same byte, or the upper- and lower-case form of one
/// ASCII letter.
pub open spec fn same_ignoring_case(a: u8, b: u8) -> bool {
    ||| a == b
    ||| 0x41 <= a <= 0x5a && b == a + 0x20
    ||| 0x41 <= b <= 0x5a && a == b + 0x20
}

/// Folding a byte twice is the same as folding it once.
pub proof fn lemma_fold_byte_idempotent(b: u8)
    ensures
        fold_byte(fold_byte(b)) == fold_byte(b),
{
}

/// Two bytes fold to the same byte exactly when they are equal or are the two
/// cases of one ASCII letter: nothing but `A`..=`Z` is ever equated with
/// another byte.
pub proof fn lemma_fold_byte_equates_letter_cases_only(a: u8, b: u8)
    ensures
        fold_byte(a) == fold_byte(b) <==> same_ignoring_case(a, b),
{
}

/// A match at an offset carries over to any line and target with the same
/// folded forms.
proof fn lemma_match_carries_over(
    line: Seq<u8>,
    other_line: Seq<u8>,
    target: Seq<u8>,
    other_target: Seq<u8>,
    at: int,
)
    requires
        fold(line) == fold(other_line),
        fold(target) == fold(other_target),
        matches_at(line, target, at),
    ensures
        matches_at(other_line, other_target, at),
{
    assert(line.len() == fold(line).len());
    assert(other_line.len() == fold(other_line).len());
    assert(target.len() == fold(target).len());
    assert(other_target.len() == fold(other_target).len());
    assert forall|k: int| 0 <= k < other_target.len() implies fold_byte(other_line[at + k])
        == fold_byte(#[trigger] other_target[k]) by {
        assert(fold_byte(line[at + k]) == fold_byte(target[k]));
        assert(fold(line)[at + k] == fold_byte(line[at + k]));
        assert(fold(other_line)[at + k] == fold_byte(other_line[at + k]));
        assert(fold(target)[k] == fold_byte(target[k]));
        assert(fold(other_target)[k] == fold_byte(other_target[k]));
    }
}

/// The search sees a line and a target only through their folded forms:
/// changing the case of ASCII letters on either side never changes the
/// answer.
pub proof fn lemma_match_ignores_ascii_case(
    line: Seq<u8>,
    other_line: Seq<u8>,
    target: Seq<u8>,
    other_target: Seq<u8>,
)
    requires
        fold(line) == fold(other_line),
        fold(target) == fold(other_target),
    ensures
        contains_folded(line, target) == contains_folded(other_line, other_target),
{
    if contains_folded(line, target) {
        let at = choose|at: int| matches_at(line, target, at);
        lemma_match_carries_over(line, other_line, target, other_target, at);
    }
    if contains_folded(other_line, other_target) {
        let at = choose|at: int| matches_at(other_line, other_target, at);
        lemma_match_carries_over(other_line, line, other_target, target, at);
    }
}

/// Folding is idempotent on whole byte strings, so searching a line or for a
/// target that was folded beforehand gives the same answer.
pub proof fn lemma_match_of_folded(line: Seq<u8>, target: Seq<u8>)
    ensures
        fold(fold(line)) == fold(line),
        contains_folded(fold(line), target) == contains_folded(line, target),
        contains_folded(line, fold(target)) == contains_folded(line, target),
{
    assert(fold(fold(line)) =~= fold(line));
    assert(fold(fold(target)) =~= fold(target));
    lemma_match_ignores_ascii_case(fold(line), line, target, target);
    lemma_match_ignores_ascii_case(line, line, fold(target), target);
}

/// Folds one byte to lower case.
pub fn ascii_lower(b: u8) -> (folded: u8)
    ensures
        folded == fold_byte(b),
{
    if 0x41 <= b && b <= 0x5a {
        b + 0x20
    } else {
        b
    }
}

/// Folds a whole byte string to lower case.
pub fn fold_bytes(bytes: &[u8]) -> (folded: Vec<u8>)
    ensures
        folded@ == fold(bytes@),
{
    let mut folded: Vec<u8> = Vec::new();
    let mut i: usize = 0;
    while i < bytes.len()
        invariant
            i <= bytes.len(),
            folded@ == fold(bytes@.take(i as int)),
        decreases bytes.len() - i,
    {
        folded.push(ascii_lower(bytes[i]));
        i += 1;
        assert(folded@ =~= fold(bytes@.take(i as int)));
    }
    assert(bytes@.take(i as int) =~= bytes@);
    folded
}

/// Tells whether the folded target stands in `line` at offset `at`.
fn window_matches(line: &[u8], folded_target: &[u8], at: usize) -> (hit: bool)
    requires
        at + folded_target.len() <= line.len(),
    ensures
        hit == (forall|k: int|
            0 <= k < folded_target.len() ==> fold_byte(line@[at + k])
                == #[trigger] folded_target@[k]),
{
    let mut k: usize = 0;
    while k < folded_target.len()
        invariant
            k <= folded_target.len(),
            at + folded_target.len() <= line.len(),
            forall|j: int|
                0 <= j < k ==> fold_byte(line@[at + j]) == #[trigger] folded_target@[j],
        decreases folded_target.len() - k,
    {
        if ascii_lower(line[at + k]) != folded_target[k] {
            return false;
        }
        k += 1;
    }
    true
}

/// Case-insensitive substring search over bytes: `true` exactly when
/// `target` occurs in `line` at some offset once ASCII letters are folded.
pub fn bytes_contain_ignore_ascii_case(line: &[u8], target: &[u8]) -> (found: bool)
    ensures
        found == contains_folded(line@, target@),
{
    if target.len() == 0 {
        assert(matches_at(line@, target@, 0));
        return true;
    }
    if line.len() < target.len() {
        return false;
    }
    let folded = fold_bytes(target);
    let last: usize = line.len() - target.len();
    let mut at: usize = 0;
    while at <= last
        invariant
            0 < target.len() <= line.len(),
            last == line.len() - target.len(),
            at <= last + 1,
            folded@ == fold(target@),
            forall|j: int| 0 <= j < at ==> !matches_at(line@, target@, j),
        decreases last + 1 - at,
    {
        let hit = window_matches(line, folded.as_slice(), at);
        proof {
            assert(forall|k: int|
                0 <= k < target.len() ==> #[trigger] folded@[k] == fold_byte(target@[k]));
            if hit {
                assert forall|k: int| 0 <= k < target.len() implies fold_byte(line@[at + k])
                    == fold_byte(#[trigger] target@[k]) by {
                    assert(fold_byte(line@[at + k]) == folded@[k]);
                }
            } else {
                let k = choose|k: int|
                    0 <= k < folded.len() && fold_byte(line@[at + k]) != #[trigger] folded@[k];
                assert(fold_byte(line@[at + k]) != fold_byte(target@[k]));
            }
            assert(hit == matches_at(line@, target@, at as int));
        }
        if hit {
            return true;
        }
        at += 1;
    }
    false
}

/// Tells whether `haystack` contains `needle`, ignoring the case of ASCII
/// letters. Both are compared byte by byte in their UTF-8 form.
pub fn contains_ignore_ascii_case(haystack: &str, needle: &str) -> (found: bool)
    ensures
        found == text_contains(haystack@, needle@),
{
    bytes_contain_ignore_ascii_case(haystack.as_bytes(), needle.as_bytes())
}

/// Tells whether `line` contains `unistr(` in any mix of upper and lower
/// case.
pub fn contains_case_insensitive_unistr(line: &str) -> (found: bool)
    ensures
        found == text_contains(line@, "unistr("@),
{
    contains_ignore_ascii_case(line, "unistr(")
}

} // verus!
