//! Keyword matching that tolerates typos: the candidate token runs up to a
//! boundary, and is accepted when its normalized Damerau–Levenshtein
//! similarity to the keyword reaches a threshold.
use vstd::prelude::*;
use crate::text::{is_alpha, is_ws, opt_pos};

verus! {

/// The default threshold, in percent.
pub const DEFAULT_THRESHOLD_PERCENT: u64 = 80;

/// Where a candidate token ends.
#[derive(Clone, Copy, PartialEq, Eq, Debug)]
pub enum Boundary {
    /// At the next whitespace character.
    Space,
    /// At the next whitespace character or colon.
    ColonOrSpace,
    /// At the next character that is not an ASCII letter.
    NotAlpha,
}

pub open spec fn ends_token(b: Boundary, c: char) -> bool {
    match b {
        Boundary::Space => is_ws(c),
        Boundary::ColonOrSpace => c == ':' || is_ws(c),
        Boundary::NotAlpha => !is_alpha(c),
    }
}

/// The first position at or after `i` where the boundary holds, or the end.
pub open spec fn token_end(s: Seq<char>, i: int, b: Boundary) -> int
    decreases s.len() - i,
{
    if 0 <= i < s.len() && !ends_token(b, s[i]) {
        token_end(s, i + 1, b)
    } else {
        i
    }
}

/// The Damerau–Levenshtein distance between two character strings.
pub uninterp spec fn dl_distance(a: Seq<char>, b: Seq<char>) -> nat;

/// Similarity `1 - d / m` reaches `pct / 100`, where `m` is the longer
/// length; two empty strings are identical.
pub open spec fn similar_enough(a: Seq<char>, b: Seq<char>, pct: nat) -> bool {
    let m: nat = if a.len() >= b.len() { a.len() } else { b.len() };
    if m == 0 {
        true
    } else {
        100 * m >= pct * m + 100 * dl_distance(a, b)
    }
}

/// The end of the token at `i` when it matches `tag`, else `None`.
pub open spec fn fuzzy_at(s: Seq<char>, i: int, tag: Seq<char>, pct: nat, b: Boundary) -> Option<int> {
    let j = token_end(s, i, b);
    if similar_enough(s.subrange(i, j), tag, pct) {
        Some(j)
    } else {
        None
    }
}

pub proof fn lemma_token_end_bounds(s: Seq<char>, i: int, b: Boundary)
    requires
        0 <= i <= s.len(),
    ensures
        i <= token_end(s, i, b) <= s.len(),
    decreases s.len() - i,
{
    if i < s.len() && !ends_token(b, s[i]) {
        lemma_token_end_bounds(s, i + 1, b);
    }
}

/// Relies on `strsim::generic_damerau_levenshtein`: the Damerau–Levenshtein
/// distance between the two character slices.
#[verifier::external_body]
fn edit_distance(a: &[char], b: &[char]) -> (r: usize)
    ensures
        r as nat == dl_distance(a@, b@),
{
    strsim::generic_damerau_levenshtein(a, b)
}

fn is_boundary(b: Boundary, c: char) -> (r: bool)
    ensures
        r == ends_token(b, c),
{
    let ws = c == ' ' || c == '\t' || c == '\n' || c == '\x0C' || c == '\r';
    match b {
        Boundary::Space => ws,
        Boundary::ColonOrSpace => c == ':' || ws,
        Boundary::NotAlpha => !(('a' <= c && c <= 'z') || ('A' <= c && c <= 'Z')),
    }
}

/// Matches `tag` at position `pos` of `s`, allowing typos. The candidate runs
/// up to where `until` holds; it is accepted, and its end returned, when its
/// similarity to `tag` is at least `threshold_percent` / 100. A rejected
/// candidate consumes nothing.
pub fn typo_tag_with_dist(s: &Vec<char>, pos: usize, tag: &Vec<char>, threshold_percent: u64, until: Boundary) -> (r: Option<usize>)
    requires
        pos <= s@.len(),
        threshold_percent <= 100,
    ensures
        opt_pos(r) == fuzzy_at(s@, pos as int, tag@, threshold_percent as nat, until),
        r is Some ==> pos <= r->0 <= s@.len(),
{
    let mut j = pos;
    while j < s.len() && !is_boundary(until, s[j])
        invariant
            pos <= j <= s@.len(),
            token_end(s@, pos as int, until) == token_end(s@, j as int, until),
        decreases s@.len() - j,
    {
        j = j + 1;
    }
    proof {
        lemma_token_end_bounds(s@, j as int, until);
    }
    let cand = vstd::slice::slice_subrange(s.as_slice(), pos, j);
    let m = if cand.len() >= tag.len() { cand.len() } else { tag.len() };
    if m == 0 {
        return Some(j);
    }
    let d = edit_distance(cand, tag.as_slice());
    let lhs: u128 = 100 * (m as u128);
    assert((threshold_percent as u128) * (m as u128) <= 100 * 0x1_0000_0000_0000_0000u128)
        by (nonlinear_arith)
        requires
            threshold_percent <= 100,
            m <= 0xffff_ffff_ffff_ffffu128,
    ;
    let rhs: u128 = (threshold_percent as u128) * (m as u128) + 100 * (d as u128);
    if lhs >= rhs {
        Some(j)
    } else {
        None
    }
}

/// `typo_tag_with_dist` at the default threshold.
pub fn typo_tag(s: &Vec<char>, pos: usize, tag: &Vec<char>, until: Boundary) -> (r: Option<usize>)
    requires
        pos <= s@.len(),
    ensures
        opt_pos(r) == fuzzy_at(s@, pos as int, tag@, DEFAULT_THRESHOLD_PERCENT as nat, until),
        r is Some ==> pos <= r->0 <= s@.len(),
{
    typo_tag_with_dist(s, pos, tag, DEFAULT_THRESHOLD_PERCENT, until)
}

/// A candidate whose similarity to the tag equals the threshold is accepted,
/// and one whose similarity is below it is rejected. Here `m` is the longer
/// length and similarity is `(m - d) / m` for the distance `d`.
pub proof fn lemma_threshold_boundary(a: Seq<char>, b: Seq<char>, pct: nat)
    requires
        a.len() > 0 || b.len() > 0,
        dl_distance(a, b) <= (if a.len() >= b.len() { a.len() } else { b.len() }),
    ensures
        ({
            let m: nat = if a.len() >= b.len() { a.len() } else { b.len() };
            &&& 100 * (m - dl_distance(a, b)) == pct * m ==> similar_enough(a, b, pct)
            &&& 100 * (m - dl_distance(a, b)) < pct * m ==> !similar_enough(a, b, pct)
        }),
{
}

} // verus!
