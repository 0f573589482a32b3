//! Occurrence of one character sequence inside another, with the lemmas that
//! carry an occurrence through concatenation. Used to state that a rendered
//! text keeps what went into it: every recorded line stands in the
//! aggregated report, every object key in the pretty-printed document.

use vstd::prelude::*;

verus! {

/// `pat` occurs as one contiguous run somewhere in `s`.
pub open spec fn contains_seq(s: Seq<char>, pat: Seq<char>) -> bool {
    exists|k: int|
        0 <= k && k + pat.len() <= s.len() && #[trigger] s.subrange(k, k + pat.len() as int)
            == pat
}

/// A sequence occurs in itself.
pub proof fn lemma_contains_self(s: Seq<char>)
    ensures
        contains_seq(s, s),
{
    assert(s.subrange(0, 0 + s.len() as int) =~= s);
}

/// An occurrence survives appending on the right.
pub proof fn lemma_contains_extend_right(a: Seq<char>, b: Seq<char>, pat: Seq<char>)
    requires
        contains_seq(a, pat),
    ensures
        contains_seq(a + b, pat),
{
    let k = choose|k: int|
        0 <= k && k + pat.len() <= a.len() && #[trigger] a.subrange(k, k + pat.len() as int)
            == pat;
    assert((a + b).subrange(k, k + pat.len() as int) =~= a.subrange(k, k + pat.len() as int));
}

/// An occurrence survives prepending on the left.
pub proof fn lemma_contains_extend_left(a: Seq<char>, b: Seq<char>, pat: Seq<char>)
    requires
        contains_seq(b, pat),
    ensures
        contains_seq(a + b, pat),
{
    let k = choose|k: int|
        0 <= k && k + pat.len() <= b.len() && #[trigger] b.subrange(k, k + pat.len() as int)
            == pat;
    let j = a.len() as int + k;
    assert((a + b).subrange(j, j + pat.len() as int) =~= b.subrange(k, k + pat.len() as int));
}

} // verus!
