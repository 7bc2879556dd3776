//! The feedback engine: the pure comparison of a guess against a secret.
//!
//! `exact` counts the positions where the two codes agree. The total number
//! of pegs a symbol value can earn is bounded by a multiset intersection:
//! a value occurring `k` times in the secret and `m` times in the guess
//! contributes `min(k, m)` pegs in all, and `misplaced` is that total minus
//! the exact matches.

use vstd::prelude::*;
use crate::game::Code;
use crate::rules::CodeLen;

verus! {

/// Number of positions at which the two codes hold the same symbol.
pub open spec fn exact_count(s: Seq<u8>, g: Seq<u8>) -> nat
    recommends
        s.len() == g.len(),
    decreases s.len(),
{
    if s.len() == 0 || g.len() == 0 {
        0
    } else {
        exact_count(s.drop_last(), g.drop_last()) + if s.last() == g.last() {
            1nat
        } else {
            0nat
        }
    }
}

/// Number of occurrences of the symbol `v` in `s`.
pub open spec fn count_occ(s: Seq<u8>, v: u8) -> nat
    decreases s.len(),
{
    if s.len() == 0 {
        0
    } else {
        count_occ(s.drop_last(), v) + if s.last() == v {
            1nat
        } else {
            0nat
        }
    }
}

/// The smaller of two counts.
pub open spec fn min_nat(a: nat, b: nat) -> nat {
    if a <= b {
        a
    } else {
        b
    }
}

/// Sum, over the symbol values below `n`, of the smaller occurrence count.
pub open spec fn match_count_upto(s: Seq<u8>, g: Seq<u8>, n: int) -> nat
    decreases n,
{
    if n <= 0 {
        0
    } else {
        match_count_upto(s, g, n - 1) + min_nat(
            count_occ(s, (n - 1) as u8),
            count_occ(g, (n - 1) as u8),
        )
    }
}

/// Total multiset-intersection matches: for every symbol value, the smaller
/// of its occurrence counts in the two codes, summed over the whole alphabet.
pub open spec fn match_count(s: Seq<u8>, g: Seq<u8>) -> nat {
    match_count_upto(s, g, 256)
}

/// Misplaced matches: the multiset-intersection total minus the exact matches.
pub open spec fn misplaced_count(s: Seq<u8>, g: Seq<u8>) -> nat {
    (match_count(s, g) - exact_count(s, g)) as nat
}

/// Sum of the occurrence counts of all symbol values below `n`.
spec fn sum_occ_upto(s: Seq<u8>, n: int) -> nat
    decreases n,
{
    if n <= 0 {
        0
    } else {
        sum_occ_upto(s, n - 1) + count_occ(s, (n - 1) as u8)
    }
}

/// Number of positions at which both codes hold exactly the symbol `v`.
spec fn exact_occ(s: Seq<u8>, g: Seq<u8>, v: u8) -> nat
    recommends
        s.len() == g.len(),
    decreases s.len(),
{
    if s.len() == 0 || g.len() == 0 {
        0
    } else {
        exact_occ(s.drop_last(), g.drop_last(), v) + if s.last() == g.last() && s.last() == v {
            1nat
        } else {
            0nat
        }
    }
}

/// Sum, over the symbol values below `n`, of the positions matching exactly on that value.
spec fn sum_exact_occ_upto(s: Seq<u8>, g: Seq<u8>, n: int) -> nat
    decreases n,
{
    if n <= 0 {
        0
    } else {
        sum_exact_occ_upto(s, g, n - 1) + exact_occ(s, g, (n - 1) as u8)
    }
}

proof fn lemma_count_occ_le_len(s: Seq<u8>, v: u8)
    ensures
        count_occ(s, v) <= s.len(),
    decreases s.len(),
{
    if s.len() > 0 {
        lemma_count_occ_le_len(s.drop_last(), v);
    }
}

proof fn lemma_sum_occ_empty(s: Seq<u8>, n: int)
    requires
        s.len() == 0,
    ensures
        sum_occ_upto(s, n) == 0,
    decreases n,
{
    if n > 0 {
        lemma_sum_occ_empty(s, n - 1);
    }
}

proof fn lemma_sum_occ_drop_last(s: Seq<u8>, n: int)
    requires
        s.len() > 0,
        n <= 256,
    ensures
        sum_occ_upto(s, n) == sum_occ_upto(s.drop_last(), n) + if (s.last() as int) < n {
            1int
        } else {
            0int
        },
    decreases n,
{
    if n > 0 {
        lemma_sum_occ_drop_last(s, n - 1);
    }
}

proof fn lemma_sum_occ_is_len(s: Seq<u8>)
    ensures
        sum_occ_upto(s, 256) == s.len(),
    decreases s.len(),
{
    if s.len() == 0 {
        lemma_sum_occ_empty(s, 256);
    } else {
        lemma_sum_occ_drop_last(s, 256);
        lemma_sum_occ_is_len(s.drop_last());
    }
}

proof fn lemma_match_upto_le_sum_occ(s: Seq<u8>, g: Seq<u8>, n: int)
    ensures
        match_count_upto(s, g, n) <= sum_occ_upto(g, n),
    decreases n,
{
    if n > 0 {
        lemma_match_upto_le_sum_occ(s, g, n - 1);
    }
}

proof fn lemma_exact_occ_le(s: Seq<u8>, g: Seq<u8>, v: u8)
    ensures
        exact_occ(s, g, v) <= min_nat(count_occ(s, v), count_occ(g, v)),
    decreases s.len(),
{
    if s.len() > 0 && g.len() > 0 {
        lemma_exact_occ_le(s.drop_last(), g.drop_last(), v);
    }
}

proof fn lemma_sum_exact_upto_le_match(s: Seq<u8>, g: Seq<u8>, n: int)
    ensures
        sum_exact_occ_upto(s, g, n) <= match_count_upto(s, g, n),
    decreases n,
{
    if n > 0 {
        lemma_sum_exact_upto_le_match(s, g, n - 1);
        lemma_exact_occ_le(s, g, (n - 1) as u8);
    }
}

proof fn lemma_sum_exact_empty(s: Seq<u8>, g: Seq<u8>, n: int)
    requires
        s.len() == 0 || g.len() == 0,
    ensures
        sum_exact_occ_upto(s, g, n) == 0,
    decreases n,
{
    if n > 0 {
        lemma_sum_exact_empty(s, g, n - 1);
    }
}

proof fn lemma_sum_exact_drop_last(s: Seq<u8>, g: Seq<u8>, n: int)
    requires
        s.len() > 0,
        g.len() > 0,
        n <= 256,
    ensures
        sum_exact_occ_upto(s, g, n) == sum_exact_occ_upto(s.drop_last(), g.drop_last(), n)
            + if s.last() == g.last() && (s.last() as int) < n {
            1int
        } else {
            0int
        },
    decreases n,
{
    if n > 0 {
        lemma_sum_exact_drop_last(s, g, n - 1);
    }
}

proof fn lemma_sum_exact_is_exact(s: Seq<u8>, g: Seq<u8>)
    ensures
        sum_exact_occ_upto(s, g, 256) == exact_count(s, g),
    decreases s.len(),
{
    if s.len() == 0 || g.len() == 0 {
        lemma_sum_exact_empty(s, g, 256);
    } else {
        lemma_sum_exact_drop_last(s, g, 256);
        lemma_sum_exact_is_exact(s.drop_last(), g.drop_last());
    }
}

proof fn lemma_match_upto_sym(s: Seq<u8>, g: Seq<u8>, n: int)
    ensures
        match_count_upto(s, g, n) == match_count_upto(g, s, n),
    decreases n,
{
    if n > 0 {
        lemma_match_upto_sym(s, g, n - 1);
    }
}

proof fn lemma_exact_sym(s: Seq<u8>, g: Seq<u8>)
    ensures
        exact_count(s, g) == exact_count(g, s),
    decreases s.len(),
{
    if s.len() > 0 && g.len() > 0 {
        lemma_exact_sym(s.drop_last(), g.drop_last());
    }
}

proof fn lemma_exact_self(s: Seq<u8>)
    ensures
        exact_count(s, s) == s.len(),
    decreases s.len(),
{
    if s.len() > 0 {
        lemma_exact_self(s.drop_last());
    }
}

proof fn lemma_match_upto_self(s: Seq<u8>, n: int)
    ensures
        match_count_upto(s, s, n) == sum_occ_upto(s, n),
    decreases n,
{
    if n > 0 {
        lemma_match_upto_self(s, n - 1);
    }
}

/// Law: for equal-length codes the exact count never exceeds the length, it
/// never exceeds the multiset-intersection total, and exact plus misplaced
/// equals that total, which itself is bounded by the length.
pub proof fn lemma_feedback_bounds(s: Seq<u8>, g: Seq<u8>)
    requires
        s.len() == g.len(),
    ensures
        exact_count(s, g) <= s.len(),
        exact_count(s, g) <= match_count(s, g),
        match_count(s, g) <= s.len(),
        exact_count(s, g) + misplaced_count(s, g) == match_count(s, g),
        exact_count(s, g) + misplaced_count(s, g) <= s.len(),
{
    lemma_sum_exact_is_exact(s, g);
    lemma_sum_exact_upto_le_match(s, g, 256);
    lemma_match_upto_le_sum_occ(s, g, 256);
    lemma_sum_occ_is_len(g);
}

/// Law: comparing any code against itself yields a full exact count and no
/// misplaced matches.
pub proof fn lemma_feedback_self(s: Seq<u8>)
    ensures
        exact_count(s, s) == s.len(),
        misplaced_count(s, s) == 0,
{
    lemma_exact_self(s);
    lemma_match_upto_self(s, 256);
    lemma_sum_occ_is_len(s);
}

/// Law: swapping secret and guess changes neither the exact count nor the
/// misplaced count, since position-wise equality and the multiset
/// intersection are both symmetric in the two codes.
pub proof fn lemma_feedback_symmetric(s: Seq<u8>, g: Seq<u8>)
    ensures
        exact_count(s, g) == exact_count(g, s),
        match_count(s, g) == match_count(g, s),
        misplaced_count(s, g) == misplaced_count(g, s),
{
    lemma_exact_sym(s, g);
    lemma_match_upto_sym(s, g, 256);
}

/// Feedback for one guess: the exact and misplaced match counts.
#[derive(Debug, Clone, Copy, PartialEq, Eq)]
pub struct Feedback {
    exact: CodeLen,
    misplaced: CodeLen,
}

impl View for Feedback {
    type V = (nat, nat);

    closed spec fn view(&self) -> (nat, nat) {
        (self.exact as nat, self.misplaced as nat)
    }
}

/// Occurrences of the symbol `v` in `code`.
fn count_in(code: &Code, v: u8) -> (c: usize)
    ensures
        c == count_occ(code@, v),
        c <= code@.len(),
{
    let mut c: usize = 0;
    let mut i: usize = 0;
    while i < code.len()
        invariant
            i <= code@.len(),
            c == count_occ(code@.take(i as int), v),
            c <= i,
        decreases code@.len() - i,
    {
        proof {
            assert(code@.take(i + 1).drop_last() =~= code@.take(i as int));
        }
        if code[i] == v {
            c = c + 1;
        }
        i = i + 1;
    }
    proof {
        assert(code@.take(code@.len() as int) =~= code@);
    }
    c
}

impl Feedback {
    /// Compare a guess against a secret of the same length.
    ///
    /// The two codes must have equal length; that precondition is the
    /// caller's to ensure, as is the machine bound that the length fits the
    /// count type.
    pub fn new(secret: &Code, guess: &Code) -> (r: Feedback)
        requires
            secret@.len() == guess@.len(),
            secret@.len() <= u8::MAX,
        ensures
            r@ == (exact_count(secret@, guess@), misplaced_count(secret@, guess@)),
    {
        let n = secret.len();
        let mut exact: usize = 0;
        let mut i: usize = 0;
        while i < n
            invariant
                n == secret@.len(),
                n == guess@.len(),
                i <= n,
                exact == exact_count(secret@.take(i as int), guess@.take(i as int)),
                exact <= i,
            decreases n - i,
        {
            proof {
                assert(secret@.take(i + 1).drop_last() =~= secret@.take(i as int));
                assert(guess@.take(i + 1).drop_last() =~= guess@.take(i as int));
            }
            if secret[i] == guess[i] {
                exact = exact + 1;
            }
            i = i + 1;
        }
        proof {
            assert(secret@.take(n as int) =~= secret@);
            assert(guess@.take(n as int) =~= guess@);
        }

        let mut total: usize = 0;
        let mut v: usize = 0;
        while v < 256
            invariant
                n == secret@.len(),
                n == guess@.len(),
                n <= 255,
                v <= 256,
                total == match_count_upto(secret@, guess@, v as int),
                total <= 255 * v,
            decreases 256 - v,
        {
            let cs = count_in(secret, v as u8);
            let cg = count_in(guess, v as u8);
            let m = if cs <= cg {
                cs
            } else {
                cg
            };
            proof {
                lemma_count_occ_le_len(guess@, v as u8);
            }
            total = total + m;
            v = v + 1;
        }

        proof {
            lemma_feedback_bounds(secret@, guess@);
        }
        let misplaced = total - exact;
        Feedback { exact: exact as u8, misplaced: misplaced as u8 }
    }

    /// Count of positions where the guess matched the secret exactly.
    pub fn exact(&self) -> (r: CodeLen)
        ensures
            r as nat == self@.0,
    {
        self.exact
    }

    /// Count of guessed symbols present in the secret but not exactly placed.
    pub fn misplaced(&self) -> (r: CodeLen)
        ensures
            r as nat == self@.1,
    {
        self.misplaced
    }

    /// Per-turn score: ten points per exact match, five per misplaced match.
    pub fn score(&self) -> (r: u16)
        ensures
            r as nat == self@.0 * 10 + self@.1 * 5,
    {
        (self.exact as u16) * 10 + (self.misplaced as u16) * 5
    }
}

} // verus!
