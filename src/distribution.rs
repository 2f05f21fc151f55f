use vstd::prelude::*;

use crate::evaluate::{check, hints_spec};
use crate::hint::{code_of, lemma_code_bound, lemma_code_injective, pow3, PATTERN_COUNT};
use crate::word::{Word, WORD_LEN};

verus! {

/// The code of the pattern that truth `j` gives guess `g`.
pub open spec fn code_at(g: Seq<char>, ts: Seq<Word>, j: int) -> nat {
    code_of(hints_spec(g, ts[j]@))
}

/// How many of the first `n` truths give guess `g` the pattern with code `k`.
pub open spec fn tally_spec(g: Seq<char>, ts: Seq<Word>, k: nat, n: int) -> nat
    decreases n,
{
    if n <= 0 {
        0
    } else {
        tally_spec(g, ts, k, n - 1) + if code_at(g, ts, n - 1) == k {
            1nat
        } else {
            0nat
        }
    }
}

/// `r` holds, for each pattern code, how many truths give that pattern to `g`.
pub open spec fn is_distribution(g: Seq<char>, ts: Seq<Word>, r: Seq<usize>) -> bool {
    &&& r.len() == PATTERN_COUNT
    &&& forall|k: int| 0 <= k < PATTERN_COUNT ==> #[trigger] r[k] == tally_spec(g, ts, k as nat, ts.len() as int)
}

/// Every pattern code of a five-letter word is below `PATTERN_COUNT`.
pub proof fn lemma_code_at_bound(g: Seq<char>, ts: Seq<Word>, j: int)
    requires
        g.len() == WORD_LEN,
    ensures
        code_at(g, ts, j) < PATTERN_COUNT,
{
    lemma_code_bound(hints_spec(g, ts[j]@));
    reveal_with_fuel(pow3, 6);
}

/// No pattern is counted more often than there are truths.
pub proof fn lemma_tally_le(g: Seq<char>, ts: Seq<Word>, k: nat, n: int)
    requires
        0 <= n,
    ensures
        tally_spec(g, ts, k, n) <= n,
    decreases n,
{
    if n > 0 {
        lemma_tally_le(g, ts, k, n - 1);
    }
}

/// A pattern that no truth gives is counted zero times.
pub proof fn lemma_tally_none(g: Seq<char>, ts: Seq<Word>, k: nat, n: int)
    requires
        forall|j: int| 0 <= j < n ==> code_at(g, ts, j) != k,
    ensures
        tally_spec(g, ts, k, n) == 0,
    decreases n,
{
    if n > 0 {
        lemma_tally_none(g, ts, k, n - 1);
    }
}

/// A pattern is counted once per truth exactly when every truth gives it.
pub proof fn lemma_tally_full(g: Seq<char>, ts: Seq<Word>, k: nat, n: int)
    requires
        0 <= n,
    ensures
        tally_spec(g, ts, k, n) == n <==> forall|j: int| 0 <= j < n ==> code_at(g, ts, j) == k,
    decreases n,
{
    if n > 0 {
        lemma_tally_full(g, ts, k, n - 1);
        lemma_tally_le(g, ts, k, n - 1);
    }
}

/// A pattern that some truth gives is counted at least once.
pub proof fn lemma_tally_one(g: Seq<char>, ts: Seq<Word>, k: nat, n: int, j: int)
    requires
        0 <= j < n,
        code_at(g, ts, j) == k,
    ensures
        tally_spec(g, ts, k, n) >= 1,
    decreases n,
{
    if j < n - 1 {
        lemma_tally_one(g, ts, k, n - 1, j);
    }
}

/// A pattern that two truths give is counted at least twice.
pub proof fn lemma_tally_two(g: Seq<char>, ts: Seq<Word>, k: nat, n: int, i: int, j: int)
    requires
        0 <= i < j < n,
        code_at(g, ts, i) == k,
        code_at(g, ts, j) == k,
    ensures
        tally_spec(g, ts, k, n) >= 2,
    decreases n,
{
    if j < n - 1 {
        lemma_tally_two(g, ts, k, n - 1, i, j);
    } else {
        lemma_tally_one(g, ts, k, n - 1, i);
    }
}

/// Where no two truths give one pattern, no pattern is counted twice.
pub proof fn lemma_tally_distinct(g: Seq<char>, ts: Seq<Word>, k: nat, n: int)
    requires
        forall|i: int, j: int| 0 <= i < j < n ==> code_at(g, ts, i) != code_at(g, ts, j),
    ensures
        tally_spec(g, ts, k, n) <= 1,
    decreases n,
{
    if n > 0 {
        if code_at(g, ts, n - 1) == k {
            lemma_tally_none(g, ts, k, n - 1);
        } else {
            lemma_tally_distinct(g, ts, k, n - 1);
        }
    }
}

/// Counts, for each hint pattern, how many of the truths give it to `guess`.
///
/// The result is indexed by the pattern's code (see `Hints::code`).
pub fn distribution(guess: Word, truths: &Vec<Word>) -> (r: Vec<usize>)
    ensures
        is_distribution(guess@, truths@, r@),
{
    let ghost g = guess@;
    let ghost ts = truths@;
    let mut counts: Vec<usize> = Vec::new();
    let mut k: usize = 0;
    while k < PATTERN_COUNT
        invariant
            k <= PATTERN_COUNT,
            counts@.len() == k,
            forall|m: int| 0 <= m < k ==> counts@[m] == 0,
        decreases PATTERN_COUNT - k,
    {
        counts.push(0);
        k = k + 1;
    }
    let mut j: usize = 0;
    while j < truths.len()
        invariant
            j <= truths.len(),
            g == guess@,
            ts == truths@,
            counts@.len() == PATTERN_COUNT,
            forall|m: int|
                0 <= m < PATTERN_COUNT ==> #[trigger] counts@[m] == tally_spec(g, ts, m as nat, j as int),
        decreases truths.len() - j,
    {
        let h = check(guess, truths[j]);
        let code = h.code();
        proof {
            lemma_tally_le(g, ts, code as nat, j as int);
        }
        let c = counts[code];
        counts.set(code, c + 1);
        assert forall|m: int| 0 <= m < PATTERN_COUNT implies #[trigger] counts@[m] == tally_spec(
            g,
            ts,
            m as nat,
            j + 1,
        ) by {
            assert(code_at(g, ts, j as int) == code);
        }
        j = j + 1;
    }
    counts
}

/// Counts the pattern distribution of every guess against the truths, in the
/// order of the guesses.
pub fn distributions(guesses: &Vec<Word>, truths: &Vec<Word>) -> (r: Vec<Vec<usize>>)
    ensures
        r@.len() == guesses@.len(),
        forall|i: int|
            0 <= i < guesses@.len() ==> is_distribution(guesses@[i]@, truths@, #[trigger] r@[i]@),
{
    let mut all: Vec<Vec<usize>> = Vec::new();
    let mut i: usize = 0;
    while i < guesses.len()
        invariant
            i <= guesses.len(),
            all@.len() == i,
            forall|m: int| 0 <= m < i ==> is_distribution(guesses@[m]@, truths@, #[trigger] all@[m]@),
        decreases guesses.len() - i,
    {
        let d = distribution(guesses[i], truths);
        all.push(d);
        i = i + 1;
    }
    all
}

/// The counts are fixed by the guess and the truths alone: two runs on the same
/// lists give the same distribution.
pub proof fn lemma_distribution_deterministic(
    g: Seq<char>,
    ts: Seq<Word>,
    r1: Seq<usize>,
    r2: Seq<usize>,
)
    requires
        is_distribution(g, ts, r1),
        is_distribution(g, ts, r2),
    ensures
        r1 == r2,
{
    assert(r1 =~= r2);
}

/// Some pattern is counted once for every one of the `N > 0` truths (the entropy is
/// zero) exactly when every truth gives the guess the same pattern.
pub proof fn lemma_distribution_single(guess: Word, ts: Seq<Word>, r: Seq<usize>)
    requires
        ts.len() > 0,
        is_distribution(guess@, ts, r),
    ensures
        (exists|k: int| 0 <= k < PATTERN_COUNT && #[trigger] r[k] == ts.len()) <==> forall|
            i: int,
            j: int,
        |
            0 <= i < ts.len() && 0 <= j < ts.len() ==> #[trigger] hints_spec(guess@, ts[i]@)
                == #[trigger] hints_spec(guess@, ts[j]@),
{
    let g = guess@;
    let n = ts.len() as int;
    if exists|k: int| 0 <= k < PATTERN_COUNT && #[trigger] r[k] == ts.len() {
        let k = choose|k: int| 0 <= k < PATTERN_COUNT && #[trigger] r[k] == ts.len();
        lemma_tally_full(g, ts, k as nat, n);
        assert forall|i: int, j: int| 0 <= i < n && 0 <= j < n implies #[trigger] hints_spec(
            g,
            ts[i]@,
        ) == #[trigger] hints_spec(g, ts[j]@) by {
            assert(code_at(g, ts, i) == k && code_at(g, ts, j) == k);
            lemma_code_injective(hints_spec(g, ts[i]@), hints_spec(g, ts[j]@));
        }
    }
    if forall|i: int, j: int|
        0 <= i < n && 0 <= j < n ==> #[trigger] hints_spec(g, ts[i]@) == #[trigger] hints_spec(
            g,
            ts[j]@,
        ) {
        let k = code_at(g, ts, 0);
        lemma_code_at_bound(g, ts, 0);
        assert forall|j: int| 0 <= j < n implies code_at(g, ts, j) == k by {
            assert(hints_spec(g, ts[0]@) == hints_spec(g, ts[j]@));
        }
        lemma_tally_full(g, ts, k, n);
        assert(r[k as int] == ts.len());
    }
}

/// No pattern is counted twice (the entropy is the logarithm of `N`) exactly when
/// the truths give the guess pairwise distinct patterns.
pub proof fn lemma_distribution_distinct(guess: Word, ts: Seq<Word>, r: Seq<usize>)
    requires
        is_distribution(guess@, ts, r),
    ensures
        (forall|k: int| 0 <= k < PATTERN_COUNT ==> #[trigger] r[k] <= 1) <==> forall|i: int, j: int|
            0 <= i < j < ts.len() ==> #[trigger] hints_spec(guess@, ts[i]@) != #[trigger] hints_spec(
                guess@,
                ts[j]@,
            ),
{
    let g = guess@;
    let n = ts.len() as int;
    if forall|i: int, j: int|
        0 <= i < j < n ==> #[trigger] hints_spec(g, ts[i]@) != #[trigger] hints_spec(g, ts[j]@) {
        assert forall|i: int, j: int| 0 <= i < j < n implies code_at(g, ts, i) != code_at(
            g,
            ts,
            j,
        ) by {
            if code_at(g, ts, i) == code_at(g, ts, j) {
                lemma_code_injective(hints_spec(g, ts[i]@), hints_spec(g, ts[j]@));
            }
        }
        assert forall|k: int| 0 <= k < PATTERN_COUNT implies #[trigger] r[k] <= 1 by {
            lemma_tally_distinct(g, ts, k as nat, n);
        }
    }
    if forall|k: int| 0 <= k < PATTERN_COUNT ==> #[trigger] r[k] <= 1 {
        assert forall|i: int, j: int| 0 <= i < j < n implies #[trigger] hints_spec(g, ts[i]@)
            != #[trigger] hints_spec(g, ts[j]@) by {
            if hints_spec(g, ts[i]@) == hints_spec(g, ts[j]@) {
                let k = code_at(g, ts, i);
                lemma_code_at_bound(g, ts, i);
                lemma_tally_two(g, ts, k, n, i, j);
                assert(r[k as int] >= 2);
            }
        }
    }
}

/// The sum of the first `m` entries of `r`.
pub open spec fn sum_upto(r: Seq<usize>, m: int) -> nat
    decreases m,
{
    if m <= 0 {
        0
    } else {
        sum_upto(r, m - 1) + r[m - 1] as nat
    }
}

/// The counts of the first `m` codes over the first `n` truths, added up.
pub open spec fn tally_sum(g: Seq<char>, ts: Seq<Word>, m: int, n: int) -> nat
    decreases m,
{
    if m <= 0 {
        0
    } else {
        tally_sum(g, ts, m - 1, n) + tally_spec(g, ts, (m - 1) as nat, n)
    }
}

/// One more truth adds one to the sum over the codes below `m` just when its
/// code is among them.
pub proof fn lemma_tally_sum_step(g: Seq<char>, ts: Seq<Word>, m: int, n: int)
    requires
        0 <= m,
        0 < n,
    ensures
        tally_sum(g, ts, m, n) == tally_sum(g, ts, m, n - 1) + if code_at(g, ts, n - 1) < m {
            1nat
        } else {
            0nat
        },
    decreases m,
{
    if m > 0 {
        lemma_tally_sum_step(g, ts, m - 1, n);
    }
}

/// Every truth is counted under exactly one code.
pub proof fn lemma_tally_sum_total(g: Seq<char>, ts: Seq<Word>, n: int)
    requires
        g.len() == WORD_LEN,
        0 <= n,
    ensures
        tally_sum(g, ts, PATTERN_COUNT as int, n) == n,
    decreases n,
{
    if n > 0 {
        lemma_tally_sum_total(g, ts, n - 1);
        lemma_tally_sum_step(g, ts, PATTERN_COUNT as int, n);
        lemma_code_at_bound(g, ts, n - 1);
    } else {
        lemma_tally_sum_zero(g, ts, PATTERN_COUNT as int);
    }
}

/// With no truths every code is counted zero times.
pub proof fn lemma_tally_sum_zero(g: Seq<char>, ts: Seq<Word>, m: int)
    ensures
        tally_sum(g, ts, m, 0) == 0,
    decreases m,
{
    if m > 0 {
        lemma_tally_sum_zero(g, ts, m - 1);
    }
}

/// The counts of a distribution add up to the number of truths: the pattern
/// frequencies form a probability distribution.
pub proof fn lemma_distribution_total(guess: Word, ts: Seq<Word>, r: Seq<usize>)
    requires
        is_distribution(guess@, ts, r),
    ensures
        sum_upto(r, PATTERN_COUNT as int) == ts.len(),
{
    lemma_sum_matches(guess@, ts, r, PATTERN_COUNT as int);
    lemma_tally_sum_total(guess@, ts, ts.len() as int);
}

/// The entries of a distribution, added up, are the counts added up.
proof fn lemma_sum_matches(g: Seq<char>, ts: Seq<Word>, r: Seq<usize>, m: int)
    requires
        is_distribution(g, ts, r),
        0 <= m <= PATTERN_COUNT,
    ensures
        sum_upto(r, m) == tally_sum(g, ts, m, ts.len() as int),
    decreases m,
{
    if m > 0 {
        lemma_sum_matches(g, ts, r, m - 1);
    }
}

} // verus!
