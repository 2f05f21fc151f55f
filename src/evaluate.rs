use vstd::prelude::*;

use crate::hint::{Hint, Hints};
use crate::word::{Word, WORD_LEN};

verus! {

/// How many of the first `n` positions of `s` hold `x`.
pub open spec fn count_upto<A>(s: Seq<A>, x: A, n: int) -> nat
    decreases n,
{
    if n <= 0 {
        0
    } else {
        count_upto(s, x, n - 1) + if s[n - 1] == x {
            1nat
        } else {
            0nat
        }
    }
}

/// How many positions before `i` hold letter `c` in the guess without matching
/// the truth there: the earlier claims on an occurrence of `c` in the truth.
pub open spec fn unplaced_before(g: Seq<char>, t: Seq<char>, c: char, i: int) -> nat
    decreases i,
{
    if i <= 0 {
        0
    } else {
        unplaced_before(g, t, c, i - 1) + if g[i - 1] != t[i - 1] && g[i - 1] == c {
            1nat
        } else {
            0nat
        }
    }
}

/// The hint at position `i`: exact where the letters agree; otherwise the letter
/// finds an occurrence in the truth as long as the earlier unplaced positions with
/// the same letter have not used them all up.
pub open spec fn hint_at(g: Seq<char>, t: Seq<char>, i: int) -> Hint {
    if g[i] == t[i] {
        Hint::Exact
    } else if unplaced_before(g, t, g[i], i) < count_upto(t, g[i], t.len() as int) {
        Hint::Exist
    } else {
        Hint::Missing
    }
}

/// The hint pattern of guess `g` against truth `t`.
pub open spec fn hints_spec(g: Seq<char>, t: Seq<char>) -> Seq<Hint> {
    Seq::new(g.len(), |i: int| hint_at(g, t, i))
}

/// Writing `v` at `f` changes the count of `x` by what left and what came.
pub proof fn lemma_count_update<A>(s: Seq<A>, f: int, v: A, x: A, n: int)
    requires
        0 <= f < s.len(),
        0 <= n <= s.len(),
    ensures
        count_upto(s.update(f, v), x, n) as int == count_upto(s, x, n) as int
            - (if f < n && s[f] == x { 1int } else { 0int })
            + (if f < n && v == x { 1int } else { 0int }),
    decreases n,
{
    if n > 0 {
        lemma_count_update(s, f, v, x, n - 1);
    }
}

/// Where no position before `n` holds `x`, the count is zero.
pub proof fn lemma_count_absent<A>(s: Seq<A>, x: A, n: int)
    requires
        0 <= n <= s.len(),
        forall|k: int| 0 <= k < n ==> s[k] != x,
    ensures
        count_upto(s, x, n) == 0,
    decreases n,
{
    if n > 0 {
        lemma_count_absent(s, x, n - 1);
    }
}

/// The first position of the working copy that still holds `c`.
fn first_remaining(work: &[Option<char>; 5], c: char) -> (r: Option<usize>)
    ensures
        r matches Some(f) ==> f < WORD_LEN && work@[f as int] == Some(c) && forall|k: int|
            0 <= k < f ==> work@[k] != Some(c),
        r is None ==> forall|k: int| 0 <= k < WORD_LEN ==> work@[k] != Some(c),
{
    let mut f: usize = 0;
    while f < WORD_LEN
        invariant
            f <= WORD_LEN,
            forall|k: int| 0 <= k < f ==> work@[k] != Some(c),
        decreases WORD_LEN - f,
    {
        match work[f] {
            Some(d) => {
                if d == c {
                    return Some(f);
                }
            },
            None => {},
        }
        f = f + 1;
    }
    None
}

/// Compares a guess with a truth and gives the hint for each position of the guess.
///
/// Exact matches are found first. Then each other position, in order, claims the
/// first occurrence of its letter in the truth that no earlier position claimed.
pub fn check(guess: Word, truth: Word) -> (r: Hints)
    ensures
        r@ == hints_spec(guess@, truth@),
{
    let ghost g = guess@;
    let ghost t = truth@;
    let mut hints = Hints([Hint::Missing;5]);
    let mut i: usize = 0;
    while i < WORD_LEN
        invariant
            i <= WORD_LEN,
            g == guess@,
            t == truth@,
            hints@.len() == WORD_LEN,
            forall|j: int|
                0 <= j < i ==> hints@[j] == (if g[j] == t[j] {
                    Hint::Exact
                } else {
                    Hint::Missing
                }),
            forall|j: int| i <= j < WORD_LEN ==> hints@[j] == Hint::Missing,
        decreases WORD_LEN - i,
    {
        if guess.0[i] == truth.0[i] {
            hints.0[i] = Hint::Exact;
        }
        i = i + 1;
    }
    let mut work: [Option<char>; 5] = [
        Some(truth.0[0]),
        Some(truth.0[1]),
        Some(truth.0[2]),
        Some(truth.0[3]),
        Some(truth.0[4]),
    ];
    assert forall|c: char| #[trigger]
        count_upto(work@, Some(c), 5) == count_upto(t, c, 5) by {
        reveal_with_fuel(count_upto, 6);
    }
    i = 0;
    while i < WORD_LEN
        invariant
            i <= WORD_LEN,
            g == guess@,
            t == truth@,
            hints@.len() == WORD_LEN,
            work@.len() == WORD_LEN,
            forall|k: int| 0 <= k < WORD_LEN ==> work@[k] == None::<char> || work@[k] == Some(t[k]),
            forall|c: char|
                #![trigger count_upto(t, c, 5)]
                count_upto(work@, Some(c), 5) + if unplaced_before(g, t, c, i as int) < count_upto(
                    t,
                    c,
                    5,
                ) {
                    unplaced_before(g, t, c, i as int)
                } else {
                    count_upto(t, c, 5)
                } == count_upto(t, c, 5),
            forall|j: int| 0 <= j < i ==> hints@[j] == hint_at(g, t, j),
            forall|j: int|
                i <= j < WORD_LEN ==> hints@[j] == if g[j] == t[j] {
                    Hint::Exact
                } else {
                    Hint::Missing
                },
        decreases WORD_LEN - i,
    {
        let c = guess.0[i];
        if c != truth.0[i] {
            assert(count_upto(t, c, 5) == count_upto(t, c, t.len() as int));
            match first_remaining(&work, c) {
                Some(f) => {
                    let ghost before = work@;
                    hints.0[i] = Hint::Exist;
                    work[f] = None;
                    assert forall|d: char|
                        #![trigger count_upto(t, d, 5)]
                        count_upto(work@, Some(d), 5) as int == count_upto(before, Some(d), 5) as int
                            - if d == c {
                            1int
                        } else {
                            0int
                        } by {
                        lemma_count_update(before, f as int, None, Some(d), 5);
                        assert(work@ == before.update(f as int, None));
                    }
                },
                None => {
                    proof {
                        lemma_count_absent(work@, Some(c), 5);
                    }
                },
            }
        }
        i = i + 1;
    }
    assert(hints@ =~= hints_spec(g, t));
    hints
}

/// The count of `x` among the first `n` positions is its multiplicity in that prefix.
pub proof fn lemma_count_multiset<A>(s: Seq<A>, x: A, n: int)
    requires
        0 <= n <= s.len(),
    ensures
        count_upto(s, x, n) == s.subrange(0, n).to_multiset().count(x),
    decreases n,
{
    broadcast use vstd::seq_lib::group_to_multiset_ensures;

    if n == 0 {
        assert(s.subrange(0, 0) =~= Seq::<A>::empty());
    } else {
        lemma_count_multiset(s, x, n - 1);
        assert(s.subrange(0, n) =~= s.subrange(0, n - 1).push(s[n - 1]));
    }
}

/// A count over a longer prefix is no smaller.
pub proof fn lemma_count_monotone<A>(s: Seq<A>, x: A, m: int, n: int)
    requires
        0 <= m <= n,
    ensures
        count_upto(s, x, m) <= count_upto(s, x, n),
    decreases n - m,
{
    if m < n {
        lemma_count_monotone(s, x, m, n - 1);
    }
}

/// The earlier claims on a letter are among its earlier occurrences in the guess.
pub proof fn lemma_unplaced_le_count(g: Seq<char>, t: Seq<char>, c: char, i: int)
    ensures
        unplaced_before(g, t, c, i) <= count_upto(g, c, i),
    decreases i,
{
    if i > 0 {
        lemma_unplaced_le_count(g, t, c, i - 1);
    }
}

/// A word checked against itself is exact at every position.
pub proof fn lemma_check_self(w: Word)
    ensures
        hints_spec(w@, w@).len() == WORD_LEN,
        forall|i: int| 0 <= i < WORD_LEN ==> #[trigger] hints_spec(w@, w@)[i] == Hint::Exact,
{
}

/// A guess that shares no letter with the truth is missing at every position.
pub proof fn lemma_check_disjoint(guess: Word, truth: Word)
    requires
        forall|i: int, j: int| 0 <= i < WORD_LEN && 0 <= j < WORD_LEN ==> guess@[i] != truth@[j],
    ensures
        hints_spec(guess@, truth@).len() == WORD_LEN,
        forall|i: int|
            0 <= i < WORD_LEN ==> #[trigger] hints_spec(guess@, truth@)[i] == Hint::Missing,
{
    assert forall|i: int| 0 <= i < WORD_LEN implies #[trigger] hints_spec(guess@, truth@)[i]
        == Hint::Missing by {
        lemma_count_absent(truth@, guess@[i], 5);
    }
}

/// Where the guess is a rearrangement of the truth's letters, every letter finds
/// a place: no position is missing.
pub proof fn lemma_check_anagram(guess: Word, truth: Word)
    requires
        guess@.to_multiset() == truth@.to_multiset(),
    ensures
        hints_spec(guess@, truth@).len() == WORD_LEN,
        forall|i: int|
            0 <= i < WORD_LEN ==> #[trigger] hints_spec(guess@, truth@)[i] != Hint::Missing,
{
    let g = guess@;
    let t = truth@;
    assert forall|i: int| 0 <= i < WORD_LEN implies #[trigger] hints_spec(g, t)[i]
        != Hint::Missing by {
        let c = g[i];
        lemma_count_multiset(g, c, 5);
        lemma_count_multiset(t, c, 5);
        assert(g.subrange(0, 5) =~= g);
        assert(t.subrange(0, 5) =~= t);
        lemma_unplaced_le_count(g, t, c, i);
        lemma_count_monotone(g, c, i + 1, 5);
    }
}

} // verus!
