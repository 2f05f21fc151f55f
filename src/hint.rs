use vstd::prelude::*;
use vstd::string::*;

verus! {

/// The feedback given for one letter of a guess.
#[derive(Clone, Copy, PartialEq, Eq, Structural, Hash, Debug)]
pub enum Hint {
    /// The letter stands at this very position of the truth.
    Exact,
    /// The letter occurs elsewhere in the truth, not yet claimed.
    Exist,
    /// The letter does not occur, or all its occurrences are claimed.
    Missing,
}

impl Hint {
    /// The base-3 digit that stands for this hint in a pattern code.
    pub open spec fn digit_spec(self) -> nat {
        match self {
            Hint::Exact => 0,
            Hint::Exist => 1,
            Hint::Missing => 2,
        }
    }

    /// The glyph that shows this hint: a green, a yellow or a white square.
    pub open spec fn glyph_spec(self) -> Seq<char> {
        match self {
            Hint::Exact => "🟩"@,
            Hint::Exist => "🟨"@,
            Hint::Missing => "⬜️"@,
        }
    }

    /// The glyph that shows this hint.
    pub fn glyph(&self) -> (r: &'static str)
        ensures
            r@ == self.glyph_spec(),
    {
        match self {
            Hint::Exact => "🟩",
            Hint::Exist => "🟨",
            Hint::Missing => "⬜️",
        }
    }

    /// The digit of this hint in a pattern code.
    pub fn digit(&self) -> (r: u8)
        ensures
            r as nat == self.digit_spec(),
    {
        match self {
            Hint::Exact => 0,
            Hint::Exist => 1,
            Hint::Missing => 2,
        }
    }
}


/// The number of distinct hint patterns of a five-letter word: three to the fifth.
pub const PATTERN_COUNT: usize = 243;

/// The feedback for a whole guess: one hint per position.
#[derive(Clone, Copy, PartialEq, Eq, Hash, Debug)]
pub struct Hints(pub [Hint; 5]);

impl View for Hints {
    type V = Seq<Hint>;

    open spec fn view(&self) -> Seq<Hint> {
        self.0@
    }
}

/// The pattern read as a number in base three, the first position as the lowest digit.
pub open spec fn code_of(h: Seq<Hint>) -> nat
    decreases h.len(),
{
    if h.len() == 0 {
        0
    } else {
        h[0].digit_spec() + 3 * code_of(h.drop_first())
    }
}

/// Three to the power `n`.
pub open spec fn pow3(n: nat) -> nat
    decreases n,
{
    if n == 0 {
        1
    } else {
        3 * pow3((n - 1) as nat)
    }
}

/// A pattern of `n` hints has a code below three to the `n`.
pub proof fn lemma_code_bound(h: Seq<Hint>)
    ensures
        code_of(h) < pow3(h.len()),
    decreases h.len(),
{
    if h.len() > 0 {
        lemma_code_bound(h.drop_first());
        let c = code_of(h.drop_first());
        let p = pow3(h.drop_first().len());
        assert(3 * c + 3 <= 3 * p) by (nonlinear_arith)
            requires
                c < p,
        ;
    }
}

/// Two patterns of one length with the same code are the same pattern.
pub proof fn lemma_code_injective(a: Seq<Hint>, b: Seq<Hint>)
    requires
        a.len() == b.len(),
        code_of(a) == code_of(b),
    ensures
        a == b,
    decreases a.len(),
{
    if a.len() > 0 {
        let ca = code_of(a.drop_first());
        let cb = code_of(b.drop_first());
        let da = a[0].digit_spec();
        let db = b[0].digit_spec();
        assert(da == db && ca == cb) by (nonlinear_arith)
            requires
                da + 3 * ca == db + 3 * cb,
                da < 3,
                db < 3,
        ;
        lemma_code_injective(a.drop_first(), b.drop_first());
        assert(a =~= seq![a[0]] + a.drop_first());
        assert(b =~= seq![b[0]] + b.drop_first());
    }
}

/// The glyphs of the first `n` hints, one after another.
pub open spec fn render_spec(h: Seq<Hint>, n: int) -> Seq<char>
    decreases n,
{
    if n <= 0 {
        Seq::empty()
    } else {
        render_spec(h, n - 1) + h[n - 1].glyph_spec()
    }
}

impl Hints {
    /// Shows the pattern as one glyph per position.
    pub fn render(&self) -> (r: String)
        ensures
            r@ == render_spec(self@, 5),
    {
        let mut out = String::new();
        let mut i: usize = 0;
        while i < 5
            invariant
                i <= 5,
                out@ == render_spec(self@, i as int),
            decreases 5 - i,
        {
            out.append(self.0[i].glyph());
            i = i + 1;
        }
        out
    }

    /// The number that stands for this pattern, below `PATTERN_COUNT`.
    pub fn code(&self) -> (r: usize)
        ensures
            r == code_of(self@),
            r < PATTERN_COUNT,
    {
        let h = self.0;
        let d0 = h[0].digit() as usize;
        let d1 = h[1].digit() as usize;
        let d2 = h[2].digit() as usize;
        let d3 = h[3].digit() as usize;
        let d4 = h[4].digit() as usize;
        proof {
            let s = self@;
            assert(s.drop_first().drop_first().drop_first().drop_first().drop_first().len() == 0);
            reveal_with_fuel(code_of, 6);
        }
        d0 + 3 * (d1 + 3 * (d2 + 3 * (d3 + 3 * d4)))
    }
}

} // verus!
