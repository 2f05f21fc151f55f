use vstd::prelude::*;
use vstd::string::*;

verus! {

/// The number of letters in every word of the game.
pub const WORD_LEN: usize = 5;

/// A word of the game: exactly five letters, fixed by the array type.
#[derive(Clone, Copy, PartialEq, Eq, Hash, Debug)]
pub struct Word(pub [char; 5]);

impl View for Word {
    type V = Seq<char>;

    open spec fn view(&self) -> Seq<char> {
        self.0@
    }
}

/// A piece of text that does not hold exactly five characters.
#[derive(Clone, Copy, PartialEq, Eq, Structural, Hash, Debug)]
pub struct MalformedWord {
    /// How many characters the text held.
    pub length: usize,
}

impl Word {
    /// Builds a word from its five letters.
    pub fn new(word: [char; 5]) -> (r: Word)
        ensures
            r@ == word@,
    {
        Word(word)
    }

    /// The letters of the word, in order.
    pub fn iter(&self) -> (r: &[char])
        ensures
            r@ == self@,
            r@.len() == WORD_LEN,
    {
        self.0.as_slice()
    }

    /// Reads a word from text, which must hold exactly five characters.
    pub fn parse(s: &str) -> (r: Result<Word, MalformedWord>)
        ensures
            r is Ok <==> s@.len() == WORD_LEN,
            r matches Ok(w) ==> w@ == s@,
            r matches Err(e) ==> e.length as int == s@.len(),
    {
        let n = s.unicode_len();
        if n != WORD_LEN {
            return Err(MalformedWord { length: n });
        }
        let letters = [s.get_char(0), s.get_char(1), s.get_char(2), s.get_char(3), s.get_char(4)];
        let w = Word(letters);
        assert(w@ =~= s@);
        Ok(w)
    }
}

impl std::str::FromStr for Word {
    type Err = MalformedWord;

    fn from_str(s: &str) -> Result<Word, MalformedWord> {
        Word::parse(s)
    }
}

} // verus!
