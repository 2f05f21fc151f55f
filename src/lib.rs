pub mod distribution;
pub mod evaluate;
pub mod hint;
pub mod word;

pub use distribution::{distribution, distributions};
pub use evaluate::check;
pub use hint::{Hint, Hints, PATTERN_COUNT};
pub use word::{MalformedWord, Word, WORD_LEN};
