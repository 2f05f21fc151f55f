use wordle_entropy::{MalformedWord, Word, WORD_LEN};

#[test]
fn parse_five_letters() {
    let word = Word::parse("torus").unwrap();
    assert_eq!(word, Word::new(['t', 'o', 'r', 'u', 's']));
    assert_eq!(word.iter(), &['t', 'o', 'r', 'u', 's']);
    assert_eq!(word.iter().len(), WORD_LEN);
}

#[test]
fn parse_counts_characters_not_bytes() {
    let word = Word::parse("çafé!").unwrap();
    assert_eq!(word.0, ['ç', 'a', 'f', 'é', '!']);
}

#[test]
fn parse_short_is_malformed() {
    assert_eq!(Word::parse("tor"), Err(MalformedWord { length: 3 }));
    assert_eq!(Word::parse(""), Err(MalformedWord { length: 0 }));
}

#[test]
fn parse_long_is_malformed() {
    assert_eq!(Word::parse("toruses"), Err(MalformedWord { length: 7 }));
}

#[test]
fn from_str_agrees_with_parse() {
    assert_eq!("crane".parse::<Word>(), Word::parse("crane"));
    assert_eq!("cran".parse::<Word>(), Err(MalformedWord { length: 4 }));
}
