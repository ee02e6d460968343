use opgrammar::symbol::{classify, classify_str, InvalidCharacter, Symbol};

#[test]
fn classify_alphabet() {
    assert_eq!(classify('a'), Ok(Symbol::a));
    assert_eq!(classify('b'), Ok(Symbol::b));
    assert_eq!(classify('c'), Ok(Symbol::c));
    assert_eq!(classify('d'), Ok(Symbol::d));
}

#[test]
fn classify_rejects_outside_alphabet() {
    // An invalid character is a typed failure naming the character, distinct
    // from a grammar rejection (which is a plain `false` verdict).
    assert_eq!(classify('h'), Err(InvalidCharacter { character: 'h' }));
    assert_eq!(classify('e'), Err(InvalidCharacter { character: 'e' }));
    assert_eq!(classify(' '), Err(InvalidCharacter { character: ' ' }));
}

#[test]
fn classify_str_tokenizes_valid_input() {
    assert_eq!(
        classify_str("abcd"),
        Ok(vec![Symbol::a, Symbol::b, Symbol::c, Symbol::d])
    );
    assert_eq!(classify_str(""), Ok(vec![]));
}

#[test]
fn classify_str_reports_first_invalid_character() {
    assert_eq!(classify_str("abxcy"), Err(InvalidCharacter { character: 'x' }));
    assert_eq!(classify_str("h"), Err(InvalidCharacter { character: 'h' }));
}
