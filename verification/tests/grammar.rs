use opgrammar::automaton::check;

#[test]
fn empty() {
    assert_eq!(check(""), true);
}

#[test]
fn db() {
    assert_eq!(check("db"), true);
}

#[test]
fn bd() {
    assert_eq!(check("bd"), false);
}

#[test]
fn dbaaaabcbb() {
    assert_eq!(check("dbaaaabcbb"), true)
}

#[test]
fn caaaaa() {
    assert_eq!(check("caaaaa"), true);
}

#[test]
fn aaaaa() {
    assert_eq!(check("aaaaa"), false);
}

#[test]
fn single_terminals() {
    assert_eq!(check("a"), true);
    assert_eq!(check("b"), true);
    assert_eq!(check("c"), true);
    assert_eq!(check("d"), true);
}

#[test]
fn rejected_pairs() {
    assert_eq!(check("ab"), false);
    assert_eq!(check("ba"), false);
}
