use opgrammar::session::Recognizer;
use opgrammar::symbol::classify_str;

#[test]
fn fresh_session_is_not_accepting() {
    // The stack holds the bare marker, not marker-then-S.
    let rec = Recognizer::new();
    assert_eq!(rec.accepted(), false);
}

#[test]
fn chunks_compose_like_one_run() {
    let mut whole = Recognizer::new();
    assert_eq!(whole.feed(&classify_str("db").unwrap()), true);

    let mut parts = Recognizer::new();
    assert_eq!(parts.feed(&classify_str("d").unwrap()), true);
    assert_eq!(parts.feed(&classify_str("b").unwrap()), true);

    assert_eq!(whole.accepted(), parts.accepted());
}

#[test]
fn rejection_is_idempotent() {
    let mut rec = Recognizer::new();
    assert_eq!(rec.feed(&classify_str("bd").unwrap()), false);
    // Feeding more input after a rejection changes nothing.
    assert_eq!(rec.feed(&classify_str("db").unwrap()), false);
    assert_eq!(rec.accepted(), false);
}

#[test]
fn same_input_twice_gives_the_same_verdict() {
    let mut first = Recognizer::new();
    let mut second = Recognizer::new();
    let input = classify_str("caaaaa").unwrap();
    assert_eq!(first.feed(&input), second.feed(&input));
    assert_eq!(first.accepted(), second.accepted());
}
