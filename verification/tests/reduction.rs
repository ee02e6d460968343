use opgrammar::automaton::{check_grammar, reduce};
use opgrammar::symbol::Symbol;

#[test]
fn reduce_d_to_b() {
    let mut stack = vec![Symbol::Marker, Symbol::d];
    assert_eq!(reduce(&mut stack), true);
    assert_eq!(stack, vec![Symbol::Marker, Symbol::B]);
}

#[test]
fn reduce_c_to_a() {
    let mut stack = vec![Symbol::Marker, Symbol::c];
    assert_eq!(reduce(&mut stack), true);
    assert_eq!(stack, vec![Symbol::Marker, Symbol::A]);
}

#[test]
fn reduce_two_symbol_handle_to_s() {
    // Top-down the handle pops as `b B`, which collapses to `S`.
    let mut stack = vec![Symbol::Marker, Symbol::B, Symbol::b];
    assert_eq!(reduce(&mut stack), true);
    assert_eq!(stack, vec![Symbol::Marker, Symbol::S]);
}

#[test]
fn reduce_unmatched_handle_fails() {
    // A lone `b` matches no rule: the handle is popped and nothing pushed.
    let mut stack = vec![Symbol::Marker, Symbol::b];
    assert_eq!(reduce(&mut stack), false);
    assert_eq!(stack, vec![Symbol::Marker]);
}

#[test]
fn chunked_input_carries_the_stack() {
    let mut stack = vec![Symbol::Marker];
    assert_eq!(check_grammar(&mut stack, &vec![Symbol::d]), true);
    assert_eq!(stack, vec![Symbol::Marker, Symbol::d]);
    assert_eq!(check_grammar(&mut stack, &vec![Symbol::b]), true);
    assert_eq!(stack, vec![Symbol::Marker, Symbol::B, Symbol::b]);
}

#[test]
fn rejection_leaves_the_stack_at_the_failure() {
    let mut stack = vec![Symbol::Marker];
    assert_eq!(check_grammar(&mut stack, &vec![Symbol::b, Symbol::d]), false);
    assert_eq!(stack, vec![Symbol::Marker]);
}
