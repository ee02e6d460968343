use opgrammar::symbol::{Relation, Symbol};
use opgrammar::table::order;

fn all_symbols() -> Vec<Symbol> {
    vec![
        Symbol::S,
        Symbol::B,
        Symbol::A,
        Symbol::E,
        Symbol::F,
        Symbol::a,
        Symbol::b,
        Symbol::c,
        Symbol::d,
        Symbol::Marker,
    ]
}

// The grammar's precedence table written out row by row, independently of the
// library's own lookup: the marker is `Less` than everything as left context,
// and everything is `Greater` than the marker as right operand.
fn expected(left: Symbol, right: Symbol) -> Relation {
    match left {
        Symbol::S => match right {
            Symbol::a | Symbol::b => Relation::Equal,
            Symbol::Marker => Relation::Greater,
            _ => Relation::Undefined,
        },
        Symbol::B => match right {
            Symbol::S | Symbol::B | Symbol::A | Symbol::c | Symbol::d => Relation::Less,
            Symbol::F | Symbol::b => Relation::Equal,
            Symbol::a | Symbol::Marker => Relation::Greater,
            Symbol::E => Relation::Undefined,
        },
        Symbol::A => match right {
            Symbol::S | Symbol::B | Symbol::A | Symbol::c | Symbol::d => Relation::Less,
            Symbol::E | Symbol::a => Relation::Equal,
            Symbol::b | Symbol::Marker => Relation::Greater,
            Symbol::F => Relation::Undefined,
        },
        Symbol::E => match right {
            Symbol::a => Relation::Equal,
            Symbol::Marker => Relation::Greater,
            _ => Relation::Undefined,
        },
        Symbol::F => match right {
            Symbol::b => Relation::Equal,
            Symbol::Marker => Relation::Greater,
            _ => Relation::Undefined,
        },
        Symbol::a | Symbol::b | Symbol::c | Symbol::d => match right {
            Symbol::a | Symbol::b | Symbol::c | Symbol::d | Symbol::Marker => Relation::Greater,
            Symbol::S | Symbol::B | Symbol::A | Symbol::E | Symbol::F => Relation::Undefined,
        },
        Symbol::Marker => Relation::Less,
    }
}

#[test]
fn table_covers_every_pair_exactly() {
    // Every ordered pair, so no accidental symmetric entry and no missing
    // Undefined default can slip through.
    for &left in all_symbols().iter() {
        for &right in all_symbols().iter() {
            assert_eq!(order(&left, &right), expected(left, right), "{:?} / {:?}", left, right);
        }
    }
}

#[test]
fn spot_checks() {
    assert_eq!(order(&Symbol::Marker, &Symbol::a), Relation::Less);
    assert_eq!(order(&Symbol::S, &Symbol::Marker), Relation::Greater);
    assert_eq!(order(&Symbol::B, &Symbol::a), Relation::Greater);
    assert_eq!(order(&Symbol::A, &Symbol::E), Relation::Equal);
    assert_eq!(order(&Symbol::a, &Symbol::F), Relation::Undefined);
    assert_eq!(order(&Symbol::d, &Symbol::E), Relation::Undefined);
    // A terminal relates to no nonterminal, only to terminals and the marker.
    assert_eq!(order(&Symbol::a, &Symbol::S), Relation::Undefined);
    assert_eq!(order(&Symbol::b, &Symbol::B), Relation::Undefined);
    assert_eq!(order(&Symbol::a, &Symbol::a), Relation::Greater);
    assert_eq!(order(&Symbol::d, &Symbol::Marker), Relation::Greater);
}
