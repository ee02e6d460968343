use vstd::prelude::*;

use crate::symbol::{Relation, Symbol};

verus! {

/// The precedence table: the relation between the symbol exposed at the top
/// of the stack (`left`) and an incoming or just-popped symbol (`right`).
///
/// Only pairs the grammar permits have a defined relation; every other pair
/// is `Undefined` and rejects the input. In particular a terminal is
/// `Greater` than every terminal but bears no relation to any nonterminal.
/// The marker is `Less` than every symbol when it is the left context, and
/// every symbol is `Greater` than the marker as a right operand; the marker
/// itself is never handed to the automaton as a new symbol.
pub open spec fn spec_order(left: Symbol, right: Symbol) -> Relation {
    match left {
        Symbol::S => match right {
            Symbol::a | Symbol::b => Relation::Equal,
            Symbol::Marker => Relation::Greater,
            _ => Relation::Undefined,
        },
        Symbol::B => match right {
            Symbol::S | Symbol::B | Symbol::A | Symbol::c | Symbol::d => Relation::Less,
            Symbol::F | Symbol::b => Relation::Equal,
            Symbol::a | Symbol::Marker => Relation::Greater,
            _ => Relation::Undefined,
        },
        Symbol::A => match right {
            Symbol::S | Symbol::B | Symbol::A | Symbol::c | Symbol::d => Relation::Less,
            Symbol::E | Symbol::a => Relation::Equal,
            Symbol::b | Symbol::Marker => Relation::Greater,
            _ => Relation::Undefined,
        },
        Symbol::E => match right {
            Symbol::a => Relation::Equal,
            Symbol::Marker => Relation::Greater,
            _ => Relation::Undefined,
        },
        Symbol::F => match right {
            Symbol::b => Relation::Equal,
            Symbol::Marker => Relation::Greater,
            _ => Relation::Undefined,
        },
        Symbol::a | Symbol::b | Symbol::c | Symbol::d => match right {
            Symbol::a | Symbol::b | Symbol::c | Symbol::d | Symbol::Marker => Relation::Greater,
            _ => Relation::Undefined,
        },
        Symbol::Marker => Relation::Less,
    }
}

/// Looks the ordered pair up in the precedence table.
pub fn order(left: &Symbol, right: &Symbol) -> (r: Relation)
    ensures
        r == spec_order(*left, *right),
{
    match *left {
        Symbol::S => match *right {
            Symbol::a | Symbol::b => Relation::Equal,
            Symbol::Marker => Relation::Greater,
            _ => Relation::Undefined,
        },
        Symbol::B => match *right {
            Symbol::S | Symbol::B | Symbol::A | Symbol::c | Symbol::d => Relation::Less,
            Symbol::F | Symbol::b => Relation::Equal,
            Symbol::a | Symbol::Marker => Relation::Greater,
            _ => Relation::Undefined,
        },
        Symbol::A => match *right {
            Symbol::S | Symbol::B | Symbol::A | Symbol::c | Symbol::d => Relation::Less,
            Symbol::E | Symbol::a => Relation::Equal,
            Symbol::b | Symbol::Marker => Relation::Greater,
            _ => Relation::Undefined,
        },
        Symbol::E => match *right {
            Symbol::a => Relation::Equal,
            Symbol::Marker => Relation::Greater,
            _ => Relation::Undefined,
        },
        Symbol::F => match *right {
            Symbol::b => Relation::Equal,
            Symbol::Marker => Relation::Greater,
            _ => Relation::Undefined,
        },
        Symbol::a | Symbol::b | Symbol::c | Symbol::d => match *right {
            Symbol::a | Symbol::b | Symbol::c | Symbol::d | Symbol::Marker => Relation::Greater,
            _ => Relation::Undefined,
        },
        Symbol::Marker => Relation::Less,
    }
}

} // verus!
