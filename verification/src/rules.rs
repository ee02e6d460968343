use vstd::prelude::*;

use crate::symbol::Symbol;

verus! {

/// The reduction rule set: the nonterminal a collected handle collapses to,
/// or nothing when no rule matches (the input is then rejected).
///
/// The handle is given in popped order, top of stack first. The rules are:
/// `b B` collapses to `S`, `a A` to `S`, `a S` to `A`, `a E A` to `A`, `c`
/// to `A`, `b S` to `B`, `b F B` to `B`, `d` to `B`, `B` to `E`, and `A`
/// to `F`.
pub open spec fn rule_target(handle: Seq<Symbol>) -> Option<Symbol> {
    if handle.len() == 1 {
        if handle[0] == Symbol::c {
            Some(Symbol::A)
        } else if handle[0] == Symbol::d {
            Some(Symbol::B)
        } else if handle[0] == Symbol::B {
            Some(Symbol::E)
        } else if handle[0] == Symbol::A {
            Some(Symbol::F)
        } else {
            None
        }
    } else if handle.len() == 2 {
        if handle[0] == Symbol::b && handle[1] == Symbol::B {
            Some(Symbol::S)
        } else if handle[0] == Symbol::a && handle[1] == Symbol::A {
            Some(Symbol::S)
        } else if handle[0] == Symbol::a && handle[1] == Symbol::S {
            Some(Symbol::A)
        } else if handle[0] == Symbol::b && handle[1] == Symbol::S {
            Some(Symbol::B)
        } else {
            None
        }
    } else if handle.len() == 3 {
        if handle[0] == Symbol::a && handle[1] == Symbol::E && handle[2] == Symbol::A {
            Some(Symbol::A)
        } else if handle[0] == Symbol::b && handle[1] == Symbol::F && handle[2] == Symbol::B {
            Some(Symbol::B)
        } else {
            None
        }
    } else {
        None
    }
}

/// Every rule produces a nonterminal: a reduction never pushes a terminal or
/// the marker back onto the stack.
pub proof fn lemma_rule_target_nonterminal(handle: Seq<Symbol>)
    ensures
        rule_target(handle) matches Some(n) ==> (n == Symbol::S || n == Symbol::A || n == Symbol::B
            || n == Symbol::E || n == Symbol::F),
{
}

/// Matches a collected handle (popped order, top of stack first) against the
/// reduction rule set.
pub fn rule_for(handle: &Vec<Symbol>) -> (r: Option<Symbol>)
    ensures
        r == rule_target(handle@),
{
    if handle.len() == 1 {
        if handle[0] == Symbol::c {
            Some(Symbol::A)
        } else if handle[0] == Symbol::d {
            Some(Symbol::B)
        } else if handle[0] == Symbol::B {
            Some(Symbol::E)
        } else if handle[0] == Symbol::A {
            Some(Symbol::F)
        } else {
            None
        }
    } else if handle.len() == 2 {
        if handle[0] == Symbol::b && handle[1] == Symbol::B {
            Some(Symbol::S)
        } else if handle[0] == Symbol::a && handle[1] == Symbol::A {
            Some(Symbol::S)
        } else if handle[0] == Symbol::a && handle[1] == Symbol::S {
            Some(Symbol::A)
        } else if handle[0] == Symbol::b && handle[1] == Symbol::S {
            Some(Symbol::B)
        } else {
            None
        }
    } else if handle.len() == 3 {
        if handle[0] == Symbol::a && handle[1] == Symbol::E && handle[2] == Symbol::A {
            Some(Symbol::A)
        } else if handle[0] == Symbol::b && handle[1] == Symbol::F && handle[2] == Symbol::B {
            Some(Symbol::B)
        } else {
            None
        }
    } else {
        None
    }
}

} // verus!
