use vstd::prelude::*;

use crate::automaton::{check_grammar, spec_run, wf_stack};
use crate::symbol::{is_terminal, Symbol};

verus! {

/// A recognition session: owns the automaton's stack, carries it across
/// chunks of input, and remembers whether any chunk was rejected. The caller
/// feeds chunks of terminals in arrival order and finally asks whether the
/// whole input was accepted.
pub struct Recognizer {
    stack: Vec<Symbol>,
    failed: bool,
}

impl Recognizer {
    /// The symbols on the automaton's stack, bottom marker first.
    pub closed spec fn stack_model(self) -> Seq<Symbol> {
        self.stack@
    }

    /// Whether some chunk fed so far was rejected.
    pub closed spec fn has_failed(self) -> bool {
        self.failed
    }

    /// Session invariant: the stack is well formed, so the marker anchors it
    /// at all times.
    pub open spec fn wf(self) -> bool {
        wf_stack(self.stack_model())
    }

    /// A fresh session: nothing rejected yet, the stack holding the bottom
    /// marker alone.
    pub fn new() -> (r: Recognizer)
        ensures
            r.wf(),
            !r.has_failed(),
            r.stack_model() == seq![Symbol::Marker],
    {
        let mut stack: Vec<Symbol> = Vec::new();
        stack.push(Symbol::Marker);
        proof {
            assert(stack@ =~= seq![Symbol::Marker]);
        }
        Recognizer { stack, failed: false }
    }

    /// Feeds one chunk of terminals to the automaton. Returns `true` iff the
    /// whole chunk was consumed without rejection.
    ///
    /// Rejection is idempotent: once a chunk has been rejected, the session
    /// stays rejected, and feeding further input changes neither the verdict
    /// nor the session's state.
    pub fn feed(&mut self, input: &Vec<Symbol>) -> (r: bool)
        requires
            old(self).wf(),
            forall|i: int| 0 <= i < input@.len() ==> is_terminal(#[trigger] input@[i]),
        ensures
            final(self).wf(),
            old(self).has_failed() ==> *final(self) == *old(self) && !r,
            !old(self).has_failed() ==> {
                &&& r == spec_run(old(self).stack_model(), input@).0
                &&& final(self).stack_model() == spec_run(old(self).stack_model(), input@).1
                &&& final(self).has_failed() == !r
            },
    {
        if self.failed {
            return false;
        }
        let r = check_grammar(&mut self.stack, input);
        if !r {
            self.failed = true;
        }
        r
    }

    /// The acceptance check, once all input has been fed: the input is
    /// accepted iff no chunk was rejected and the stack holds exactly the
    /// marker followed by the start nonterminal `S`. In particular a session
    /// that was fed nothing holds the bare marker and is not accepting.
    pub fn accepted(&self) -> (r: bool)
        ensures
            r == (!self.has_failed() && self.stack_model() == seq![Symbol::Marker, Symbol::S]),
    {
        let ghost target = seq![Symbol::Marker, Symbol::S];
        if self.failed {
            return false;
        }
        if self.stack.len() != 2 {
            return false;
        }
        let r = self.stack[0] == Symbol::Marker && self.stack[1] == Symbol::S;
        proof {
            if self.stack@ == target {
                assert(self.stack@[0] == Symbol::Marker);
                assert(self.stack@[1] == Symbol::S);
            }
            if r {
                assert(self.stack@ =~= target);
            }
        }
        r
    }
}

} // verus!
