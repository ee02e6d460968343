use vstd::prelude::*;

use crate::rules::{lemma_rule_target_nonterminal, rule_for, rule_target};
use crate::symbol::{
    classify_str, is_terminal, spec_terminals, terminal_of, valid_input, Relation, Symbol,
};
use crate::table::{order, spec_order};

verus! {

/// A well-formed stack: the bottom marker sits at position 0 and nowhere
/// else, so the stack is never empty and the marker is never popped.
pub open spec fn wf_stack(stack: Seq<Symbol>) -> bool {
    &&& stack.len() >= 1
    &&& stack[0] == Symbol::Marker
    &&& forall|i: int| 0 < i < stack.len() ==> stack[i] != Symbol::Marker
}

/// Handle collection, one pop at a time: `base` holds the symbols popped so
/// far. Popping continues until the relation between the new stack top and
/// the symbol just popped is `Less`, which marks the handle's left boundary.
/// The result is the remaining stack and the full handle in popped order, or
/// nothing if the stack runs out first (impossible on a well-formed stack).
pub open spec fn spec_collect(stack: Seq<Symbol>, base: Seq<Symbol>) -> Option<
    (Seq<Symbol>, Seq<Symbol>),
>
    decreases stack.len(),
{
    if stack.len() == 0 {
        None
    } else {
        let popped = stack.last();
        let rest = stack.drop_last();
        if rest.len() == 0 {
            None
        } else if spec_order(rest.last(), popped) == Relation::Less {
            Some((rest, base.push(popped)))
        } else {
            spec_collect(rest, base.push(popped))
        }
    }
}

/// One reduction: collect the handle at the top of the stack, look it up in
/// the rule set, and push the nonterminal it collapses to. `Ok` carries the
/// stack after the reduction; `Err` carries the stack at the moment of
/// failure, its handle popped but nothing pushed.
pub open spec fn spec_reduce(stack: Seq<Symbol>) -> Result<Seq<Symbol>, Seq<Symbol>> {
    match spec_collect(stack, Seq::empty()) {
        Some((rest, handle)) => match rule_target(handle) {
            Some(n) => Ok(rest.push(n)),
            None => Err(rest),
        },
        None => Err(Seq::empty()),
    }
}

/// Rank of a symbol under single-symbol reductions: `c` and `d` collapse to
/// `A` and `B`, which collapse to `F` and `E`; each such step lowers the rank
/// of the stack top by one while leaving the stack length unchanged.
pub open spec fn rank(s: Symbol) -> int {
    match s {
        Symbol::c | Symbol::d => 2,
        Symbol::A | Symbol::B => 1,
        _ => 0,
    }
}

/// Termination measure for a run of consecutive reductions: a reduction that
/// pops two or more symbols shrinks the stack, and one that pops a single
/// symbol lowers the rank of the top, so the measure strictly decreases.
pub open spec fn step_measure(stack: Seq<Symbol>) -> int {
    2 * stack.len() + rank(stack.last())
}

proof fn lemma_collect_shape(stack: Seq<Symbol>, base: Seq<Symbol>)
    ensures
        spec_collect(stack, base) matches Some((rest, handle)) ==> {
            &&& base.len() < handle.len() <= base.len() + stack.len()
            &&& rest.len() == stack.len() - (handle.len() - base.len())
            &&& 1 <= rest.len() < stack.len()
            &&& rest == stack.take(rest.len() as int)
            &&& (handle.len() == base.len() + 1 ==> handle == base.push(stack.last()))
        },
    decreases stack.len(),
{
    if stack.len() > 0 {
        let popped = stack.last();
        let rest0 = stack.drop_last();
        if rest0.len() > 0 {
            if spec_order(rest0.last(), popped) == Relation::Less {
                assert(rest0 =~= stack.take(rest0.len() as int));
            } else {
                lemma_collect_shape(rest0, base.push(popped));
                let collected = spec_collect(stack, base);
                if collected is Some {
                    let rest = (collected->0).0;
                    assert(rest0.take(rest.len() as int) =~= stack.take(rest.len() as int));
                }
            }
        }
    }
}

/// Between two shifts the automaton can only reduce finitely often: each
/// successful reduction strictly decreases `step_measure`, twice the stack
/// length plus the rank of its top. Together with one shift per input symbol
/// this bounds the automaton's work and shows that recognition terminates on
/// every input.
pub proof fn lemma_reduce_decreases_measure(stack: Seq<Symbol>)
    ensures
        spec_reduce(stack) matches Ok(after) ==> 0 <= step_measure(after) < step_measure(stack),
{
    lemma_collect_shape(stack, Seq::empty());
    let collected = spec_collect(stack, Seq::empty());
    if collected is Some {
        let rest = (collected->0).0;
        let handle = (collected->0).1;
        lemma_rule_target_nonterminal(handle);
        if rule_target(handle) is Some {
            let n = rule_target(handle)->0;
            let after = rest.push(n);
            if handle.len() == 1 {
                assert(handle == Seq::<Symbol>::empty().push(stack.last()));
                assert(rank(n) < rank(stack.last()));
            }
        }
    }
}

/// Processing of a single terminal `t`, reductions included: shift `t` as
/// soon as the relation between the stack top and `t` is `Less` or `Equal`,
/// reduce on `Greater` and try again, and fail on `Undefined` or on an
/// unreducible handle. `Ok` carries the stack after the shift; `Err` carries
/// the stack at the moment of failure.
pub open spec fn spec_step(stack: Seq<Symbol>, t: Symbol) -> Result<Seq<Symbol>, Seq<Symbol>>
    decreases step_measure(stack),
        via spec_step_decreases
{
    match spec_order(stack.last(), t) {
        Relation::Less | Relation::Equal => Ok(stack.push(t)),
        Relation::Undefined => Err(stack),
        Relation::Greater => match spec_reduce(stack) {
            Ok(after) => spec_step(after, t),
            Err(s) => Err(s),
        },
    }
}

#[via_fn]
proof fn spec_step_decreases(stack: Seq<Symbol>, t: Symbol) {
    lemma_reduce_decreases_measure(stack);
}

/// A whole run of the automaton: the verdict (`true` iff every input symbol
/// was consumed without rejection) together with the final stack. On failure
/// the stack is left exactly as it stood when the failure was detected.
pub open spec fn spec_run(stack: Seq<Symbol>, input: Seq<Symbol>) -> (bool, Seq<Symbol>)
    decreases input.len(),
{
    if input.len() == 0 {
        (true, stack)
    } else {
        match spec_step(stack, input.first()) {
            Ok(after) => spec_run(after, input.drop_first()),
            Err(s) => (false, s),
        }
    }
}

/// Determinism: the verdict and the final stack are functions of the initial
/// stack and the input alone, so running the same input twice from the same
/// initial stack yields the same verdict and the same final stack.
pub proof fn lemma_deterministic(
    stack1: Seq<Symbol>,
    input1: Seq<Symbol>,
    stack2: Seq<Symbol>,
    input2: Seq<Symbol>,
)
    requires
        stack1 == stack2,
        input1 == input2,
    ensures
        spec_run(stack1, input1) == spec_run(stack2, input2),
{
}

/// The marker cannot lose a `Less` comparison as left context, so a
/// well-formed stack whose top is not the marker holds at least two symbols.
proof fn lemma_wf_above_marker(stack: Seq<Symbol>)
    requires
        wf_stack(stack),
        stack.last() != Symbol::Marker,
    ensures
        stack.len() >= 2,
{
}

/// Pushing anything but the marker keeps a stack well formed.
proof fn lemma_wf_push(stack: Seq<Symbol>, s: Symbol)
    requires
        wf_stack(stack),
        s != Symbol::Marker,
    ensures
        wf_stack(stack.push(s)),
{
    assert forall|k: int| 0 < k < stack.push(s).len() implies stack.push(s)[k]
        != Symbol::Marker by {
        if k < stack.len() {
            assert(stack[k] != Symbol::Marker);
        }
    }
}

/// One reduction on the top of the stack. Returns whether a rule matched the
/// collected handle; on failure the handle has been popped and nothing
/// pushed, and the caller must reject the input.
pub fn reduce(stack: &mut Vec<Symbol>) -> (ok: bool)
    requires
        wf_stack(old(stack)@),
        old(stack)@.len() >= 2,
    ensures
        wf_stack(final(stack)@),
        match spec_reduce(old(stack)@) {
            Ok(after) => ok && final(stack)@ == after,
            Err(s) => !ok && final(stack)@ == s,
        },
{
    let ghost orig = stack@;
    let mut base: Vec<Symbol> = Vec::new();
    loop
        invariant_except_break
            stack@.len() >= 2,
            spec_collect(orig, Seq::empty()) == spec_collect(stack@, base@),
        invariant
            wf_stack(stack@),
        ensures
            wf_stack(stack@),
            spec_collect(orig, Seq::empty()) == Some((stack@, base@)),
        decreases stack@.len(),
    {
        let ghost pre = stack@;
        let ghost pre_base = base@;
        let popped = stack.pop().unwrap();
        base.push(popped);
        let head = stack[stack.len() - 1];
        proof {
            assert(stack@ =~= pre.drop_last());
        }
        if order(&head, &popped) == Relation::Less {
            proof {
                assert(spec_collect(pre, pre_base) == Some((stack@, base@)));
            }
            break ;
        }
        proof {
            assert(spec_collect(pre, pre_base) == spec_collect(stack@, base@));
            // The marker, as left context, is `Less` than everything, so the
            // loop stopped before reaching it: the top is above position 0.
            lemma_wf_above_marker(stack@);
        }
    }
    match rule_for(&base) {
        Some(n) => {
            proof {
                lemma_rule_target_nonterminal(base@);
                lemma_wf_push(stack@, n);
            }
            stack.push(n);
            true
        },
        None => false,
    }
}

/// `spec_run`, with the processing of the current symbol under way: the
/// remaining run once `t` has been dealt with from the given stack.
spec fn run_within_step(stack: Seq<Symbol>, t: Symbol, rest_input: Seq<Symbol>) -> (bool, Seq<
    Symbol,
>) {
    match spec_step(stack, t) {
        Ok(after) => spec_run(after, rest_input),
        Err(s) => (false, s),
    }
}

/// Feeds a chunk of terminals to the automaton, mutating the caller-owned
/// stack. Returns `true` iff every symbol of the chunk was consumed without
/// rejection; acceptance of the whole input is a separate check of the final
/// stack against marker-then-`S`. On rejection the stack is left as it stood
/// at the failure and the caller must not feed further chunks.
pub fn check_grammar(stack: &mut Vec<Symbol>, input: &Vec<Symbol>) -> (r: bool)
    requires
        wf_stack(old(stack)@),
        forall|i: int| 0 <= i < input@.len() ==> is_terminal(#[trigger] input@[i]),
    ensures
        wf_stack(final(stack)@),
        (r, final(stack)@) == spec_run(old(stack)@, input@),
{
    let ghost orig = stack@;
    let n = input.len();
    let mut i: usize = 0;
    let mut ok: bool = true;
    proof {
        assert(input@.skip(0) =~= input@);
    }
    while i < n
        invariant_except_break
            ok,
            spec_run(orig, input@) == spec_run(stack@, input@.skip(i as int)),
        invariant
            n == input@.len(),
            i <= n,
            wf_stack(stack@),
            forall|j: int| 0 <= j < input@.len() ==> is_terminal(#[trigger] input@[j]),
        ensures
            wf_stack(stack@),
            ok ==> i == n && spec_run(orig, input@) == spec_run(stack@, input@.skip(i as int)),
            !ok ==> spec_run(orig, input@) == (false, stack@),
        decreases n - i,
    {
        let t = input[i];
        proof {
            let suffix = input@.skip(i as int);
            assert(suffix.first() == t);
            assert(suffix.drop_first() =~= input@.skip(i as int + 1));
            assert(spec_run(stack@, suffix) == run_within_step(
                stack@,
                t,
                input@.skip(i as int + 1),
            ));
        }
        let mut failed: bool = false;
        loop
            invariant_except_break
                !failed,
                spec_run(orig, input@) == run_within_step(stack@, t, input@.skip(i as int + 1)),
            invariant
                n == input@.len(),
                i < n,
                is_terminal(t),
                wf_stack(stack@),
            ensures
                wf_stack(stack@),
                !failed ==> spec_run(orig, input@) == spec_run(stack@, input@.skip(i as int + 1)),
                failed ==> spec_run(orig, input@) == (false, stack@),
            decreases step_measure(stack@),
        {
            let ghost pre = stack@;
            let head = stack[stack.len() - 1];
            match order(&head, &t) {
                Relation::Equal | Relation::Less => {
                    proof {
                        lemma_wf_push(stack@, t);
                    }
                    stack.push(t);
                    proof {
                        assert(spec_step(pre, t) == Ok::<Seq<Symbol>, Seq<Symbol>>(stack@));
                    }
                    break ;
                },
                Relation::Greater => {
                    proof {
                        // `Greater` rules the marker out as the top, so at
                        // least one symbol sits above it.
                        lemma_wf_above_marker(stack@);
                    }
                    if !reduce(stack) {
                        proof {
                            assert(spec_step(pre, t) == Err::<Seq<Symbol>, Seq<Symbol>>(stack@));
                        }
                        failed = true;
                        break ;
                    }
                    proof {
                        assert(spec_step(pre, t) == spec_step(stack@, t));
                        lemma_reduce_decreases_measure(pre);
                    }
                },
                Relation::Undefined => {
                    proof {
                        assert(spec_step(pre, t) == Err::<Seq<Symbol>, Seq<Symbol>>(stack@));
                    }
                    failed = true;
                    break ;
                },
            }
        }
        if failed {
            ok = false;
            break ;
        }
        i = i + 1;
    }
    proof {
        if ok {
            assert(input@.skip(n as int) =~= Seq::<Symbol>::empty());
        }
    }
    ok
}

/// Verdict of a run over a whole string from a fresh stack: `true` iff every
/// character's terminal was consumed without rejection. Acceptance of the
/// string as a sentence is the separate final-stack check.
pub open spec fn spec_check(s: Seq<char>) -> bool {
    spec_run(seq![Symbol::Marker], spec_terminals(s)).0
}

/// Runs the recognizer over a whole string from a fresh stack holding only
/// the marker, and returns whether every symbol was consumed without
/// rejection. The empty string trivially passes this check, though its final
/// stack, the bare marker, is not the accepting configuration.
pub fn check(s: &str) -> (r: bool)
    requires
        valid_input(s@),
    ensures
        r == spec_check(s@),
{
    match classify_str(s) {
        Ok(symbols) => {
            let mut stack: Vec<Symbol> = Vec::new();
            stack.push(Symbol::Marker);
            proof {
                assert(stack@ =~= seq![Symbol::Marker]);
                assert forall|j: int| 0 <= j < symbols@.len() implies is_terminal(
                    #[trigger] symbols@[j],
                ) by {
                    assert(symbols@[j] == terminal_of(s@[j]));
                }
            }
            check_grammar(&mut stack, &symbols)
        },
        Err(_) => {
            // Unreachable: the precondition admits only characters of the
            // alphabet, and on those classification succeeds.
            proof {
                assert(false);
            }
            false
        },
    }
}

} // verus!

