//! Recognizer for a fixed context-free language, driven by operator-precedence
//! parsing: a table of pairwise precedence relations between grammar symbols
//! decides, for each incoming terminal, whether the automaton shifts it onto
//! its stack or first collapses a handle at the top of the stack to a
//! nonterminal.
//!
//! The grammar is hard-coded: terminals `a`, `b`, `c`, `d`, nonterminals `S`,
//! `A`, `B`, `E`, `F`, and a bottom-of-stack marker. The precedence table
//! lives in [`table`], the handle-collapse rules in [`rules`], and the
//! shift/reduce automaton itself in [`automaton`]. [`session`] wraps the
//! automaton in a session object that carries the stack across chunks of
//! input and performs the final acceptance check.

pub mod automaton;
pub mod rules;
pub mod session;
pub mod symbol;
pub mod table;
