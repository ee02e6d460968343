use vstd::prelude::*;
use vstd::string::StrSliceExecFns;

verus! {

/// A grammar symbol: one of the four terminals that may appear in input text,
/// one of the five nonterminals that only a reduction produces, or the
/// bottom-of-stack marker that anchors the automaton's stack.
#[allow(non_camel_case_types)]
#[derive(Clone, Copy, Debug, PartialEq, Eq, Structural)]
pub enum Symbol {
    S,
    B,
    A,
    E,
    F,
    a,
    b,
    c,
    d,
    Marker,
}

/// The precedence relation between an ordered pair of symbols. `Less` and
/// `Equal` tell the automaton to shift, `Greater` to reduce, and `Undefined`
/// means the grammar defines no relation for the pair: the input is rejected.
#[derive(Clone, Copy, Debug, PartialEq, Eq, Structural)]
pub enum Relation {
    Less,
    Equal,
    Greater,
    Undefined,
}

/// Error for a character outside the terminal alphabet. It is distinct from a
/// grammar rejection: the input was malformed before the automaton ever saw it.
#[derive(Clone, Copy, Debug, PartialEq, Eq, Structural)]
pub struct InvalidCharacter {
    pub character: char,
}

/// The four symbols that tokenized input may contain.
pub open spec fn is_terminal(s: Symbol) -> bool {
    s == Symbol::a || s == Symbol::b || s == Symbol::c || s == Symbol::d
}

/// The terminal a character stands for; meaningful only for the four
/// characters of the alphabet.
pub open spec fn terminal_of(ch: char) -> Symbol {
    if ch == 'a' {
        Symbol::a
    } else if ch == 'b' {
        Symbol::b
    } else if ch == 'c' {
        Symbol::c
    } else {
        Symbol::d
    }
}

/// Classification of a single character: the terminal it denotes, or nothing
/// when it lies outside the alphabet.
pub open spec fn spec_classify(ch: char) -> Option<Symbol> {
    if ch == 'a' || ch == 'b' || ch == 'c' || ch == 'd' {
        Some(terminal_of(ch))
    } else {
        None
    }
}

/// Every character of the sequence lies in the terminal alphabet.
pub open spec fn valid_input(s: Seq<char>) -> bool {
    forall|i: int| 0 <= i < s.len() ==> spec_classify(#[trigger] s[i]) is Some
}

/// The terminal sequence a character sequence denotes, position by position.
pub open spec fn spec_terminals(s: Seq<char>) -> Seq<Symbol> {
    s.map_values(|ch: char| terminal_of(ch))
}

/// Turns one input character into the terminal it denotes. Exactly the
/// characters `a`, `b`, `c`, `d` succeed; every other character yields an
/// [`InvalidCharacter`] naming it.
pub fn classify(ch: char) -> (r: Result<Symbol, InvalidCharacter>)
    ensures
        match r {
            Ok(sym) => spec_classify(ch) == Some(sym),
            Err(e) => spec_classify(ch) is None && e.character == ch,
        },
{
    if ch == 'a' {
        Ok(Symbol::a)
    } else if ch == 'b' {
        Ok(Symbol::b)
    } else if ch == 'c' {
        Ok(Symbol::c)
    } else if ch == 'd' {
        Ok(Symbol::d)
    } else {
        Err(InvalidCharacter { character: ch })
    }
}

/// Tokenizes a whole string. Succeeds with the terminal sequence exactly when
/// every character lies in the alphabet; otherwise reports the first
/// character that does not.
pub fn classify_str(s: &str) -> (r: Result<Vec<Symbol>, InvalidCharacter>)
    ensures
        match r {
            Ok(v) => valid_input(s@) && v@ == spec_terminals(s@),
            Err(e) => {
                &&& !valid_input(s@)
                &&& spec_classify(e.character) is None
                &&& exists|i: int|
                    #![trigger s@[i]]
                    {
                        &&& 0 <= i < s@.len()
                        &&& s@[i] == e.character
                        &&& spec_classify(s@[i]) is None
                        &&& forall|j: int| 0 <= j < i ==> spec_classify(#[trigger] s@[j]) is Some
                    }
            },
        },
{
    let n = s.unicode_len();
    let mut out: Vec<Symbol> = Vec::new();
    let mut i: usize = 0;
    while i < n
        invariant
            n == s@.len(),
            i <= n,
            out@.len() == i,
            forall|j: int| 0 <= j < i ==> spec_classify(#[trigger] s@[j]) is Some,
            forall|j: int| 0 <= j < i ==> out@[j] == terminal_of(#[trigger] s@[j]),
        decreases n - i,
    {
        let ch = s.get_char(i);
        match classify(ch) {
            Ok(sym) => {
                out.push(sym);
            },
            Err(e) => {
                return Err(e);
            },
        }
        i = i + 1;
    }
    proof {
        assert(out@ =~= spec_terminals(s@));
    }
    Ok(out)
}

} // verus!
