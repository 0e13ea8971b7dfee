use vstd::prelude::*;
use crate::char_utils::{digit, is_digit};
use crate::fsm::{FSM, NO_NEXT_STATE, RunResult, Transitions, walk};

verus! {

pub const INITIAL: i8 = 0;
pub const INTEGER: i8 = 1;
pub const BEGIN_FRACTIONAL: i8 = 2;
pub const FRACTIONAL: i8 = 3;
pub const BEGIN_EXPONENT: i8 = 4;
pub const BEGIN_SIGNED_EXPONENT: i8 = 5;
pub const EXPONENT: i8 = 6;

/// The numeric-literal grammar, its rules taken in order.
pub open spec fn number_step(state: i8, c: char) -> i8 {
    if state == INITIAL && digit(c) {
        INTEGER
    } else if c == '.' {
        BEGIN_FRACTIONAL
    } else if state == EXPONENT && digit(c) {
        EXPONENT
    } else if state == INTEGER && digit(c) {
        INTEGER
    } else if state == INTEGER && (c == 'e' || c == 'E') {
        BEGIN_EXPONENT
    } else if state == BEGIN_FRACTIONAL && digit(c) {
        FRACTIONAL
    } else if state == FRACTIONAL && digit(c) {
        FRACTIONAL
    } else if state == FRACTIONAL && (c == 'e' || c == 'E') {
        BEGIN_EXPONENT
    } else if state == BEGIN_EXPONENT && (c == '+' || c == '-') {
        BEGIN_SIGNED_EXPONENT
    } else if state == BEGIN_EXPONENT && digit(c) {
        EXPONENT
    } else if state == BEGIN_SIGNED_EXPONENT && digit(c) {
        EXPONENT
    } else {
        NO_NEXT_STATE
    }
}

/// The states in which a numeric literal is complete.
pub open spec fn number_accepting(state: i8) -> bool {
    state == INTEGER || state == FRACTIONAL || state == EXPONENT
}

/// The numeric-literal automaton run over `input`: how many characters it
/// consumes and the state it ends in.
pub open spec fn number_walk(input: Seq<char>) -> (nat, i8) {
    walk(Transitions::Number, INITIAL, input, 0)
}

pub fn next_state(current_state: i8, character: char) -> (r: i8)
    ensures
        r == number_step(current_state, character),
{
    if current_state == INITIAL && is_digit(character) {
        return INTEGER;
    }
    if character == '.' {
        return BEGIN_FRACTIONAL;
    }
    if current_state == EXPONENT && is_digit(character) {
        return EXPONENT;
    }
    if current_state == INTEGER {
        if is_digit(character) {
            return INTEGER;
        }
        if character == 'e' || character == 'E' {
            return BEGIN_EXPONENT;
        }
    }
    if current_state == BEGIN_FRACTIONAL {
        if is_digit(character) {
            return FRACTIONAL;
        }
    }
    if current_state == FRACTIONAL {
        if is_digit(character) {
            return FRACTIONAL;
        }
        if character == 'e' || character == 'E' {
            return BEGIN_EXPONENT;
        }
    }
    if current_state == BEGIN_EXPONENT {
        if character == '+' || character == '-' {
            return BEGIN_SIGNED_EXPONENT;
        }
        if is_digit(character) {
            return EXPONENT;
        }
    }
    if current_state == BEGIN_SIGNED_EXPONENT {
        if is_digit(character) {
            return EXPONENT;
        }
    }
    NO_NEXT_STATE
}

/// The automaton that recognizes integer, fractional and exponent literals.
pub struct NumberFSM {
    fsm: FSM,
}

impl NumberFSM {
    pub closed spec fn wf(&self) -> bool {
        &&& self.fsm.initial_state == INITIAL
        &&& self.fsm.transitions == Transitions::Number
        &&& forall|s: i8| self.fsm.accepting_states@.contains(s) <==> number_accepting(s)
    }

    pub fn new() -> (r: Self)
        ensures
            r.wf(),
    {
        let accepting_states = vec![INTEGER, FRACTIONAL, EXPONENT];
        let states = vec![
            INITIAL,
            INTEGER,
            BEGIN_FRACTIONAL,
            FRACTIONAL,
            BEGIN_EXPONENT,
            BEGIN_SIGNED_EXPONENT,
            EXPONENT,
        ];
        let r = NumberFSM {
            fsm: FSM { states, initial_state: INITIAL, accepting_states, transitions: Transitions::Number },
        };
        assert forall|s: i8| r.fsm.accepting_states@.contains(s) <==> number_accepting(s) by {
            if number_accepting(s) {
                if s == INTEGER {
                    assert(r.fsm.accepting_states@[0] == s);
                } else if s == FRACTIONAL {
                    assert(r.fsm.accepting_states@[1] == s);
                } else {
                    assert(r.fsm.accepting_states@[2] == s);
                }
            }
        }
        r
    }

    /// Reads the longest numeric-literal prefix of `input`.
    pub fn run(&self, input: &str) -> (r: RunResult)
        requires
            self.wf(),
            input@.len() <= usize::MAX,
        ensures
            r.value@ == input@.subrange(0, number_walk(input@).0 as int),
            r.state == number_walk(input@).1,
            r.recognized == number_accepting(r.state),
    {
        self.fsm.run(input)
    }
}

} // verus!
