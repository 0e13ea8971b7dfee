use vstd::prelude::*;
use crate::number_fsm::{next_state, number_step};
use vstd::std_specs::iter::IteratorSpec;

verus! {

/// The value a transition function returns when the automaton is stuck.
pub const NO_NEXT_STATE: i8 = -1;

/// The transition functions an [`FSM`] can run.
pub enum Transitions {
    /// The numeric-literal grammar.
    Number,
}

/// The transition function a [`Transitions`] value stands for.
pub open spec fn delta(t: Transitions, state: i8, c: char) -> i8 {
    match t {
        Transitions::Number => number_step(state, c),
    }
}

/// Follows `t` from `state` over `input`, starting at index `i`, until the input
/// ends or `t` gives [`NO_NEXT_STATE`]. Returns the index where the walk stopped
/// and the state it ended in.
pub open spec fn walk(t: Transitions, state: i8, input: Seq<char>, i: nat) -> (nat, i8)
    decreases input.len() - i,
{
    if i >= input.len() {
        (i, state)
    } else {
        let n = delta(t, state, input[i as int]);
        if n == NO_NEXT_STATE {
            (i, state)
        } else {
            walk(t, n, input, i + 1)
        }
    }
}

/// A finite-state machine: a start state, the accepting states and a
/// transition function.
pub struct FSM {
    pub states: Vec<i8>,
    pub initial_state: i8,
    pub accepting_states: Vec<i8>,
    pub transitions: Transitions,
}

/// What a run of an [`FSM`] reports: whether the consumed prefix is accepted,
/// the prefix itself, and the state the run ended in.
#[derive(Debug)]
pub struct RunResult {
    pub recognized: bool,
    pub value: String,
    pub state: i8,
}

/// Relies on substring's `Substring::substring`: the characters of `s` from
/// index `start` up to (not including) index `end`, counted in `char`s.
#[verifier::external_body]
pub(crate) fn char_slice(s: &str, start: usize, end: usize) -> (r: &str)
    requires
        start <= end <= s@.len(),
    ensures
        r@ == s@.subrange(start as int, end as int),
{
    substring::Substring::substring(s, start, end)
}

pub proof fn lemma_walk_bounds(t: Transitions, state: i8, input: Seq<char>, i: nat)
    requires
        i <= input.len(),
    ensures
        i <= walk(t, state, input, i).0 <= input.len(),
    decreases input.len() - i,
{
    if i < input.len() {
        let n = delta(t, state, input[i as int]);
        if n != NO_NEXT_STATE {
            lemma_walk_bounds(t, n, input, i + 1);
        }
    }
}

impl FSM {
    /// The transition function of this machine.
    pub fn next_state(&self, state: i8, c: char) -> (r: i8)
        ensures
            r == delta(self.transitions, state, c),
    {
        match self.transitions {
            Transitions::Number => next_state(state, c),
        }
    }

    /// Runs the machine over the longest prefix of `input` along which the
    /// transition function never gets stuck.
    pub fn run(&self, input: &str) -> (r: RunResult)
        requires
            input@.len() <= usize::MAX,
        ensures
            r.value@ == input@.subrange(0, walk(self.transitions, self.initial_state, input@, 0).0 as int),
            r.state == walk(self.transitions, self.initial_state, input@, 0).1,
            r.recognized == self.accepting_states@.contains(r.state),
    {
        let ghost s = input@;
        let mut iter = input.chars();
        let mut current_state = self.initial_state;
        let mut length: usize = 0;
        loop
            invariant_except_break
                iter.remaining() == s.subrange(length as int, s.len() as int),
            invariant
                s == input@,
                s.len() <= usize::MAX,
                length <= s.len(),
                walk(self.transitions, self.initial_state, s, 0)
                    == walk(self.transitions, current_state, s, length as nat),
            ensures
                walk(self.transitions, self.initial_state, s, 0) == (length as nat, current_state),
            decreases s.len() - length,
        {
            let ghost rest = iter.remaining();
            match iter.next() {
                None => {
                    break;
                },
                Some(c) => {
                    assert(rest.len() > 0);
                    assert(c == s[length as int]);
                    let next = self.next_state(current_state, c);
                    if next == NO_NEXT_STATE {
                        break;
                    }
                    current_state = next;
                    length = length + 1;
                },
            }
        }
        let accepted = self.accepts(current_state);
        RunResult {
            recognized: accepted,
            value: String::from_str(char_slice(input, 0, length)),
            state: current_state,
        }
    }

    fn accepts(&self, state: i8) -> (r: bool)
        ensures
            r == self.accepting_states@.contains(state),
    {
        let mut i: usize = 0;
        while i < self.accepting_states.len()
            invariant
                i <= self.accepting_states@.len(),
                forall|j: int| 0 <= j < i ==> self.accepting_states@[j] != state,
            decreases self.accepting_states@.len() - i,
        {
            if self.accepting_states[i] == state {
                return true;
            }
            i = i + 1;
        }
        false
    }
}

} // verus!
