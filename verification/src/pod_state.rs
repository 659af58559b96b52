//! The states of a pod's life as node agent and node manager report them:
//! `Creating`, `Standby`, `Activating`, `Running`, `Evacuating`,
//! `Terminating`, `Terminated`. A pod only moves forward through them; a
//! report may repeat the state that the pod is in.

use vstd::prelude::*;

verus! {

/// The state of a pod.
#[derive(Clone, Copy, Debug, PartialEq, Eq, Hash, PartialOrd, Ord)]
pub enum State {
    Creating,
    Standby,
    Activating,
    Running,
    Evacuating,
    Terminating,
    Terminated,
}

/// The number that stands for the state `s` on the wire.
pub open spec fn state_number(s: State) -> i32 {
    match s {
        State::Creating => 0,
        State::Standby => 10,
        State::Activating => 20,
        State::Running => 30,
        State::Evacuating => 40,
        State::Terminating => 50,
        State::Terminated => 60,
    }
}

/// The name of the state `s` in the protocol definition.
pub open spec fn state_name(s: State) -> Seq<char> {
    match s {
        State::Creating => "Creating"@,
        State::Standby => "Standby"@,
        State::Activating => "Activating"@,
        State::Running => "Running"@,
        State::Evacuating => "Evacuating"@,
        State::Terminating => "Terminating"@,
        State::Terminated => "Terminated"@,
    }
}

/// Whether a pod in the state `from` may be reported in the state `to`: the
/// same state again, or a later one.
pub open spec fn may_follow(from: State, to: State) -> bool {
    state_number(from) <= state_number(to)
}

impl State {
    /// The name of the state in the protocol definition.
    pub fn as_str_name(&self) -> (name: &'static str)
        ensures
            name@ == state_name(*self),
    {
        match self {
            State::Creating => "Creating",
            State::Standby => "Standby",
            State::Activating => "Activating",
            State::Running => "Running",
            State::Evacuating => "Evacuating",
            State::Terminating => "Terminating",
            State::Terminated => "Terminated",
        }
    }

    /// The state with the name `value`, or `None` when no state has that
    /// name.
    pub fn from_str_name(value: &str) -> (r: Option<Self>)
        ensures
            match r {
                Some(s) => value@ == state_name(s),
                None => forall|s: State| value@ != state_name(s),
            },
    {
        let name = value.to_owned();
        if name == "Creating".to_owned() {
            Some(State::Creating)
        } else if name == "Standby".to_owned() {
            Some(State::Standby)
        } else if name == "Activating".to_owned() {
            Some(State::Activating)
        } else if name == "Running".to_owned() {
            Some(State::Running)
        } else if name == "Evacuating".to_owned() {
            Some(State::Evacuating)
        } else if name == "Terminating".to_owned() {
            Some(State::Terminating)
        } else if name == "Terminated".to_owned() {
            Some(State::Terminated)
        } else {
            None
        }
    }

    /// The number that stands for the state on the wire.
    pub fn Number(&self) -> (n: i32)
        ensures
            n == state_number(*self),
    {
        match self {
            State::Creating => 0,
            State::Standby => 10,
            State::Activating => 20,
            State::Running => 30,
            State::Evacuating => 40,
            State::Terminating => 50,
            State::Terminated => 60,
        }
    }

    /// The state that the number `n` stands for, or `None` when it stands
    /// for none.
    pub fn FromNumber(n: i32) -> (r: Option<Self>)
        ensures
            match r {
                Some(s) => state_number(s) == n,
                None => forall|s: State| state_number(s) != n,
            },
    {
        if n == 0 {
            Some(State::Creating)
        } else if n == 10 {
            Some(State::Standby)
        } else if n == 20 {
            Some(State::Activating)
        } else if n == 30 {
            Some(State::Running)
        } else if n == 40 {
            Some(State::Evacuating)
        } else if n == 50 {
            Some(State::Terminating)
        } else if n == 60 {
            Some(State::Terminated)
        } else {
            None
        }
    }

    /// Whether a pod in this state may be reported in the state `to`.
    pub fn MayFollow(&self, to: &State) -> (b: bool)
        ensures
            b == may_follow(*self, *to),
    {
        self.Number() <= to.Number()
    }
}

/// The states are in one line: a report that repeats the state is in order,
/// reports in order can be chained, and a pod never comes back to a state
/// that it has left.
pub proof fn law_states_move_forward(a: State, b: State, c: State)
    ensures
        may_follow(a, a),
        may_follow(a, b) && may_follow(b, c) ==> may_follow(a, c),
        may_follow(a, b) && may_follow(b, a) ==> a == b,
        may_follow(a, b) || may_follow(b, a),
        may_follow(State::Creating, a),
        may_follow(a, State::Terminated),
{
}

/// No two states share a name or a number, so the state that is found for
/// the name or the number of a state is that state.
pub proof fn law_states_are_told_apart(a: State, b: State)
    ensures
        state_name(a) == state_name(b) ==> a == b,
        state_number(a) == state_number(b) ==> a == b,
{
    reveal_strlit("Creating");
    reveal_strlit("Standby");
    reveal_strlit("Activating");
    reveal_strlit("Running");
    reveal_strlit("Evacuating");
    reveal_strlit("Terminating");
    reveal_strlit("Terminated");
    assert("Creating"@[0] == 'C' && "Standby"@[0] == 'S' && "Activating"@[0] == 'A');
    assert("Running"@[0] == 'R' && "Evacuating"@[0] == 'E');
    assert("Terminating"@[0] == 'T' && "Terminated"@[0] == 'T');
    assert("Terminating"@.len() == 11 && "Terminated"@.len() == 10);
}

} // verus!
