//! The actions of a small demonstration that shows one action of each kind.

use vstd::prelude::*;
use crate::event::{ActionEvent, MappedEvent, WindowEvent};
use crate::input::{ActionArgument, MappedType};

verus! {

/// The sets of bindings of the demonstration. There is a single one.
#[derive(Clone, Copy, PartialEq, Eq, Structural, Debug, Hash)]
pub enum InputContext {
    Default,
}

/// What the user of the demonstration can ask for.
#[derive(Clone, Copy, PartialEq, Eq, Structural, Debug, Hash)]
pub enum Action {
    Exit,
    MoveForward,
    FireAbility1,
    RotateDirection,
}

impl Action {
    /// How the action is fed: leaving and firing occur once, moving forward
    /// is held, and the direction is a value read every frame.
    pub open spec fn kind(self) -> MappedType {
        match self {
            Action::Exit => MappedType::Action,
            Action::MoveForward => MappedType::State,
            Action::FireAbility1 => MappedType::Action,
            Action::RotateDirection => MappedType::Range,
        }
    }

    /// The values that the action asks for: firing wants to know where the
    /// cursor is, the others want nothing.
    pub open spec fn wanted(self) -> Seq<ActionArgument> {
        if self == Action::FireAbility1 {
            seq![ActionArgument::CursorPosition]
        } else {
            Seq::empty()
        }
    }

    /// How the action is fed.
    pub fn mapped_type(&self) -> (kind: MappedType)
        ensures
            kind == self.kind(),
    {
        match self {
            Action::Exit => MappedType::Action,
            Action::MoveForward => MappedType::State,
            Action::FireAbility1 => MappedType::Action,
            Action::RotateDirection => MappedType::Range,
        }
    }

    /// The values that the action asks for.
    pub fn args(&self) -> (wanted: Vec<ActionArgument>)
        ensures
            wanted@ == self.wanted(),
    {
        match self {
            Action::FireAbility1 => {
                let mut wanted: Vec<ActionArgument> = Vec::new();
                wanted.push(ActionArgument::CursorPosition);
                assert(wanted@ =~= seq![ActionArgument::CursorPosition]);
                wanted
            },
            _ => Vec::new(),
        }
    }
}

/// Whether an event asks for the demonstration to end: the window was closed
/// or the user asked to leave.
pub open spec fn asks_to_quit(event: MappedEvent<Action>) -> bool {
    event == MappedEvent::<Action>::Controller(ActionEvent::Action(Action::Exit)) || event
        == MappedEvent::<Action>::Window(WindowEvent::Close)
}

/// Tells whether the demonstration is to end after the events of one frame:
/// it is if any of them asks for it.
pub fn handle_events(events: &Vec<MappedEvent<Action>>) -> (quit: bool)
    ensures
        quit <==> exists|i: int| 0 <= i < events@.len() && asks_to_quit(#[trigger] events@[i]),
{
    let mut i: usize = 0;
    while i < events.len()
        invariant
            0 <= i <= events@.len(),
            forall|k: int| 0 <= k < i ==> !asks_to_quit(#[trigger] events@[k]),
        decreases events@.len() - i,
    {
        match events[i] {
            MappedEvent::Controller(ActionEvent::Action(Action::Exit)) => {
                return true;
            },
            MappedEvent::Window(WindowEvent::Close) => {
                return true;
            },
            _ => {},
        }
        i += 1;
    }
    false
}

} // verus!
