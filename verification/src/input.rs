//! The actions of the game and the kinds of input they are bound to.

use vstd::prelude::*;
use crate::comp::{Direction, Side};

verus! {

/// How an action is fed: once per occurrence, as a state that is switched on
/// and off, or as a value that is read every frame.
#[derive(Clone, Copy, PartialEq, Eq, Structural, Debug, Hash)]
pub enum MappedType {
    Action,
    State,
    Range,
}

/// A value that an action asks to be delivered together with its event.
#[derive(Clone, Copy, PartialEq, Eq, Structural, Debug, Hash)]
pub enum ActionArgument {
    CursorPosition,
}

/// The sets of bindings of the game. There is a single one.
#[derive(Clone, Copy, PartialEq, Eq, Structural, Debug, Hash)]
pub enum InputContext {
    Default,
}

/// What a player can ask for.
#[derive(Clone, Copy, PartialEq, Eq, Structural, Debug, Hash)]
pub enum Action {
    Exit,
    LeftPaddleUp,
    LeftPaddleDown,
    RightPaddleUp,
    RightPaddleDown,
    StartRound,
}

impl Action {
    /// The plank that the action moves and the direction in which it moves
    /// it, for the four actions that move a plank.
    pub open spec fn moves(self) -> Option<(Side, Direction)> {
        match self {
            Action::LeftPaddleUp => Some((Side::Left, Direction::Up)),
            Action::LeftPaddleDown => Some((Side::Left, Direction::Down)),
            Action::RightPaddleUp => Some((Side::Right, Direction::Up)),
            Action::RightPaddleDown => Some((Side::Right, Direction::Down)),
            _ => None,
        }
    }

    /// How the action is fed: the four that move a plank are states, held for
    /// as long as the key is down; the other two occur once.
    pub open spec fn kind(self) -> MappedType {
        if self.moves() is Some {
            MappedType::State
        } else {
            MappedType::Action
        }
    }

    /// How the action is fed.
    pub fn mapped_type(&self) -> (kind: MappedType)
        ensures
            kind == self.kind(),
            kind != MappedType::Range,
    {
        match self {
            Action::Exit => MappedType::Action,
            Action::LeftPaddleUp => MappedType::State,
            Action::LeftPaddleDown => MappedType::State,
            Action::RightPaddleUp => MappedType::State,
            Action::RightPaddleDown => MappedType::State,
            Action::StartRound => MappedType::Action,
        }
    }

    /// The values that the action asks for: none.
    pub fn args(&self) -> (wanted: Vec<ActionArgument>)
        ensures
            wanted@ == Seq::<ActionArgument>::empty(),
    {
        Vec::new()
    }

    /// The plank that the action moves and the direction in which it moves it.
    pub fn paddle_move(&self) -> (target: Option<(Side, Direction)>)
        ensures
            target == self.moves(),
    {
        match self {
            Action::LeftPaddleUp => Some((Side::Left, Direction::Up)),
            Action::LeftPaddleDown => Some((Side::Left, Direction::Down)),
            Action::RightPaddleUp => Some((Side::Right, Direction::Up)),
            Action::RightPaddleDown => Some((Side::Right, Direction::Down)),
            _ => None,
        }
    }
}

} // verus!
