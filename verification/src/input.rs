//! The vocabulary of game inputs.
//!
//! An `Input` is not a raw key press: the embedding program turns device
//! events into this higher-level what-action-to-take vocabulary before the
//! engine sees them.

use vstd::prelude::*;

use crate::utils::Dir;

verus! {

/// Whether a directional input was shifted. A shifted press moves without
/// turning.
#[derive(Clone, Copy, Debug, PartialEq, Eq, Structural)]
pub enum IsShift {
    Yes,
    No,
}

/// One game input, consumed by `State::on_input`.
#[derive(Clone, Copy, Debug, PartialEq, Eq, Structural)]
pub enum Input {
    Dir(Dir, IsShift),
    Build,
    Quit,
    OpenInventory,
    CloseMenu,
}

impl Input {
    /// The direction of a directional input, none for the others.
    pub fn direction(self) -> (r: Option<Dir>)
        ensures
            r == (match self {
                Input::Dir(d, _) => Some(d),
                _ => None,
            }),
    {
        match self {
            Input::Dir(d, _) => Some(d),
            _ => None,
        }
    }
}

/// The keyboard layout: which game input a pressed letter stands for.
/// Lower-case movement turns; upper-case movement is shifted.
pub open spec fn spec_letter_input(c: char) -> Option<Input> {
    match c {
        'w' => Some(Input::Dir(Dir::Up, IsShift::No)),
        's' => Some(Input::Dir(Dir::Down, IsShift::No)),
        'a' => Some(Input::Dir(Dir::Left, IsShift::No)),
        'd' => Some(Input::Dir(Dir::Right, IsShift::No)),
        'W' => Some(Input::Dir(Dir::Up, IsShift::Yes)),
        'S' => Some(Input::Dir(Dir::Down, IsShift::Yes)),
        'A' => Some(Input::Dir(Dir::Left, IsShift::Yes)),
        'D' => Some(Input::Dir(Dir::Right, IsShift::Yes)),
        'b' => Some(Input::Build),
        'B' => Some(Input::Build),
        'q' => Some(Input::Quit),
        'i' => Some(Input::OpenInventory),
        'I' => Some(Input::OpenInventory),
        _ => None,
    }
}

/// The game input a pressed letter stands for, or none for a letter that is
/// not bound.
pub fn on_letter_pressed(c: char) -> (r: Option<Input>)
    ensures
        r == spec_letter_input(c),
{
    match c {
        'w' => Some(Input::Dir(Dir::Up, IsShift::No)),
        's' => Some(Input::Dir(Dir::Down, IsShift::No)),
        'a' => Some(Input::Dir(Dir::Left, IsShift::No)),
        'd' => Some(Input::Dir(Dir::Right, IsShift::No)),
        'W' => Some(Input::Dir(Dir::Up, IsShift::Yes)),
        'S' => Some(Input::Dir(Dir::Down, IsShift::Yes)),
        'A' => Some(Input::Dir(Dir::Left, IsShift::Yes)),
        'D' => Some(Input::Dir(Dir::Right, IsShift::Yes)),
        'b' | 'B' => Some(Input::Build),
        'q' => Some(Input::Quit),
        'i' | 'I' => Some(Input::OpenInventory),
        _ => None,
    }
}

} // verus!
