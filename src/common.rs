use vstd::prelude::*;

verus! {

/// Marks an entity as a moving character.
#[derive(Clone, Copy, Debug, Default, PartialEq, Eq, Structural)]
pub struct Character;

/// The lifecycle stages of the game.
#[derive(Clone, Copy, Debug, Default, PartialEq, Eq, Hash, Structural)]
pub enum GameState {
    #[default]
    Preload,
    Load,
    Gameplay,
    MainMenu,
}

/// Where a held object is to be found, by index.
#[derive(Clone, Copy, Debug, Default, PartialEq, Eq, Structural)]
pub enum IndexPointer {
    #[default]
    Empty,
    FindAt(usize),
    WaitFor(usize),
}

} // verus!
