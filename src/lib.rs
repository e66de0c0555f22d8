//! A text-adventure engine: a world graph of locations joined by conditional
//! edges, a player who moves through it, a command parser, an action
//! interpreter and a bounded undo history of world edits.
use vstd::prelude::*;

pub mod text;
pub mod world;
pub mod state;
pub mod parser;
pub mod laws;

pub use state::{GameAction, GameState, Player};
pub use world::{Combination, Condition, ConditionType, Edge, Item, Node, World, WorldTemplate};

verus! {

} // verus!
