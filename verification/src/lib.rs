use vstd::prelude::*;

pub mod astar;
pub mod board;
pub mod cells;
pub mod client;
pub mod empty_board;
pub mod external;
pub mod field;
pub mod game;
pub mod gem;
pub mod grid;
pub mod hud;
pub mod lobby;
pub mod lobby_laws;
pub mod menu;
pub mod path;
pub mod play;
pub mod protocol;
pub mod recipe;
pub mod rng;
pub mod route;
pub mod search;
pub mod shared_layout;
pub mod special;
pub mod text;
pub mod textorder;
pub mod tower;

verus! {

} // verus!
