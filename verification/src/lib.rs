//! The game logic of Orxnre, a small terminal exploration game: the map and
//! its tiles, the player, the shop, the bag, the battles and the menus.
//! Everything that touches the terminal lives outside this crate; what is here
//! computes plain values (and styled text) from plain values.

pub mod style;
pub mod color;
pub mod data;
pub mod text;
pub mod rng;
pub mod battle;
pub mod bag;
pub mod game;
pub mod menu;
pub mod shop;
pub mod save;
pub mod laws;
