//! The rules of a two-paddle ball game, apart from its arithmetic on
//! coordinates.
//!
//! - `input`: how key changes steer the paddles and ask for balls.
//! - `event` and `channel`: how the events of the window reach the systems
//!   that read them, each event once for every reader.
//! - `schedule`: the systems of the game and the order in which a dispatcher
//!   takes them.
//! - `arena`: the measures of the playing field and the paddles a game
//!   starts with.
//! - `table`: the layout of the table in which the world is printed.

pub mod arena;
pub mod channel;
pub mod event;
pub mod input;
pub mod schedule;
pub mod table;
