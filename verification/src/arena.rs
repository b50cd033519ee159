//! The playing field, its measures, and what stands on it when a game
//! starts. All of them are whole numbers of arena units.

use vstd::prelude::*;

use crate::input::{Axis, Binding, ElementState, KeyCode};

verus! {

/// The arena's extent from the left goal edge to the right one.
pub const ARENA_WIDTH: u32 = 1024;

/// The arena's extent along the goal edges.
pub const ARENA_HEIGHT: u32 = 768;

/// How thick a paddle is, from its front to its back. Nothing moves this far
/// in one update, so that no ball passes through a paddle between two
/// updates.
pub const PADDLE_WIDTH: u32 = 20;

/// How long a paddle is, along its goal edge.
pub const PADDLE_LENGTH: u32 = 200;

/// The speed at which a steered paddle moves along its edge, per update.
pub const PADDLE_SPEED: i32 = 10;

/// The speed of a ball, per update.
pub const BALL_SPEED: u32 = 15;

/// A place in the arena. `x` runs from the left goal edge, `y` along it.
#[derive(Clone, Copy, Debug, PartialEq, Eq)]
pub struct Point {
    pub x: u32,
    pub y: u32,
}

/// A paddle as a game starts with it: at rest, with its centre at
/// `position`.
#[derive(Clone, Copy, Debug, PartialEq, Eq)]
pub struct PaddleStart {
    pub position: Point,
    pub length: u32,
    pub axis: Axis,
}

/// The paddle that starts at `position` and answers to the two keys, both
/// released.
pub open spec fn paddle_start(position: Point, pos: KeyCode, neg: KeyCode) -> PaddleStart {
    PaddleStart {
        position,
        length: PADDLE_LENGTH,
        axis: Axis {
            pos: Binding { state: ElementState::Released, key: pos },
            neg: Binding { state: ElementState::Released, key: neg },
        },
    }
}

/// The middle of the arena.
pub open spec fn middle() -> Point {
    Point { x: (ARENA_WIDTH / 2) as u32, y: (ARENA_HEIGHT / 2) as u32 }
}

/// The middle of the arena, where balls come into play.
pub fn centre() -> (point: Point)
    ensures
        point == middle(),
        point.x * 2 == ARENA_WIDTH,
        point.y * 2 == ARENA_HEIGHT,
{
    Point { x: ARENA_WIDTH / 2, y: ARENA_HEIGHT / 2 }
}

/// The two paddles of a new game: one in the middle of the left goal edge on
/// the keys A and Q, one in the middle of the right goal edge on L and O.
pub fn starting_paddles() -> (paddles: Vec<PaddleStart>)
    ensures
        paddles@ == seq![
            paddle_start(Point { x: 0, y: middle().y }, KeyCode::A, KeyCode::Q),
            paddle_start(Point { x: ARENA_WIDTH, y: middle().y }, KeyCode::L, KeyCode::O),
        ],
{
    let middle = centre();
    let mut paddles: Vec<PaddleStart> = Vec::new();
    paddles.push(
        PaddleStart {
            position: Point { x: 0, y: middle.y },
            length: PADDLE_LENGTH,
            axis: Axis::new(KeyCode::A, KeyCode::Q),
        },
    );
    paddles.push(
        PaddleStart {
            position: Point { x: ARENA_WIDTH, y: middle.y },
            length: PADDLE_LENGTH,
            axis: Axis::new(KeyCode::L, KeyCode::O),
        },
    );
    paddles
}

} // verus!
