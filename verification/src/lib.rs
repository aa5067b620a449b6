//! A two-paddle ball-bouncing game (Pong), written as a set of plain data
//! components and five per-frame update systems over a small entity store.
//!
//! The playfield is a 100 x 100 unit arena. All geometry is carried in
//! fixed-point integer coordinates: one arena unit is `SCALE` coordinate
//! steps, simulation time is counted in milliseconds, and velocities are in
//! steps per millisecond. Each system states its whole effect on the world
//! in its contract, and `step_frame` composes the five systems into one
//! verified frame of the game.

pub mod pong;
pub mod world;
pub mod paddle;
pub mod move_balls;
pub mod bounce_balls;
pub mod winner;
pub mod ball_spawn_timeout;
