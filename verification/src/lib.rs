//! The collision and motion core of a small arcade game.
//!
//! A ship steers through a wrapped plane among drifting, spinning barbells.
//! Touching the bar of a barbell retires it; touching one of its bells ends
//! the game. Once the field is empty it is filled again, one level up.
//!
//! Everything here is whole-number arithmetic. Lengths are thousandths of a
//! pixel, angles are hundredths of a degree, and sines and cosines are
//! billionths, so the same inputs give the same game on every machine and
//! every collision is decided exactly. Drawing, the keyboard and the frame
//! loop are left to the program around the library; the random generator is
//! handed in by the caller.
//!
//! Each type has a view: its state as mathematical integers. The contracts
//! speak of the views, and the laws of the game are proof functions beside
//! the functions they are about.
//!
//! - [`angle`]: angles, sine and cosine
//! - [`arith`]: rounded quotients and the square root
//! - [`geometry`]: points, rotation, lengths
//! - [`segment`]: whether two segments meet
//! - [`space`]: the wrapped world
//! - [`random`]: the random generator, and where a new barbell may go
//! - [`ship`]: the player's ship
//! - [`barbell`]: the barbells
//! - [`collision`]: whether the ship touches a barbell
//! - [`game`]: the game itself

pub mod angle;
pub mod arith;
pub mod barbell;
pub mod collision;
pub mod game;
pub mod geometry;
pub mod random;
pub mod segment;
pub mod ship;
pub mod space;
