//! Simulation core of a small arcade game: a circle dodges falling squares
//! and shoots them. All quantities are fixed-point integers; drawing, sound,
//! input and storage are left to the caller.

pub mod units;
pub mod shape;
pub mod entity;
pub mod combat;
pub mod lifecycle;
pub mod spawner;
pub mod game;
pub mod frame;
pub mod laws;
pub mod score_text;
