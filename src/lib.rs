//! Level description language and deterministic simulation of a small
//! side-scrolling platformer.
//!
//! Every length, position and speed is a fixed-point number counted in
//! thousandths of a pixel; see [`geometry`].

pub mod geometry;
pub mod animation;
pub mod object;
pub mod text;
pub mod tokenizer;
pub mod world;
pub mod interpretor;
pub mod resource;
pub mod game;
pub mod util;
pub mod menu;
