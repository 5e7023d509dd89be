//! Turn-based simulation core of a roguelike: character actions, status
//! effects, combat power and procedural population of dungeon floors.
pub mod action;
pub mod active_skill;
pub mod catalog;
pub mod chara;
pub mod effect;
pub mod game;
pub mod geom;
pub mod hooks;
pub mod item;
pub mod map;
pub mod mapgen;
pub mod power;
pub mod region;
pub mod rng;
pub mod rules;
pub mod status;
pub mod window;
