//! Battle-royale simulation engine: combatant registry, arena circle,
//! movement and collision solver, turn-based attack scheduler, raffle
//! lifecycle, chat command interpreter, and the per-player persistence
//! model, all with verified contracts.
pub mod arena;
pub mod auth;
pub mod combatant;
pub mod config;
pub mod commands;
pub mod db;
pub mod events;
pub mod geom;
pub mod movement;
pub mod num;
pub mod registry;
pub mod rng;
pub mod scheduler;
pub mod skin;
pub mod spawn;
pub mod text;
pub mod tick;
pub mod world;
