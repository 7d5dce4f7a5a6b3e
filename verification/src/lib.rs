//! Rule engine for a four-player hex-grid settlement-building board game.
//!
//! The engine owns the static board topology (tiles, roads, buildings and
//! their adjacency), the randomized board generator, the turn-phase state
//! machine, the placement validator for settlements and roads, and the
//! per-player resource ledger with dice-driven production. Presentation
//! (rendering, input handling) lives outside and only reads snapshots of
//! this state or submits validated intents.

pub mod array;
pub mod board;
pub mod building;
pub mod chit;
pub mod color;
pub mod game;
pub mod harbor;
pub mod random;
pub mod resource;
pub mod road;
pub mod robber;
pub mod tile;
pub mod topology;
pub mod turn;
