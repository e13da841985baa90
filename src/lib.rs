//! A turn-based rule engine for a settlement-building board game on a hex grid:
//! board topology, per-player resource ledgers and the state machine that decides
//! which player actions are legal and how they change the game.
pub mod coordinates;
pub mod resources;
pub mod trade_contract;
pub mod locations;
pub mod settlement_map;
pub mod hexagon;
pub mod board;
mod random;
mod seq_facts;
pub mod generator;
pub mod player;
pub mod trade;
pub mod actions;
pub mod state_machine;
pub mod game;
pub mod placement;
pub mod opening;
pub mod main_phase;
pub mod robber;
pub mod dice;
pub mod cards;
pub mod trading;
pub mod dispatch;
