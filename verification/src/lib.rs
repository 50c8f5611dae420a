//! Tradscape: the rules of a turn-based multiplayer world, its wire format
//! and its session logic.

pub mod text;
pub mod rounding;
pub mod levels;
pub mod curve;
pub mod types;
pub mod search;
pub mod defs;
pub mod names;
pub mod inventory;
pub mod ledger;
pub mod handle;
pub mod pools;
pub mod reuse;
pub mod map;
pub mod sim;
pub mod path;
pub mod trade;
pub mod chat;
pub mod actions;
pub mod gather;
pub mod combat;
pub mod tick;
pub mod save;
pub mod json;
pub mod codec;
pub mod wire;
pub mod belongings;
pub mod sync;
pub mod cells;
pub mod footing;
pub mod growth;
pub mod fights;
pub mod gains;
pub mod dealings;
pub mod reading;
pub mod views;
pub mod command;
pub mod shown;
pub mod session;
pub mod talk;
pub mod comings;
pub mod frames;
pub mod notices;
pub mod spoils;
pub mod orders;
pub mod wares;
pub mod doings;
pub mod signals;
