//! Reading, editing and writing the save files of a game whose save format
//! is a flat, fixed-layout byte buffer.
pub mod character;
pub mod chrono;
pub mod codec;
pub mod dlc4;
pub mod error;
pub mod flags;
pub mod game_data;
pub mod item;
pub mod layout;
pub mod primitives;
pub mod save;
pub mod slot;
