//! The game logic of a small isometric roguelike: the grid geometry, the
//! mapping from pressed keys to actions, the turn state machine of an entity,
//! and the reader of libGDX texture atlases that the editor imports.
#![allow(non_camel_case_types, non_snake_case)]

pub mod grid;
pub mod actions;
pub mod event_handler;
pub mod atlas;
pub mod entity;
pub mod v01;
pub mod utils;
