//! Rage of Mages (J2ME): verified readers for the game's resource formats,
//! and the game itself as far as its first screen — its own resource
//! loaders, its boot, its run loop and the fading Nival logo.
//!
//! - The format readers ([`pak`], [`map`], [`int_table`], [`scenes`],
//!   [`utf`]) are strict: a blob parses exactly or is rejected with a
//!   [`FormatError`]. [`mutf8`] and [`scenes_encode`] state the writers'
//!   side and prove that the readers invert it.
//! - The game's loaders ([`loader`], [`text`], [`common`], [`trig`]) read the
//!   same files the way the game does, through its Java stream model
//!   ([`jio`]); [`loader::law_loader_reads_the_pak`] proves the two agree.
//! - The boot and the loop ([`canvas_m`], [`midlet`]) work on the game state
//!   [`game::M`]; the host supplies resources, clock samples and decoded
//!   image sizes, and makes the drawing calls the painters return.
pub mod canvas_m;
pub mod common;
pub mod game;
pub mod int_table;
pub mod jio;
pub mod jrandom;
pub mod jvm;
pub mod loader;
pub mod map;
pub mod midlet;
pub mod mutf8;
pub mod pak;
pub mod reader;
pub mod resource;
pub mod scenes;
pub mod scenes_encode;
pub mod screens;
pub mod strings;
pub mod text;
pub mod trig;
pub mod utf;

pub use reader::{FormatError, Reader};
