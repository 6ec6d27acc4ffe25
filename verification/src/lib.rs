//! Background resource loading for a game client, and the decoding that its
//! loads do.
//!
//! The frame thread asks for a resource under an identity and goes on; one
//! worker thread runs the load; the frame thread later collects what has
//! finished. The table of pending loads is the only state the two threads
//! share.
//!
//! - `identity`, `resource`: what a load is asked for under and what it ends
//!   with.
//! - `table`: the table of pending loads, one thread at a time.
//! - `laws`: what holds of the table whatever is done to it.
//! - `loader`: the table behind its lock, and the worker.
//! - `bytes`, `signature`, `sprite`, `sprite_file`: reading game files.
//! - `ground`: the layout of a map's ground mesh.
//! - `archive`: paths and directories of an archive under construction.
//! - `color`, `cart`: small rules of the interface.

pub mod archive;
pub mod bytes;
pub mod cart;
pub mod color;
pub mod ground;
pub mod identity;
pub mod laws;
pub mod loader;
pub mod resource;
pub mod signature;
pub mod sprite;
pub mod sprite_file;
pub mod table;
