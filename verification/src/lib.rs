//! Prepares the clips of a video for publication.
//!
//! Two commands share one layout on disk. The download command asks a
//! metadata service for the clips of a video and stores those that were
//! selected, each below the directory of its creator, at most three at a
//! time. The burn command overlays each creator's credits on the stored
//! clips with an external encoder, one clip after the other.
//!
//! This library holds what the commands decide and compute: paths, requests,
//! plans, the encoder's arguments, and the state of every download and every
//! encoder run. It touches neither the network nor the disk; the program
//! around it does what the library asks for and reports what came of it.

pub mod api;
pub mod burner;
pub mod cli;
pub mod config;
pub mod download;
pub mod encoder;
pub mod escape;
pub mod layout;
pub mod pool;
pub mod text;
pub mod update;
