//! Backend library of a desktop front end for the `ani-cli` anime scraper:
//! the shared history file, allanime candidate selection, external-player
//! and Syncplay argv construction, Kitsu cache keys, image-cache keys,
//! the `ani-cli` self-update schedule and the error type.

pub mod allanime;
pub mod aniskip;
pub mod availability;
pub mod bash;
pub mod config;
pub mod download;
pub mod error;
pub mod external_player;
pub mod history;
pub mod image_prune;
pub mod images;
pub mod kitsu;
pub mod meta;
pub mod play;
pub mod play_cache;
pub mod play_flow;
pub mod play_resolution_cache;
pub mod play_select;
pub mod process;
pub mod proxy;
pub mod reverse_lookup;
pub mod session;
pub mod syncplay;
pub mod text;
pub mod timefmt;
pub mod ttl;
pub mod update;
pub mod web;

pub use error::AniError;
pub use play::VERSION;
