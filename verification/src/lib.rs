//! Playback, browsing and companion-server decisions of the Madari media client,
//! stated over plain values and proved with Verus.
pub mod text;
pub mod up_next;
pub mod languages;
pub mod tracks;
pub mod geometry;
pub mod catalogs;
pub mod sources;
pub mod controls;
pub mod server;
pub mod tickets;
pub mod scrobble;
pub mod settings;
pub mod player;
pub mod episodes;
pub mod details;
pub mod library;
pub mod calendar;
pub mod browse;
pub mod transfers;
pub mod trakt;
pub mod artwork;
pub mod profiles;
pub mod startup;
