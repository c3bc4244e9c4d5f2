//! A music library and its player, as rules without a machine: which song
//! plays next, what a seek or a change of volume comes to, which labels the
//! playlist index knows and how its lines read, where the cover of an album is
//! kept. Whoever owns the disk and the audio output asks, and does what the
//! answer says.
pub mod cover;
pub mod index;
pub mod library;
pub mod player;
pub mod playlist;
pub mod song;
pub mod text;
