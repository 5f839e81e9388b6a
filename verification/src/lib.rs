//! Rating a queue of audio tracks: the playlists and their files, the tags
//! that are shown for a track, and the state that a rating changes.

pub mod events;
pub mod metadata;
pub mod playlist;
pub mod state;
