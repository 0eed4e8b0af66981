//! Playback-control logic for a Jellyfin desktop player.
pub mod text;
pub mod url;
pub mod segments;
pub mod skipper;
pub mod model;
pub mod headers;
pub mod numbers;
pub mod mpchc;
pub mod playback;
pub mod input;
pub mod external;
pub mod context;
pub mod reporter;
pub mod players;
pub mod transition;
pub mod commands;
pub mod ipc;
pub mod markers;
pub mod chapters;
pub mod properties;
pub mod mpchc_session;
pub mod mpchc_skip;
pub mod startup;
pub mod session;
pub mod coordinator;
pub mod tracks;
