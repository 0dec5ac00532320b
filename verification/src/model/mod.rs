//! The song model: songs, tracks, lanes and their items.
pub mod lane;
pub mod lane_item;
pub mod point;
pub mod module;
pub mod track;
pub mod song;
pub mod topology;
