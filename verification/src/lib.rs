//! The logic of a browser for War Thunder camouflages: the pipeline that
//! turns image URLs into decoded pixel buffers by way of a byte cache, and
//! the state that paging, searching, tagging and installing work on. Files,
//! the network, the database and the window are the caller's.

pub mod data;
pub mod database;
pub mod dispatcher;
pub mod image_utils;
pub mod jpeg_frames;
pub mod loading_gate;
pub mod path_utils;
pub mod pending_queue;
pub mod result_table;
pub mod sorted;
pub mod tags;
pub mod text;
pub mod ui;
pub mod war_thunder_utils;
