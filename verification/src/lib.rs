//! Session state of the bridge between a remote peer and its user interface.

pub mod aom;
pub mod async_tasks;
pub mod audio;
pub mod audio_codec;
pub mod clipboard;
pub mod connection_manager;
pub mod core_main;
pub mod cursor;
pub mod error;
pub mod file_transfer;
pub mod global_events;
pub mod handler;
pub mod image;
pub mod json;
pub mod kcp_stream;
pub mod layout;
pub mod message;
pub mod peer_additions;
pub mod pointer;
pub mod quality;
pub mod renderer;
pub mod session;
pub mod session_api;
pub mod session_id;
pub mod session_laws;
pub mod sessions;
pub mod table;
pub mod text;
pub mod ui_events;
pub mod virtual_display;
