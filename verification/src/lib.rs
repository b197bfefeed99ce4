//! The decisions behind MimirDLP, a desktop front end for yt-dlp: what is installed and what may
//! be trusted, what a looked up link shows, and how the queue and the settings pages answer.
//!
//! Nothing here touches the disk, the network or the window. What those have to do comes out of
//! this crate as plain values, and what they answer goes back in as plain values.
pub mod config;
pub mod gui;
pub mod log;
pub mod metadata;
pub mod process;
pub mod provision;
pub mod seqs;
pub mod text;
pub mod text_laws;
