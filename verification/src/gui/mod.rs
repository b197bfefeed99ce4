//! What the screens hold, answer and show.
pub mod answer_laws;
pub mod card_laws;
pub mod cards;
pub mod download;
pub mod folders;
pub mod laws;
pub mod page_laws;
pub mod progress;
pub mod queue;
pub mod queue_laws;
pub mod run_laws;
pub mod sections;
pub mod settings;
pub mod ui;
