//! The decisions behind a local-first speaking coach.

pub mod analysis;
pub mod app;
pub mod audio;
pub mod calendar;
pub mod coach;
pub mod draft;
pub mod history;
pub mod journeys;
pub mod labels;
pub mod llm;
pub mod manage;
pub mod personas;
pub mod promises;
pub mod rows;
pub mod screens;
pub mod stt;
pub mod text;
pub mod tools;
pub mod tts;
pub mod workers;
