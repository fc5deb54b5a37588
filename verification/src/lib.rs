use vstd::prelude::*;

pub mod ai_service;
pub mod chat_commands;
pub mod chat_history;
pub mod clock;
pub mod context_window;
pub mod emotion;
pub mod extract_service;
pub mod ghost;
pub mod ghost_commands;
pub mod ghost_file;
pub mod initiative;
pub mod json_text;
pub mod local_compressor;
pub mod memory_compressor;
pub mod memory_service;
pub mod prompt_builder;
pub mod screen_capture;
pub mod screenshot_commands;
pub mod sealing;
pub mod stamp_order;
pub mod sentiment_service;
pub mod secure_config;
pub mod stt_service;
pub mod summarize_service;
pub mod text;
pub mod timeline;
pub mod token_budget;
pub mod tts_service;
pub mod weather;

verus! {

} // verus!
