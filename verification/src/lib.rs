//! Text, settings, hotkey and dictation-session logic of a Windows
//! voice-typing tray app, with its contracts proved by Verus.

pub mod text;
pub mod hinglish;
pub mod vocabulary;
pub mod autopause;
pub mod output;
pub mod gateway;
pub mod sounds;
pub mod logbuf;
pub mod transcript;
pub mod autostart;
pub mod models;
pub mod hotkey;
pub mod hook;
pub mod session;
pub mod gpu;
pub mod machine;
pub mod overlay;
pub mod power;
pub mod live_preview;
pub mod devices;
pub mod settings;
