//! getType: the decision logic of a push-to-talk dictation app — recorder and
//! action generations, audio resampling and silence trimming, hotkey parsing,
//! transcript history, AI post-processing and response handling, and the menu bar
//! icon and windows.

pub mod text;
pub mod recorder;
pub mod resample;
pub mod preprocess;
pub mod hotkey;
pub mod history;
pub mod settings;
pub mod llm;
pub mod stt;
pub mod verify;
pub mod output;
pub mod pill;
pub mod log;
pub mod permissions;
pub mod tray;
