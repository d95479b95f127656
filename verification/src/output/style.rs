//! The symbols of the CLI's palette.
//!
//! Colour is never the only signal: every state that has a colour also has a symbol and a
//! word, so the output survives being piped, screen-read, or viewed by someone who cannot
//! distinguish red from green. Applying the colours is the terminal layer's work.
pub mod symbol;
