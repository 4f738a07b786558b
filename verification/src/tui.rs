//! State of the terminal interface: buffers, widgets' models and the text they
//! show. Drawing them on the terminal is left to the application.
pub mod line_buffer;
pub mod spinner;
pub mod tool_block;
pub mod approval;
pub mod toast;
pub mod footer;
pub mod header;
pub mod component;
pub mod chat;
pub mod styled;
pub mod theme;
pub mod markdown;
pub mod messages;
pub mod input;
pub mod app;
