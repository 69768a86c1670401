//! Command extraction and reply rendering for a chat bot that forwards code
//! to the Compiler Explorer service.

pub mod text;
pub mod delivery;
pub mod markup;
pub mod extract;
pub mod godbolt;
pub mod table;
pub mod dispatch;
