//! TASY, a tiny autonomous entity: the rules of its body, its feelings, its
//! memory and its console, kept apart from the chip that it lives on.

pub mod checksum;
pub mod cognition;
pub mod command;
pub mod console;
pub mod decimal;
pub mod entity;
pub mod event;
pub mod heartbeat;
pub mod laws;
pub mod memory;
pub mod metabolism;
pub mod mood;
pub mod name;
pub mod personality;
pub mod save_data;
pub mod screen;
pub mod session;
pub mod storage;
pub mod text;
