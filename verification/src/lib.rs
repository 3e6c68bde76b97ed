//! A provider-agnostic conversational-agent core: one canonical message
//! model for three chat/tool-calling wire protocols, a registry of
//! schema-described tools with validated arguments, and a bounded,
//! cooperatively cancellable orchestration loop, stated and verified as an
//! explicit state machine. All outside work — network, disk, process,
//! store — is named as data and handed to the host.

pub mod agent;
pub mod ai;
pub mod compiler;
pub mod ctan;
pub mod entities;
pub mod git;
pub mod history;
pub mod json;
pub mod manager;
pub mod message;
pub mod metadata;
pub mod strutil;
pub mod tools;
