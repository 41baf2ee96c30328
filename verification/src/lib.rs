//! Verified core of a remote Hermes workspace client: SSH argument
//! construction and failure diagnosis, export naming, remote Python payload
//! framing, workspace bookmarks, workflow presets and launch plans, Kanban
//! mutation requests and skill inventory parsing.

pub mod error;
pub mod identity;
pub mod models;
pub mod sort;
pub mod text;

pub mod file;
pub mod kanban;
pub mod local_export;
pub mod remote_python;
pub mod skill;
pub mod ssh;
pub mod workflow;
