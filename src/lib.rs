//! Core of an instance control plane: a sandboxed path resolver with a
//! protected-path policy, an instance registry with its lifecycle state
//! machine, and the throttling logic of progression sessions.

pub mod download;
pub mod error;
pub mod events;
pub mod fs_ops;
mod outside;
pub mod path;
pub mod policy;
pub mod progression;
pub mod registry;
pub mod request;
pub mod text;
pub mod upload;

