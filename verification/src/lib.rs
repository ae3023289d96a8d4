//! A minimal Linux process-isolation runtime: the decisions, plans and texts
//! behind running a program in a sandbox, with their contracts.

pub mod decimal;
pub mod text;
pub mod error;
pub mod cgroup;
pub mod cli;
pub mod overlay;
pub mod process;
pub mod sandbox;
pub mod run;
pub mod image;
pub mod seccomp;
pub mod capabilities;
pub mod probe;
