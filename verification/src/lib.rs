//! Verified core of the yunying desktop back end: IPC routing, RedClaw
//! scheduling decisions, media catalog rules, onboarding and task state
//! machines, and the login session registry.

pub mod text;
pub mod num;
pub mod json;
pub mod strs;
pub mod redclaw_runner;
pub mod evidence;
pub mod execution;
pub mod login;
pub mod ipc;
pub mod media;
pub mod schedule;
pub mod social;
pub mod redclaw;
pub mod generation;
pub mod runtime;
pub mod system;
pub mod tasks;
pub mod knowledge;
pub mod order;
pub mod status;
pub mod receipt;
pub mod calendar;
pub mod job_requests;
