//! Safety core of a disk-cleanup assistant for developer machines.
//!
//! The library decides whether a proposed cleanup action may run at all:
//! it validates filesystem targets against a closed allowlist of cache
//! directories, validates subprocess invocations against a closed command
//! registry with typed confirmation tokens, plans reversible move-to-trash
//! operations, classifies finished command output, and synthesizes
//! permission-repair follow-up actions.  Everything here is pure logic over
//! plain values; the thin executable shell that touches the filesystem,
//! processes and the environment lives outside and only feeds values in.

pub mod action;
pub mod allowlist;
pub mod classify;
pub mod cli;
pub mod command;
pub mod config;
pub mod engine;
pub mod evidence;
pub mod exit;
pub mod fixplan;
pub mod format;
pub mod repair;
pub mod report;
pub mod risk;
pub mod rules;
pub mod scan;
pub mod selection;
pub mod simctl;
pub mod snapshots;
pub mod text;
pub mod trash;
