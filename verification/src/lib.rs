//! A desktop quick-launcher's core logic: declarative action descriptions
//! dispatched to capability-checked executors, with environment-variable
//! expansion, path normalization, composite (multi-step) actions under a
//! stop-on-error policy, and the surrounding bookkeeping (profiles and
//! pages, hotkey parsing, icon classification, drag-and-drop button
//! generation, configuration validation).
//!
//! Everything here is platform-independent decision logic: the surrounding
//! application performs the actual process spawns, shell invocations and
//! file probes, and hands their outcomes back as plain values.

pub mod action;
pub mod adapter;
pub mod config;
pub mod drag_drop;
pub mod encode;
pub mod expand;
pub mod hotkey;
pub mod icon;
pub mod json;
pub mod logger;
pub mod paths;
pub mod profile;
pub mod text;
