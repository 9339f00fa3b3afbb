//! A process dashboard's verified core: the delta engine that turns raw
//! cumulative counters into rates, the aggregator that merges processes by
//! executable path, the filter and sort engine, and the keyboard-driven
//! interaction state machine. Reading the operating system, rendering, and
//! running commands stay outside; this crate works on plain values handed
//! in and hands effects back.

pub mod action_menu;
pub mod app;
pub mod app_logic;
pub mod appdata;
pub mod kill;
pub mod logs;
pub mod numbers;
pub mod procfs;
pub mod strings;
pub mod sysinfo;
pub mod sysinfo_render;
pub mod update;
