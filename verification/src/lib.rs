//! Log analyzer workflow library: configuration, remote listing, file discovery,
//! plugin selection, workflow bookkeeping, UI state and round detection.

pub mod text;
pub mod lines;
pub mod remote;
pub mod config;
pub mod discoverer;
pub mod selector;
pub mod state;
pub mod visual_font;
pub mod chart_font;
pub mod pattern;
pub mod intervals;
pub mod rounds;
pub mod flows;
pub mod logs;
pub mod arm_decision;
pub mod export;
pub mod workflow;
pub mod orchestrator;
pub mod chart_style;
pub mod cli;
pub mod timeline;
pub mod gantt;
pub mod analysis;
pub mod plugins;
pub mod terminal_app;
pub mod pipeline;
