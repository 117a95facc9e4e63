//! A beat-synchronised VJ engine: clocks, cues and their sequencing, saved
//! projects, sources of frames, and the control surface without its drawing.

pub mod analysis;
pub mod app;
pub mod bank;
pub mod capture;
pub mod clippool;
pub mod clock;
pub mod commands;
pub mod control_input;
pub mod control_laws;
pub mod editing;
pub mod editing_laws;
pub mod engine;
pub mod footage_laws;
pub mod gfx;
pub mod hap;
pub mod isf;
pub mod laws;
pub mod mirror;
pub mod output_laws;
pub mod paths;
pub mod playback_laws;
pub mod project;
pub mod project_laws;
pub mod readout_laws;
pub mod relink;
pub mod render;
pub mod reopening;
pub mod saving;
pub mod seqs;
pub mod sequencer;
pub mod session;
pub mod session_laws;
pub mod shaderwatch;
pub mod text;
pub mod timing_laws;
pub mod transcode;
pub mod ui;
pub mod units;
pub mod video;
