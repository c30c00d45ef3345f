pub mod args;
pub mod bw;
pub mod catalog;
pub mod chance;
pub mod cmd;
pub mod compress;
pub mod control;
pub mod escape;
pub mod fs;
pub mod get_ssh;
pub mod job;
pub mod matching;
pub mod order;
pub mod pattern;
pub mod plan;
pub mod planner;
pub mod planner_laws;
pub mod send_recv_opts;
pub mod sequence;
pub mod sync_pipelines;
pub mod sys;
pub mod text;
pub mod util;
pub mod walker;
pub mod zfs;
pub mod zfs_cmd;
