//! The decisions of a small launcher for Unity projects: which project, which
//! editor, which process, what to say and what to do next.

pub mod calendar;
pub mod cli;
pub mod discovery;
pub mod error;
pub mod logs;
pub mod paths;
pub mod process;
pub mod progress;
pub mod runs;
pub mod script;
pub mod session;
pub mod spawn;
pub mod step;
pub mod text;
pub mod user_env;
