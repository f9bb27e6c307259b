//! A runtime for Luau scripts: `require` with caching, aliases and cycle
//! detection, a scheduler of cooperative tasks, and native extensions.
//!
//! Here is what the runtime decides. Its host holds the Luau state, the file
//! system and the clock; it is asked for one thing at a time, and what it
//! answers decides how things go on.
pub mod alias_laws;
pub mod compile;
pub mod eval;
pub mod hires_timer;
pub mod jit;
pub mod library_laws;
pub mod loadlib;
pub mod luau;
pub mod luaurc;
pub mod luaurc_laws;
pub mod module_laws;
pub mod path;
pub mod path_laws;
pub mod report;
pub mod report_laws;
pub mod require;
pub mod require_laws;
pub mod require_resolver;
pub mod resolution;
pub mod resolution_laws;
pub mod resolver_laws;
pub mod runtime_data;
pub mod scheduler_history;
pub mod scheduler_laws;
pub mod script_laws;
pub mod source;
pub mod source_laws;
pub mod start;
pub mod task_laws;
pub mod task_scheduler;
pub mod text;
pub mod text_laws;
pub mod text_map;
pub mod timers;
pub mod version;
pub mod windows_path_laws;
