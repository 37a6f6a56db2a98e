//! A shell whose pipelines carry structured records: the verified core.
//!
//! The modules hold the pipe-type lattice, process exit statuses, the
//! resolver's decisions, the pipeline engine's checks and plumbing plan, the
//! evaluation of a command as a state machine, the data-path selector over
//! records, the record-stream framer and the command-line parser.
//! Operating-system work (searching for programs, files, pipes, processes,
//! terminals) is done by the program around this library, which carries out
//! the actions the evaluation asks for.
pub mod ast;
pub mod codec;
pub mod engine;
pub mod error;
pub mod eval;
pub mod exe;
pub mod exit;
pub mod parser;
pub mod path;
pub mod record;
pub mod text;
pub mod types;
