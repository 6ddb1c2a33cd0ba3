//! A command-pipeline engine for an interactive shell session: a line parser,
//! the session state, in-process builtins and a pipeline executor whose outside
//! work (processes, files, network) is performed by the embedding program.

pub mod table;
pub mod text;
pub mod builtins;
pub mod parser;
pub mod history;
pub mod session;
pub mod executor;
pub mod decode;
pub mod operands;
pub mod laws;
pub mod completion;
