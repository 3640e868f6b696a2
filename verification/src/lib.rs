//! A chat bot runs short scripts for its users and shows what they produce
//! while they run, in chat messages of limited size that may only be edited
//! so often. This library holds the rules of that: how output is rendered
//! and cut into messages, how the messages of a run are kept in step with
//! it, and how a run ends, is cancelled or fails. It performs no I/O: it
//! names the calls to make and takes back their answers.

pub mod cancel;
pub mod channels;
pub mod chunker;
pub mod commands;
pub mod config;
pub mod context;
pub mod currency;
pub mod decimal;
pub mod llm;
pub mod markdown;
pub mod output;
pub mod paint;
pub mod registry;
pub mod reply;
pub mod script;
pub mod supervisor;
pub mod supervisor_laws;
pub mod sync;
pub mod sync_laws;
pub mod text;
pub mod transport;
