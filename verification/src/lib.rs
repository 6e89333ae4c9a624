//! A request-dispatch and execution pipeline for named engine contracts.
//!
//! A store of contracts — script and key-material pairs found in a directory
//! at startup — serves named execution requests: the bounded request body
//! goes to an execution engine together with the named contract, and on
//! success a command string is extracted from the engine's output, meant to
//! be run as an operating-system process whose captured output becomes a
//! retrievable log record, named by a fresh random hexadecimal identifier.
//! On engine failure the diagnostic text is the response, verbatim.
//!
//! A deliberate design hazard, flagged here rather than resolved: the
//! command string comes out of engine output that is itself influenced by
//! the caller-supplied body, and no allow-list, argument restriction or
//! sandbox stands between that string and the process that runs it. Whoever
//! deploys this pipeline trusts the engine's output with the machine it
//! runs on.
//!
//! The library decides; it does not perform I/O. The caller lists the
//! contract directory, runs the engine, spawns the process and writes the
//! log file, handing each result back as a plain value.

pub mod dispatch;
pub mod engine;
pub mod hex;
pub mod logs;
pub mod store;
