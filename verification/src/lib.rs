//! RustyChat core: the storage-backed entity model, prompt templating and
//! conversation orchestration of a browser-hosted chat client.
//!
//! `state` holds the entities and the settings catalog; `storage` the keyed
//! persistent store, its flat string namespace and the cascade delete;
//! `prompt` the chat templates; `params` the numeric edit boundary;
//! `orchestrator` the submission pipeline from user message to streamed
//! reply; `errors` the user-visible reports; `signal` the reactive cells;
//! `ids` and `utils` the identifiers and small text helpers.
#![verifier::loop_isolation(false)]

pub mod errors;
pub mod ids;
pub mod orchestrator;
pub mod params;
pub mod prompt;
pub mod signal;
pub mod storage;
pub mod state;
pub mod utils;
