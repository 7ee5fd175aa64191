//! The logic of the Gas Codex desktop client.
//!
//! - [`config`]: the client's settings, the engine's settings that follow from
//!   them, and the probe of the configured service
//! - [`bridge`]: the engine's process and its JSON-RPC messages, one to a line
//! - [`installer`]: where the engine lives, and what installing it does
//! - [`json`], [`http`], [`paths`], [`text`]: what these are written with
//! - [`laws`]: what the operations are for, proved of every call
//!
//! Nothing here touches a file, a process or the network; of the machine, only
//! the place of the home directory is asked for. What does more is told what to do
//! by values of this library, and tells it what came of that.

pub mod bridge;
pub mod config;
pub mod http;
pub mod installer;
pub mod json;
pub mod laws;
pub mod paths;
pub mod text;

pub use bridge::{codex_notify, codex_send, codex_send_raw, codex_start, codex_stop, CodexState};
pub use config::{load_config, save_config, test_connection, AppConfig};
pub use installer::{codex_bin, engine_dir, install_engine, InstallProgress, CODEX_VERSION};
