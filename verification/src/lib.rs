//! Decision logic for two parts of the Codex sandbox tooling.
//!
//! * [`cdi`] and [`cdi_resolver`] decide which Container Device Interface (CDI) devices a
//!   sandboxed command may use, and which parts of the devices' container edits bubblewrap can
//!   apply.
//! * [`devcontainer_cmd`] decides, question by question, how the secure devcontainer profile is
//!   written and launched.
//!
//! Nothing here touches the file system or starts a process: what only the host can answer comes
//! in as an argument, and what the host has to do goes out as a value. The modules whose names end
//! in `_laws` prove what holds of several of these functions together.

pub mod answer_laws;
pub mod bwrap;
pub mod cdi;
pub mod cdi_laws;
pub mod cdi_resolver;
pub mod devcontainer_cmd;
pub mod error;
pub mod launch_laws;
pub mod model;
pub mod os_text;
pub mod pattern;
pub mod pattern_laws;
pub mod profile_laws;
pub mod resolution_laws;
pub mod resolver_laws;
pub mod run_laws;
pub mod text;
pub mod text_laws;
pub mod translation_laws;
pub mod view_laws;
