//! The logic of a bridge between batteries and Home Assistant over MQTT.
//!
//! For each device the bridge publishes one flattened JSON document to
//! `<base>/<slug>/state`; every entity is a discovery config under
//! `<prefix>/<component>/bc_<slug>/<key>/config` with a template into that document.

pub mod bridge;
pub mod command;
pub mod coverage_laws;
pub mod discovery;
pub mod discovery_laws;
pub mod document_laws;
pub mod double;
pub mod entity_laws;
pub mod identity_laws;
pub mod json;
mod presence;
pub mod reading;
pub mod registry;
pub mod session;
pub mod session_laws;
pub mod slug;
pub mod state;
pub mod state_laws;
pub mod status;
pub mod text;
pub mod text_laws;

pub use command::parse_command;
pub use discovery::discovery_configs;
pub use slug::slugify;
pub use state::flatten;
