//! Via: a control plane for services on machines that share one private mesh.

pub mod auth;
pub mod cli;
pub mod clock;
pub mod command_laws;
pub mod commands;
pub mod crypto;
pub mod daemon;
pub mod docker;
pub mod encoding;
pub mod event;
pub mod grants;
pub mod hub;
pub mod hub_db;
pub mod hub_laws;
pub mod hub_server;
pub mod ids;
pub mod model;
pub mod move_laws;
pub mod moves;
pub mod number;
pub mod order;
pub mod paths;
pub mod peer_laws;
pub mod process;
pub mod record_laws;
pub mod records;
pub mod release;
pub mod routes;
pub mod rpc;
pub mod secrets;
pub mod security;
pub mod service_laws;
pub mod services;
pub mod shell;
pub mod shell_laws;
pub mod ssh;
pub mod state;
pub mod state_laws;
pub mod store;
pub mod table;
pub mod text;
pub mod text_laws;
pub mod transport;
pub mod updates;
pub mod urls;
pub mod usage;
pub mod util;
pub mod view_laws;
