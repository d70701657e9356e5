//! The command line.

use crate::text;
use crate::text::copy_opt;
use vstd::prelude::*;

verus! {

/// The command line of Via.
#[derive(Debug)]
pub struct Cli {
    pub command: Command,
}

/// What Via is asked to do.
#[derive(Debug)]
pub enum Command {
    Init { name: Option<String>, mesh_id: Option<String>, node_id: Option<String> },
    Doctor,
    Add { ssh_host: String, name: Option<String>, public: bool },
    Start { bind: String },
    Nodes,
    Hub { command: HubCommand },
    Invite { command: InviteCommand },
    Join { token: String, name: Option<String> },
    Node { command: NodeCommand },
    Ps,
    Deploy {
        target: String,
        to: String,
        name: String,
        port: Option<String>,
        route: RouteMode,
        command: Vec<String>,
    },
    Services,
    Status { service: String },
    Logs { service: Option<String>, follow: bool, limit: usize },
    Stop { service: String },
    Restart { service: String },
    Rm { service: String },
    Exec { node: String, route: RouteMode, command: Vec<String> },
    Move { from: String, to: String },
    Open { service: String },
    Update { check: bool, all: bool, node: Option<String>, version: Option<String> },
    Publish { service: String, private: bool },
    Secret { command: SecretCommand },
    Daemon { bind: String },
}

/// What is asked of a node record.
#[derive(Debug)]
pub enum NodeCommand {
    Rename { old_slug: String, new_name: String },
    Addr { node: String, address: String },
    Ping { node: String, route: RouteMode },
    Rm { node: String },
}

/// What is asked of a hub.
#[derive(Debug)]
pub enum HubCommand {
    Use { url: String },
    Status,
    List,
    Drop,
    Start { bind: String, lux_dir: Option<String>, migrate: bool },
    Migrate { lux_dir: Option<String> },
}

/// What is asked about invites.
#[derive(Debug)]
pub enum InviteCommand {
    Create { name: Option<String>, ttl: i64 },
}

/// How another node is reached.
#[derive(Debug, Clone, Copy, PartialEq, Eq, Structural)]
pub enum RouteMode {
    Auto,
    Direct,
    Hub,
}

/// What is asked about secrets.
#[derive(Debug)]
pub enum SecretCommand {
    Put { name: String, value: String },
    Delete { name: String },
    List,
}

/// What a command needs before it can run.
#[derive(Debug)]
pub enum Startup {
    /// It is the daemon itself.
    Daemon { bind: String },
    /// It is a hub, which has its own store.
    Hub { bind: String, lux_dir: Option<String>, migrate: bool },
    /// It prepares the store of a hub.
    Migrate { lux_dir: Option<String> },
    /// It joins a mesh, and opens the node's state only then.
    Join { token: String, name: Option<String> },
    /// It needs the node's state.
    State,
}

/// What a command needs before it can run. A hub that is started always prepares
/// its store.
pub fn startup(command: &Command) -> (r: Startup)
    ensures
        match *command {
            Command::Daemon { bind } => r matches Startup::Daemon { bind: b } && b@ == bind@,
            Command::Hub { command: HubCommand::Start { bind, lux_dir, migrate } } => r matches
                Startup::Hub { bind: b, lux_dir: l, migrate: m } && b@ == bind@ && text::opt_text(l)
                == text::opt_text(lux_dir) && m,
            Command::Hub { command: HubCommand::Migrate { lux_dir } } => r matches
                Startup::Migrate { lux_dir: l } && text::opt_text(l) == text::opt_text(lux_dir),
            Command::Join { token, name } => r matches Startup::Join { token: t, name: n } && t@
                == token@ && text::opt_text(n) == text::opt_text(name),
            _ => r is State,
        },
{
    match command {
        Command::Daemon { bind } => Startup::Daemon { bind: bind.clone() },
        Command::Hub { command: HubCommand::Start { bind, lux_dir, migrate: _ } } => Startup::Hub {
            bind: bind.clone(),
            lux_dir: copy_opt(lux_dir),
            migrate: true,
        },
        Command::Hub { command: HubCommand::Migrate { lux_dir } } => Startup::Migrate {
            lux_dir: copy_opt(lux_dir),
        },
        Command::Join { token, name } => Startup::Join {
            token: token.clone(),
            name: copy_opt(name),
        },
        _ => Startup::State,
    }
}

} // verus!
