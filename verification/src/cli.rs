//! What the command line of the podcast app overrides in its settings.
use vstd::prelude::*;

verus! {

/// The user interface to start.
#[derive(Debug, Clone, Copy, PartialEq, Eq, Structural)]
pub enum UiArg {
    Gui,
    Tui,
    /// run without a user interface
    NoUi,
}

/// Control another instance of the app remotely.
#[derive(Debug)]
pub struct Remote {
    pub id: u64,
    pub password: Option<String>,
}

/// Serve this instance to remote ones.
#[derive(Debug)]
pub struct Server {
    pub port: Option<u16>,
    pub password: Option<String>,
}

/// The arguments the app was started with.
#[derive(Debug)]
pub struct CliArgs {
    pub ui: UiArg,
    /// the instance to connect to
    pub connect_to: Option<u64>,
    /// password of the instance to connect to
    pub password: Option<String>,
    /// serve this instance
    pub server: bool,
    pub server_password: Option<String>,
    pub server_port: Option<u16>,
}

/// The settings the command line forces: a remote when it names one to
/// connect to, and a server when it asks for one or gives a server port
/// or password.
pub fn force_cli_arguments(cli: CliArgs) -> (r: (Option<Remote>, Option<Server>))
    ensures
        match cli.connect_to {
            None => r.0 is None,
            Some(id) => r.0 matches Some(remote) && remote.id == id && remote.password
                == cli.password,
        },
        if cli.server || cli.server_port is Some || cli.server_password is Some {
            r.1 matches Some(server) && server.port == cli.server_port && server.password
                == cli.server_password
        } else {
            r.1 is None
        },
{
    let remote = match cli.connect_to {
        Some(id) => Some(Remote { id, password: cli.password }),
        None => None,
    };
    let server = match (cli.server, cli.server_port, cli.server_password) {
        (true, port, password) => Some(Server { port, password }),
        (false, None, None) => None,
        (false, None, password) => Some(Server { port: None, password }),
        (false, port, None) => Some(Server { port, password: None }),
        (false, port, password) => Some(Server { port, password }),
    };
    (remote, server)
}

} // verus!
