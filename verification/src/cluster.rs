//! Where the server runs: on its own, or under an orchestrator that assigns
//! its public address.

use vstd::prelude::*;
use vstd::string::*;

verus! {

/// The port of the datagram transport.
pub const DATA_PORT: u16 = 42424;

/// The port on which the server takes session requests.
pub const SESSION_PORT: u16 = 8081;

/// The port at which clients expect the signalling endpoint.
pub const CLIENT_SESSION_PORT: u16 = 8080;

/// The surroundings of a game server.
pub trait GameServer {
    /// Tells the surroundings that the server is starting.
    fn start(&self);

    /// The public address of the datagram transport, as `host:port`.
    fn address(&self) -> String;
}

/// A server that runs on its own, reachable on the local host.
pub struct Standalone {}

/// The public address of a standalone server.
pub open spec fn standalone_address() -> Seq<char> {
    "127.0.0.1:42424"@
}

impl GameServer for Standalone {
    fn start(&self) {
    }

    fn address(&self) -> (address: String)
        ensures
            address@ == standalone_address(),
    {
        String::from_str("127.0.0.1:42424")
    }
}

/// The surroundings of this server: it runs on its own, so its public
/// address is that of the local host.
pub fn get_game_server() -> (server: Standalone)
    ensures
        server == (Standalone {  }),
{
    Standalone {  }
}

} // verus!
