//! What the server needs to know to start and to stop.

use crate::game::GameOptions;
use crate::packets::DisconnectPacket;
use vstd::prelude::*;
use vstd::string::StringExecFns;

verus! {

/// What the server runs with.
#[derive(Clone, Copy, Debug, PartialEq, Eq, Structural)]
pub struct ServerOptions {
    pub game: GameOptions,
    pub port: u32,
    /// Whether players are told and removed when the server is asked to stop.
    pub server_termination_kick: bool,
}

/// How long the server waits after it has told the players that it is going
/// down, in seconds, so that the notice can reach them.
pub const SHUTDOWN_GRACE_SECONDS: u64 = 5;

/// What the server does about its players when it is asked to stop.
#[derive(Debug, PartialEq, Eq)]
pub struct Shutdown {
    /// The notice that every connection is sent before it is closed.
    pub notice: DisconnectPacket,
    /// The seconds to wait after the notices have gone out.
    pub grace_seconds: u64,
}

/// The notice for everybody when the server is about to stop.
pub fn shutdown_kick() -> (notice: DisconnectPacket)
    ensures
        notice.message@ == "Server going down"@,
{
    DisconnectPacket { message: String::from_str("Server going down") }
}

/// Decides what to do about the players when the server is asked to stop:
/// with `should_kick` every connection is sent a notice and closed, and the
/// server waits for `SHUTDOWN_GRACE_SECONDS`; without it nothing is done.
pub fn shutdown_signal(should_kick: bool) -> (shutdown: Option<Shutdown>)
    ensures
        match shutdown {
            Some(shutdown) => {
                &&& should_kick
                &&& shutdown.notice.message@ == "Server going down"@
                &&& shutdown.grace_seconds == SHUTDOWN_GRACE_SECONDS
            },
            None => !should_kick,
        },
{
    if should_kick {
        Some(Shutdown { notice: shutdown_kick(), grace_seconds: SHUTDOWN_GRACE_SECONDS })
    } else {
        None
    }
}

} // verus!
