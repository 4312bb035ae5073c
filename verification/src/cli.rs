//! Settings, as given on the command line and as they are in force.

use crate::game::GameOptions;
use crate::server::ServerOptions;
use vstd::prelude::*;

verus! {

/// How much the server writes to its log.
#[derive(Clone, Copy, Debug, PartialEq, Eq, Structural)]
pub enum LoggingLevel {
    Trace,
    Debug,
    Info,
    Warn,
    Error,
    /// Nothing is logged.
    Off,
}

/// What the command line gave. An option that was left out is `None`.
#[derive(Clone, Copy, Debug, PartialEq, Eq, Structural)]
pub struct Cli {
    /// The port to listen on.
    pub port: Option<u32>,
    /// How much to log.
    pub logging: Option<LoggingLevel>,
    /// Seconds during which guesses are taken.
    pub guess_time: Option<u64>,
    /// Seconds during which the solution is shown.
    pub showcase_time: Option<u64>,
    /// Whether players are told and removed when the server is asked to
    /// stop.
    pub termination_kick: Option<bool>,
}

/// The settings in force.
#[derive(Clone, Copy, Debug, PartialEq, Eq, Structural)]
pub struct Settings {
    pub logging: LoggingLevel,
    pub server: ServerOptions,
}

/// The port that is used when none is given.
pub const DEFAULT_PORT: u32 = 8085;

/// The seconds for guessing when none are given.
pub const DEFAULT_GUESS_TIME: u64 = 7;

/// The seconds for showing the solution when none are given.
pub const DEFAULT_SHOWCASE_TIME: u64 = 3;

/// The value of an option: what was given, or else the default.
pub open spec fn given_or<T>(given: Option<T>, default: T) -> T {
    match given {
        Some(value) => value,
        None => default,
    }
}

/// The settings that follow from the command line. What was given stands;
/// what was left out takes its default: the port `DEFAULT_PORT`, logging at
/// the level `Info`, `DEFAULT_GUESS_TIME` and `DEFAULT_SHOWCASE_TIME` seconds
/// for the two windows, and players are told of a shutdown unless this is a
/// debug build.
pub fn get_settings(cli: Cli, debug_build: bool) -> (settings: Settings)
    ensures
        settings.logging == given_or(cli.logging, LoggingLevel::Info),
        settings.server.port == given_or(cli.port, DEFAULT_PORT),
        settings.server.game.guess_time == given_or(cli.guess_time, DEFAULT_GUESS_TIME),
        settings.server.game.showcase_time == given_or(cli.showcase_time, DEFAULT_SHOWCASE_TIME),
        settings.server.server_termination_kick == given_or(cli.termination_kick, !debug_build),
{
    Settings {
        logging: match cli.logging {
            Some(level) => level,
            None => LoggingLevel::Info,
        },
        server: ServerOptions {
            game: GameOptions {
                guess_time: match cli.guess_time {
                    Some(seconds) => seconds,
                    None => DEFAULT_GUESS_TIME,
                },
                showcase_time: match cli.showcase_time {
                    Some(seconds) => seconds,
                    None => DEFAULT_SHOWCASE_TIME,
                },
            },
            port: match cli.port {
                Some(port) => port,
                None => DEFAULT_PORT,
            },
            server_termination_kick: match cli.termination_kick {
                Some(kick) => kick,
                None => !debug_build,
            },
        },
    }
}

} // verus!
