use sveio::cli::{
    get_settings, Cli, LoggingLevel, Settings, DEFAULT_GUESS_TIME, DEFAULT_PORT,
    DEFAULT_SHOWCASE_TIME,
};
use sveio::game::GameOptions;
use sveio::server::{shutdown_kick, shutdown_signal, ServerOptions, Shutdown, SHUTDOWN_GRACE_SECONDS};

fn nothing_given() -> Cli {
    Cli { port: None, logging: None, guess_time: None, showcase_time: None, termination_kick: None }
}

#[test]
fn defaults_apply_when_nothing_is_given() {
    let settings = get_settings(nothing_given(), false);
    assert_eq!(
        settings,
        Settings {
            logging: LoggingLevel::Info,
            server: ServerOptions {
                game: GameOptions { guess_time: 7, showcase_time: 3 },
                port: 8085,
                server_termination_kick: true,
            },
        }
    );
    assert_eq!(DEFAULT_PORT, 8085);
    assert_eq!(DEFAULT_GUESS_TIME, 7);
    assert_eq!(DEFAULT_SHOWCASE_TIME, 3);
}

#[test]
fn a_debug_build_does_not_kick_on_shutdown() {
    assert!(!get_settings(nothing_given(), true).server.server_termination_kick);
    assert!(get_settings(nothing_given(), false).server.server_termination_kick);
}

#[test]
fn what_is_given_stands() {
    let cli = Cli {
        port: Some(9000),
        logging: Some(LoggingLevel::Off),
        guess_time: Some(20),
        showcase_time: Some(0),
        termination_kick: Some(false),
    };
    for debug_build in [true, false] {
        let settings = get_settings(cli, debug_build);
        assert_eq!(settings.logging, LoggingLevel::Off);
        assert_eq!(settings.server.port, 9000);
        assert_eq!(settings.server.game, GameOptions { guess_time: 20, showcase_time: 0 });
        assert!(!settings.server.server_termination_kick);
    }
    let kick = Cli { termination_kick: Some(true), ..nothing_given() };
    assert!(get_settings(kick, true).server.server_termination_kick);
}

#[test]
fn shutdown_tells_the_players_only_when_asked() {
    assert_eq!(shutdown_signal(false), None);
    let shutdown = shutdown_signal(true).unwrap();
    assert_eq!(shutdown, Shutdown { notice: shutdown_kick(), grace_seconds: 5 });
    assert_eq!(shutdown.notice.message, "Server going down");
    assert_eq!(SHUTDOWN_GRACE_SECONDS, 5);
}
