use crosshair::cli::{Cli, Command, CommonArgs, HomeUnset, RunArgs, StatusArgs, AGENT_GUIDE};
use crosshair::path::FilePath;

fn args(state: Option<&str>) -> CommonArgs {
    CommonArgs {
        configs: vec![FilePath::from_text("/c.yaml")],
        state: state.map(FilePath::from_text),
    }
}

#[test]
fn a_named_state_file_is_taken_as_it_is() {
    let home = Some(FilePath::from_text("/home/me"));
    assert_eq!(
        args(Some("/tmp/x.db")).resolved_state_path(home),
        Ok(FilePath::from_text("/tmp/x.db"))
    );
    assert_eq!(
        args(Some("x.db")).resolved_state_path(None),
        Ok(FilePath::from_text("x.db"))
    );
}

#[test]
fn the_default_state_file_is_below_home() {
    for (home, expected) in [
        ("/home/me", "/home/me/.local/state/crosshair/state.db"),
        ("/home/me/", "/home/me/.local/state/crosshair/state.db"),
        ("/", "/.local/state/crosshair/state.db"),
        ("", ".local/state/crosshair/state.db"),
    ] {
        let joined = std::path::PathBuf::from(home)
            .join(".local")
            .join("state")
            .join("crosshair")
            .join("state.db");
        assert_eq!(joined, std::path::PathBuf::from(expected));
        assert_eq!(
            args(None).resolved_state_path(Some(FilePath::from_text(home))),
            Ok(FilePath::from_text(expected))
        );
    }
}

#[test]
fn without_home_there_is_no_default_state_file() {
    assert_eq!(args(None).resolved_state_path(None), Err(HomeUnset));
}

#[test]
fn agent_help_is_usage_then_guide() {
    let text = Cli::help_agent_text("Usage: crosshair");
    assert_eq!(text, format!("Usage: crosshair\n{AGENT_GUIDE}"));
    assert!(AGENT_GUIDE.starts_with("# crosshair"));
    assert!(AGENT_GUIDE.ends_with("survive the attempt.\n"));
}

#[test]
fn a_command_line_holds_one_command() {
    let run = Cli {
        help_agent: false,
        command: Some(Command::Run(RunArgs {
            common: args(None),
            tick: "30s".to_string(),
            once: true,
        })),
    };
    assert!(matches!(run.command, Some(Command::Run(RunArgs { once: true, .. }))));
    let status = Cli {
        help_agent: false,
        command: Some(Command::Status(StatusArgs { common: args(None) })),
    };
    assert!(matches!(status.command, Some(Command::Status(_))));
}

#[test]
fn paths_that_are_not_utf8_are_shown_with_replacements() {
    let p = FilePath { bytes: vec![b'/', 0xff, b'x'] };
    assert_eq!(p.display(), "/\u{fffd}x");
    assert_eq!(FilePath::from_text("/tmp/…").display(), "/tmp/…");
    assert!(p.same_as(&p.clone()));
    assert!(!p.same_as(&FilePath { bytes: vec![b'/', 0xfe, b'x'] }));
}
