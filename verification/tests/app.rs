use caesar::app::{run, App, Mode};
use caesar::error::VeniError;
use caesar::terminal::TerminalCaps;

#[test]
fn default_mode_is_normal() {
    assert_eq!(Mode::default(), Mode::Normal);
}

#[test]
fn mode_display() {
    assert_eq!(Mode::Normal.to_string(), "NORMAL");
    assert_eq!(Mode::Insert.to_string(), "INSERT");
    assert_eq!(Mode::Visual.to_string(), "VISUAL");
    assert_eq!(Mode::Command.to_string(), "COMMAND");
}

#[test]
fn app_starts_in_normal_mode() {
    let app = App::new("/tmp".to_string(), TerminalCaps::default());
    assert_eq!(app.mode, Mode::Normal);
    assert!(!app.should_quit);
    assert_eq!(app.cwd, "/tmp");
}

#[test]
fn run_refuses_a_file() {
    assert!(run("/tmp".to_string(), true).is_ok());
    match run("/tmp/file.txt".to_string(), false) {
        Err(VeniError::NotADirectory(p)) => assert_eq!(p, "/tmp/file.txt"),
        _ => panic!("expected NotADirectory"),
    }
}
