use caesar::error::{CommonError, ConfigError, VidiError};

#[test]
fn file_not_found_displays_path() {
    let err = VidiError::FileNotFound("/tmp/missing.txt".to_string());
    assert!(err.to_string().contains("/tmp/missing.txt"));
}

#[test]
fn no_viewer_displays_kind() {
    let err = VidiError::NoViewerAvailable { kind: "Pdf".to_string() };
    assert!(err.to_string().contains("Pdf"));
}

#[test]
fn tool_failed_displays_tool_and_code() {
    let err = VidiError::ToolFailed { tool: "bat".to_string(), code: 1 };
    let msg = err.to_string();
    assert!(msg.contains("bat"));
    assert!(msg.contains('1'));
}

#[test]
fn from_common_error_file_not_found() {
    let common = CommonError::FileNotFound("/tmp/x".to_string());
    let vidi: VidiError = common.into();
    assert!(vidi.to_string().contains("/tmp/x"));
}

#[test]
fn from_common_error_theme() {
    let common = CommonError::Theme("bad theme".to_string());
    let vidi: VidiError = common.into();
    assert!(vidi.to_string().contains("bad theme"));
}

#[test]
fn vidi_messages() {
    assert_eq!(
        VidiError::ToolFailed { tool: "bat".into(), code: -12 }.to_string(),
        "tool 'bat' failed with exit code -12"
    );
    assert_eq!(
        VidiError::ToolFailed { tool: "x".into(), code: i32::MIN }.to_string(),
        "tool 'x' failed with exit code -2147483648"
    );
    assert_eq!(
        VidiError::ToolFailed { tool: "x".into(), code: 0 }.to_string(),
        "tool 'x' failed with exit code 0"
    );
    assert_eq!(VidiError::ToolNotFound { tool: "glow".into() }.to_string(), "tool 'glow' not found on PATH");
    assert_eq!(VidiError::NoViewerAvailable { kind: "Pdf".into() }.to_string(), "no viewer available for Pdf");
    assert_eq!(VidiError::Theme("t".into()).to_string(), "theme error: t");
    let unreadable = VidiError::FileUnreadable {
        path: "/f".into(),
        source: std::io::Error::new(std::io::ErrorKind::Other, "eof"),
    };
    assert_eq!(unreadable.to_string(), "cannot read file: /f: eof");
    assert_eq!(
        VidiError::from(ConfigError { message: "m".into() }).to_string(),
        "configuration error: m"
    );
    let io: VidiError = std::io::Error::new(std::io::ErrorKind::Other, "io").into();
    assert_eq!(io.to_string(), "I/O error: io");
}

#[test]
fn detection_errors_become_theme_errors() {
    let vidi: VidiError = CommonError::Detection("no tty".into()).into();
    assert_eq!(vidi.to_string(), "theme error: no tty");
    let vidi: VidiError = CommonError::Config(ConfigError { message: "c".into() }).into();
    assert_eq!(vidi.to_string(), "configuration error: c");
    let vidi: VidiError = CommonError::Io(std::io::Error::new(std::io::ErrorKind::Other, "z")).into();
    assert_eq!(vidi.to_string(), "I/O error: z");
    let vidi: VidiError = CommonError::FileUnreadable {
        path: "/p".into(),
        source: std::io::Error::new(std::io::ErrorKind::Other, "q"),
    }
    .into();
    assert_eq!(vidi.to_string(), "cannot read file: /p: q");
}
