use caesar::error::{ConfigError, VeniError};

#[test]
fn not_a_directory_displays_path() {
    let err = VeniError::NotADirectory("/tmp/file.txt".to_string());
    assert!(err.to_string().contains("/tmp/file.txt"));
}

#[test]
fn io_error_converts() {
    let io_err = std::io::Error::new(std::io::ErrorKind::PermissionDenied, "denied");
    let err = VeniError::from(io_err);
    assert!(err.to_string().contains("denied"));
}

#[test]
fn veni_messages() {
    assert_eq!(VeniError::NotADirectory("/a".into()).to_string(), "not a directory: /a");
    let e = VeniError::ReadDir {
        path: "/d".into(),
        source: std::io::Error::new(std::io::ErrorKind::NotFound, "gone"),
    };
    assert_eq!(e.to_string(), "cannot read directory: /d: gone");
    assert_eq!(
        VeniError::from(ConfigError { message: "bad key".into() }).to_string(),
        "configuration error: bad key"
    );
    let io = VeniError::Io(std::io::Error::new(std::io::ErrorKind::Other, "boom"));
    assert_eq!(io.to_string(), "I/O error: boom");
    assert_eq!(VeniError::Terminal("raw mode".into()).to_string(), "terminal error: raw mode");
}
