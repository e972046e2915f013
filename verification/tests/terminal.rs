use caesar::terminal::{detect_multiplexer, GraphicsProtocol, MultiplexerInfo, MultiplexerKind, TerminalCaps};

#[test]
fn default_multiplexer_info_is_none() {
    let info = MultiplexerInfo::default();
    assert_eq!(info.kind, MultiplexerKind::NoMultiplexer);
    assert!(info.session_id.is_none());
    assert!(info.pane_id.is_none());
}

#[test]
fn detect_multiplexer_does_not_panic() {
    let info = detect_multiplexer(None, false, None, None, None);
    let _ = info.kind;
}

#[test]
fn multiplexer_kind_none_when_no_env_vars() {
    let info = detect_multiplexer(None, false, None, None, None);
    assert_eq!(info.kind, MultiplexerKind::NoMultiplexer);
    assert!(info.session_id.is_none());
    assert!(info.pane_id.is_none());
}

#[test]
fn tmux_value_splits_at_the_first_two_commas() {
    let info = detect_multiplexer(Some("/tmp/tmux-1000/default,4242,3".into()), true, None, None, None);
    assert_eq!(info.kind, MultiplexerKind::Tmux);
    assert_eq!(info.session_id.as_deref(), Some("4242"));
    assert_eq!(info.pane_id.as_deref(), Some("3"));
}

#[test]
fn tmux_pane_keeps_further_commas() {
    let info = detect_multiplexer(Some("p,s,a,b".into()), false, None, None, None);
    assert_eq!(info.session_id.as_deref(), Some("s"));
    assert_eq!(info.pane_id.as_deref(), Some("a,b"));
}

#[test]
fn tmux_value_without_commas_has_no_ids() {
    let info = detect_multiplexer(Some("/tmp/sock".into()), false, None, None, None);
    assert_eq!(info.kind, MultiplexerKind::Tmux);
    assert!(info.session_id.is_none());
    assert!(info.pane_id.is_none());
    let info = detect_multiplexer(Some("/tmp/sock,only".into()), false, None, None, None);
    assert_eq!(info.session_id.as_deref(), Some("only"));
    assert!(info.pane_id.is_none());
    let info = detect_multiplexer(Some("é,ü,ß".into()), false, None, None, None);
    assert_eq!(info.session_id.as_deref(), Some("ü"));
    assert_eq!(info.pane_id.as_deref(), Some("ß"));
}

#[test]
fn zellij_wins_over_screen() {
    let info = detect_multiplexer(None, true, Some("main".into()), Some("7".into()), Some("1.pts.host".into()));
    assert_eq!(info.kind, MultiplexerKind::Zellij);
    assert_eq!(info.session_id.as_deref(), Some("main"));
    assert_eq!(info.pane_id.as_deref(), Some("7"));
}

#[test]
fn screen_session_from_sty() {
    let info = detect_multiplexer(None, false, Some("ignored".into()), None, Some("1234.pts-0.host".into()));
    assert_eq!(info.kind, MultiplexerKind::Cmux);
    assert_eq!(info.session_id.as_deref(), Some("1234.pts-0.host"));
    assert!(info.pane_id.is_none());
}

#[test]
fn default_caps_have_no_graphics() {
    let caps = TerminalCaps::default();
    assert_eq!(caps.graphics, GraphicsProtocol::NoGraphics);
    assert!(!caps.true_color);
}
