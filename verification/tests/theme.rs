use caesar::theme::{builtin_theme, find_theme, resolve_theme, Color, Theme};

fn dummy_theme(name: &str) -> Theme {
    let c = Color { r: 0, g: 0, b: 0 };
    Theme {
        name: name.into(),
        bg: c.clone(),
        fg: c.clone(),
        cursor: c.clone(),
        ansi: std::array::from_fn(|_| c.clone()),
        accents: std::array::from_fn(|_| c.clone()),
    }
}

#[test]
fn defaults_to_mocha_when_all_none() {
    let theme = resolve_theme(None, None, None, None, None, &[]);
    assert_eq!(theme.name, "catppuccin-mocha");
}

#[test]
fn tool_env_wins_over_workspace_env() {
    let theme = resolve_theme(
        Some("catppuccin-frappe".into()),
        None,
        None,
        Some("catppuccin-latte".into()),
        None,
        &[],
    );
    assert_eq!(theme.name, "catppuccin-frappe");
}

#[test]
fn workspace_env_used_when_no_tool_env() {
    let theme = resolve_theme(None, None, None, Some("catppuccin-latte".into()), None, &[]);
    assert_eq!(theme.name, "catppuccin-latte");
}

#[test]
fn tool_env_wins_over_cli_and_config() {
    let theme = resolve_theme(
        Some("catppuccin-latte".into()),
        Some("catppuccin-frappe".into()),
        Some("catppuccin-macchiato".into()),
        None,
        None,
        &[],
    );
    assert_eq!(theme.name, "catppuccin-latte");
}

#[test]
fn cli_wins_over_module_config() {
    let theme = resolve_theme(
        None,
        Some("catppuccin-frappe".into()),
        Some("catppuccin-macchiato".into()),
        None,
        None,
        &[],
    );
    assert_eq!(theme.name, "catppuccin-frappe");
}

#[test]
fn module_config_wins_over_workspace() {
    let theme = resolve_theme(
        None,
        None,
        Some("catppuccin-frappe".into()),
        None,
        Some("catppuccin-latte".into()),
        &[],
    );
    assert_eq!(theme.name, "catppuccin-frappe");
}

#[test]
fn workspace_config_used_as_fallback() {
    let theme = resolve_theme(None, None, None, None, Some("catppuccin-macchiato".into()), &[]);
    assert_eq!(theme.name, "catppuccin-macchiato");
}

#[test]
fn unknown_name_falls_through() {
    let theme = resolve_theme(
        Some("no-such-theme".into()),
        Some("catppuccin-latte".into()),
        None,
        None,
        None,
        &[],
    );
    assert_eq!(theme.name, "catppuccin-latte");
}

#[test]
fn all_unknown_falls_back_to_mocha() {
    let theme = resolve_theme(
        Some("nope".into()),
        Some("nope2".into()),
        Some("nope3".into()),
        Some("nope4".into()),
        Some("nope5".into()),
        &[],
    );
    assert_eq!(theme.name, "catppuccin-mocha");
}

#[test]
fn custom_theme_overrides_builtin_of_same_name() {
    let mut custom = dummy_theme("catppuccin-mocha");
    custom.bg = Color { r: 0xFF, g: 0xFF, b: 0xFF };
    let theme = resolve_theme(None, None, Some("catppuccin-mocha".into()), None, None, &[custom]);
    assert_eq!(theme.bg.to_hex(), "#FFFFFF");
}

#[test]
fn custom_theme_found_by_name() {
    let custom = dummy_theme("my-special-theme");
    let theme = resolve_theme(None, None, Some("my-special-theme".into()), None, None, &[custom]);
    assert_eq!(theme.name, "my-special-theme");
}

#[test]
fn builtin_mocha_palette() {
    let mocha = builtin_theme("catppuccin-mocha").unwrap();
    assert_eq!(mocha.bg.to_hex(), "#1E1E2E");
    assert_eq!(mocha.fg.to_hex(), "#CDD6F4");
    assert_eq!(mocha.cursor.to_hex(), "#F5E0DC");
    assert_eq!(mocha.ansi[1].to_hex(), "#F38BA8");
    assert_eq!(mocha.accents[13].to_hex(), "#B4BEFE");
}

#[test]
fn builtin_flavours_and_unknown_names() {
    assert_eq!(builtin_theme("catppuccin-latte").unwrap().bg.to_hex(), "#EFF1F5");
    assert_eq!(builtin_theme("catppuccin-frappe").unwrap().bg.to_hex(), "#303446");
    assert_eq!(builtin_theme("catppuccin-macchiato").unwrap().bg.to_hex(), "#24273A");
    assert!(builtin_theme("catppuccin").is_none());
    assert!(builtin_theme("").is_none());
    assert!(builtin_theme("Catppuccin-Mocha").is_none());
}

#[test]
fn to_hex_pads_each_byte() {
    assert_eq!(Color { r: 0, g: 0x0A, b: 0xF0 }.to_hex(), "#000AF0");
}

#[test]
fn first_custom_theme_of_a_name_wins() {
    let mut first = dummy_theme("dup");
    first.fg = Color { r: 1, g: 2, b: 3 };
    let mut second = dummy_theme("dup");
    second.fg = Color { r: 4, g: 5, b: 6 };
    let found = find_theme("dup", &[first, second]).unwrap();
    assert_eq!(found.fg, Color { r: 1, g: 2, b: 3 });
    assert!(find_theme("missing", &[dummy_theme("dup")]).is_none());
}

#[test]
fn unknown_custom_falls_through_to_workspace_custom() {
    let custom = dummy_theme("mine");
    let theme = resolve_theme(
        Some("unknown".into()),
        None,
        None,
        None,
        Some("mine".into()),
        &[custom],
    );
    assert_eq!(theme.name, "mine");
}
