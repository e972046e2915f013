//! Colour themes: the built-in Catppuccin flavours, user-defined themes,
//! and the resolution of the active theme from the override chain.
use vstd::prelude::*;

use crate::text::{hex_byte, opt_text, push_char, push_hex_byte, str_eq};

verus! {

/// A 24-bit RGB colour.
#[derive(Debug, Clone, Copy, PartialEq, Eq, Structural)]
pub struct Color {
    pub r: u8,
    pub g: u8,
    pub b: u8,
}

/// `#RRGGBB` with upper-case hexadecimal digits.
pub open spec fn hex_text(c: Color) -> Seq<char> {
    seq!['#'] + hex_byte(c.r) + hex_byte(c.g) + hex_byte(c.b)
}

impl Color {
    /// The colour as `#RRGGBB`, upper-case.
    pub fn to_hex(&self) -> (s: String)
        ensures
            s@ == hex_text(*self),
    {
        let mut s = String::new();
        push_char(&mut s, '#');
        push_hex_byte(&mut s, self.r);
        push_hex_byte(&mut s, self.g);
        push_hex_byte(&mut s, self.b);
        assert(s@ =~= hex_text(*self));
        s
    }
}

/// The colour whose `0xRRGGBB` code is `code`.
pub open spec fn color_of(code: u32) -> Color {
    Color {
        r: (code / 65536 % 256) as u8,
        g: (code / 256 % 256) as u8,
        b: (code % 256) as u8,
    }
}

fn color_from_code(code: u32) -> (c: Color)
    ensures
        c == color_of(code),
{
    Color { r: (code / 65536 % 256) as u8, g: (code / 256 % 256) as u8, b: (code % 256) as u8 }
}

/// A named colour theme.
#[derive(Debug, Clone)]
pub struct Theme {
    pub name: String,
    pub bg: Color,
    pub fg: Color,
    pub cursor: Color,
    /// The sixteen ANSI colours, normal then bright.
    pub ansi: [Color; 16],
    /// Accent colours.
    pub accents: [Color; 14],
}

/// A theme as plain values.
pub struct ThemeView {
    pub name: Seq<char>,
    pub bg: Color,
    pub fg: Color,
    pub cursor: Color,
    pub ansi: Seq<Color>,
    pub accents: Seq<Color>,
}

impl View for Theme {
    type V = ThemeView;

    open spec fn view(&self) -> ThemeView {
        ThemeView {
            name: self.name@,
            bg: self.bg,
            fg: self.fg,
            cursor: self.cursor,
            ansi: self.ansi@,
            accents: self.accents@,
        }
    }
}

impl Theme {
    /// A copy of the theme.
    pub fn duplicate(&self) -> (t: Theme)
        ensures
            t@ == self@,
    {
        Theme {
            name: self.name.clone(),
            bg: self.bg,
            fg: self.fg,
            cursor: self.cursor,
            ansi: self.ansi,
            accents: self.accents,
        }
    }
}

/// Colour codes of a built-in flavour: background, foreground, cursor, the
/// sixteen ANSI colours, then the fourteen accents.
pub const LATTE: [u32; 33] = [
    0xEFF1F5, 0x4C4F69, 0xDC8A78,
    0x5C5F77, 0xD20F39, 0x40A02B, 0xDF8E1D, 0x1E66F5, 0xEA76CB, 0x179299, 0xACB0BE,
    0x6C6F85, 0xD20F39, 0x40A02B, 0xDF8E1D, 0x1E66F5, 0xEA76CB, 0x179299, 0xBCC0CC,
    0xDC8A78, 0xDD7878, 0xEA76CB, 0x8839EF, 0xD20F39, 0xE64553, 0xFE640B,
    0xDF8E1D, 0x40A02B, 0x179299, 0x04A5E5, 0x209FB5, 0x1E66F5, 0x7287FD,
];

/// Colour codes of the Frappé flavour (layout as for `LATTE`).
pub const FRAPPE: [u32; 33] = [
    0x303446, 0xC6D0F5, 0xF2D5CF,
    0x51576D, 0xE78284, 0xA6D189, 0xE5C890, 0x8CAAEE, 0xF4B8E4, 0x81C8BE, 0xB5BFE2,
    0x626880, 0xE78284, 0xA6D189, 0xE5C890, 0x8CAAEE, 0xF4B8E4, 0x81C8BE, 0xA5ADCE,
    0xF2D5CF, 0xEEBEBE, 0xF4B8E4, 0xCA9EE6, 0xE78284, 0xEA999C, 0xEF9F76,
    0xE5C890, 0xA6D189, 0x81C8BE, 0x99D1DB, 0x85C1DC, 0x8CAAEE, 0xBABBF1,
];

/// Colour codes of the Macchiato flavour (layout as for `LATTE`).
pub const MACCHIATO: [u32; 33] = [
    0x24273A, 0xCAD3F5, 0xF4DBD6,
    0x494D64, 0xED8796, 0xA6DA95, 0xEED49F, 0x8AADF4, 0xF5BDE6, 0x8BD5CA, 0xB8C0E0,
    0x5B6078, 0xED8796, 0xA6DA95, 0xEED49F, 0x8AADF4, 0xF5BDE6, 0x8BD5CA, 0xA5ADCB,
    0xF4DBD6, 0xF0C6C6, 0xF5BDE6, 0xC6A0F6, 0xED8796, 0xEE99A0, 0xF5A97F,
    0xEED49F, 0xA6DA95, 0x8BD5CA, 0x91D7E3, 0x7DC4E4, 0x8AADF4, 0xB7BDF8,
];

/// Colour codes of the Mocha flavour (layout as for `LATTE`).
pub const MOCHA: [u32; 33] = [
    0x1E1E2E, 0xCDD6F4, 0xF5E0DC,
    0x45475A, 0xF38BA8, 0xA6E3A1, 0xF9E2AF, 0x89B4FA, 0xF5C2E7, 0x94E2D5, 0xBAC2DE,
    0x585B70, 0xF38BA8, 0xA6E3A1, 0xF9E2AF, 0x89B4FA, 0xF5C2E7, 0x94E2D5, 0xA6ADC8,
    0xF5E0DC, 0xF2CDCD, 0xF5C2E7, 0xCBA6F7, 0xF38BA8, 0xEBA0AC, 0xFAB387,
    0xF9E2AF, 0xA6E3A1, 0x94E2D5, 0x89DCEB, 0x74C7EC, 0x89B4FA, 0xB4BEFE,
];

/// The theme named `name` built from the colour codes `codes` (layout as
/// for `LATTE`).
pub open spec fn palette_theme(name: Seq<char>, codes: Seq<u32>) -> ThemeView {
    ThemeView {
        name,
        bg: color_of(codes[0]),
        fg: color_of(codes[1]),
        cursor: color_of(codes[2]),
        ansi: Seq::new(16, |i: int| color_of(codes[3 + i])),
        accents: Seq::new(14, |i: int| color_of(codes[19 + i])),
    }
}

/// The built-in themes by name.
pub open spec fn builtin_view(name: Seq<char>) -> Option<ThemeView> {
    if name == "catppuccin-latte"@ {
        Some(palette_theme(name, LATTE@))
    } else if name == "catppuccin-frappe"@ {
        Some(palette_theme(name, FRAPPE@))
    } else if name == "catppuccin-macchiato"@ {
        Some(palette_theme(name, MACCHIATO@))
    } else if name == "catppuccin-mocha"@ {
        Some(palette_theme(name, MOCHA@))
    } else {
        None
    }
}

/// The theme that every resolution falls back to.
pub open spec fn default_theme() -> ThemeView {
    palette_theme("catppuccin-mocha"@, MOCHA@)
}

fn palette(name: &str, codes: &[u32; 33]) -> (t: Theme)
    ensures
        t@ == palette_theme(name@, codes@),
{
    let mut ansi = [Color { r: 0, g: 0, b: 0 }; 16];
    let mut i: usize = 0;
    while i < 16
        invariant
            i <= 16,
            forall|k: int| 0 <= k < i ==> ansi@[k] == color_of(codes@[3 + k]),
        decreases 16 - i,
    {
        ansi[i] = color_from_code(codes[3 + i]);
        i = i + 1;
    }
    let mut accents = [Color { r: 0, g: 0, b: 0 }; 14];
    let mut j: usize = 0;
    while j < 14
        invariant
            j <= 14,
            forall|k: int| 0 <= k < j ==> accents@[k] == color_of(codes@[19 + k]),
        decreases 14 - j,
    {
        accents[j] = color_from_code(codes[19 + j]);
        j = j + 1;
    }
    let t = Theme {
        name: String::from_str(name),
        bg: color_from_code(codes[0]),
        fg: color_from_code(codes[1]),
        cursor: color_from_code(codes[2]),
        ansi,
        accents,
    };
    assert(t@.ansi =~= palette_theme(name@, codes@).ansi);
    assert(t@.accents =~= palette_theme(name@, codes@).accents);
    t
}

/// The built-in theme named `name`, if there is one: the four Catppuccin
/// flavours `catppuccin-latte`, `-frappe`, `-macchiato` and `-mocha`.
pub fn builtin_theme(name: &str) -> (t: Option<Theme>)
    ensures
        match t {
            Some(t) => builtin_view(name@) == Some(t@),
            None => builtin_view(name@) is None,
        },
{
    if str_eq(name, "catppuccin-latte") {
        Some(palette(name, &LATTE))
    } else if str_eq(name, "catppuccin-frappe") {
        Some(palette(name, &FRAPPE))
    } else if str_eq(name, "catppuccin-macchiato") {
        Some(palette(name, &MACCHIATO))
    } else if str_eq(name, "catppuccin-mocha") {
        Some(palette(name, &MOCHA))
    } else {
        None
    }
}


/// The first theme of `customs` named `name`, if any.
pub open spec fn first_named(customs: Seq<ThemeView>, name: Seq<char>) -> Option<ThemeView>
    decreases customs.len(),
{
    if customs.len() == 0 {
        None
    } else if customs[0].name == name {
        Some(customs[0])
    } else {
        first_named(customs.drop_first(), name)
    }
}

/// The theme that `name` selects: the first custom theme of that name, else
/// the built-in one.
pub open spec fn find_view(name: Seq<char>, customs: Seq<ThemeView>) -> Option<ThemeView> {
    match first_named(customs, name) {
        Some(t) => Some(t),
        None => builtin_view(name),
    }
}

/// The views of a list of themes.
pub open spec fn views(themes: Seq<Theme>) -> Seq<ThemeView> {
    themes.map_values(|t: Theme| t@)
}

/// The theme that the override chain `sources` (highest priority first)
/// resolves to: the first name given that `find_view` knows, else the
/// default theme.
pub open spec fn resolve_view(sources: Seq<Option<Seq<char>>>, customs: Seq<ThemeView>) -> ThemeView
    decreases sources.len(),
{
    if sources.len() == 0 {
        default_theme()
    } else {
        match sources[0] {
            Some(name) => match find_view(name, customs) {
                Some(t) => t,
                None => resolve_view(sources.drop_first(), customs),
            },
            None => resolve_view(sources.drop_first(), customs),
        }
    }
}

/// No source of the chain names a theme that `find_view` knows.
pub open spec fn no_known_source(sources: Seq<Option<Seq<char>>>, customs: Seq<ThemeView>) -> bool {
    forall|j: int|
        0 <= j < sources.len() ==> (#[trigger] sources[j]) is None || find_view(
            sources[j]->0,
            customs,
        ) is None
}

/// The fallback theme is the built-in `catppuccin-mocha`, the dark flavour:
/// background `#1E1E2E`, foreground `#CDD6F4`.
pub proof fn lemma_default_theme_is_builtin_mocha()
    ensures
        Some(default_theme()) == builtin_view("catppuccin-mocha"@),
        default_theme().name == "catppuccin-mocha"@,
        default_theme().bg == (Color { r: 0x1E, g: 0x1E, b: 0x2E }),
        default_theme().fg == (Color { r: 0xCD, g: 0xD6, b: 0xF4 }),
{
    reveal_strlit("catppuccin-latte");
    reveal_strlit("catppuccin-frappe");
    reveal_strlit("catppuccin-macchiato");
    reveal_strlit("catppuccin-mocha");
    assert("catppuccin-mocha"@[11] != "catppuccin-latte"@[11]);
    assert("catppuccin-mocha"@.len() != "catppuccin-frappe"@.len());
    assert("catppuccin-mocha"@ != "catppuccin-macchiato"@);
    assert(MOCHA@[0] == 0x1E1E2E);
    assert(MOCHA@[1] == 0xCDD6F4);
}

/// Search `custom_themes` first, then fall back to built-in themes.
pub fn find_theme(name: &str, custom_themes: &[Theme]) -> (t: Option<Theme>)
    ensures
        match t {
            Some(t) => find_view(name@, views(custom_themes@)) == Some(t@),
            None => find_view(name@, views(custom_themes@)) is None,
        },
{
    let ghost customs = views(custom_themes@);
    let mut i: usize = 0;
    assert(customs.skip(0) =~= customs);
    while i < custom_themes.len()
        invariant
            i <= custom_themes@.len(),
            customs == views(custom_themes@),
            first_named(customs, name@) == first_named(customs.skip(i as int), name@),
        decreases custom_themes@.len() - i,
    {
        let t = &custom_themes[i];
        assert(customs.skip(i as int)[0] == t@);
        if str_eq(t.name.as_str(), name) {
            return Some(t.duplicate());
        }
        assert(customs.skip(i as int).drop_first() =~= customs.skip(i + 1));
        i = i + 1;
    }
    assert(customs.skip(i as int).len() == 0);
    builtin_theme(name)
}

/// Resolve the active theme from the priority-ordered override chain:
/// `tool_env` (tool-specific environment variable), `cli_override` (the
/// `--theme` flag), `module_config` (the tool's config section),
/// `workspace_env` (`CAESAR_THEME`) and `workspace_config` (the `[caesar]`
/// section), highest priority first. Each name given is looked up among
/// `custom_themes`, then among the built-in themes; a name found nowhere
/// falls through to the next step, and when no step yields a theme the
/// result is `catppuccin-mocha`.
pub fn resolve_theme(
    tool_env: Option<String>,
    cli_override: Option<String>,
    module_config: Option<String>,
    workspace_env: Option<String>,
    workspace_config: Option<String>,
    custom_themes: &[Theme],
) -> (t: Theme)
    ensures
        t@ == resolve_view(
            seq![
                opt_text(tool_env),
                opt_text(cli_override),
                opt_text(module_config),
                opt_text(workspace_env),
                opt_text(workspace_config),
            ],
            views(custom_themes@),
        ),
        no_known_source(
            seq![
                opt_text(tool_env),
                opt_text(cli_override),
                opt_text(module_config),
                opt_text(workspace_env),
                opt_text(workspace_config),
            ],
            views(custom_themes@),
        ) ==> Some(t@) == builtin_view("catppuccin-mocha"@),
        tool_env is Some && find_view(tool_env->0@, views(custom_themes@)) is Some ==> t@
            == find_view(tool_env->0@, views(custom_themes@))->0,
        (tool_env is None || find_view(tool_env->0@, views(custom_themes@)) is None)
            && cli_override is Some && find_view(cli_override->0@, views(custom_themes@)) is Some
            ==> t@ == find_view(cli_override->0@, views(custom_themes@))->0,
{
    let ghost customs = views(custom_themes@);
    let ghost expected = seq![
        opt_text(tool_env),
        opt_text(cli_override),
        opt_text(module_config),
        opt_text(workspace_env),
        opt_text(workspace_config),
    ];
    proof {
        if no_known_source(expected, customs) {
            lemma_unknown_names_fall_back_to_default(expected, customs);
        }
        assert(expected[0] == opt_text(tool_env));
        assert(expected[1] == opt_text(cli_override));
        if (tool_env is None || find_view(tool_env->0@, customs) is None) && cli_override is Some
            && find_view(cli_override->0@, customs) is Some {
            lemma_first_known_source_wins(expected, customs, 1);
        }
    }
    let sources = [tool_env, cli_override, module_config, workspace_env, workspace_config];
    let ghost names = sources@.map_values(|s: Option<String>| opt_text(s));
    assert(names =~= expected);
    assert(names.skip(0) =~= names);
    let mut i: usize = 0;
    while i < 5
        invariant
            i <= 5,
            sources@.len() == 5,
            names == sources@.map_values(|s: Option<String>| opt_text(s)),
            customs == views(custom_themes@),
            names == expected,
            expected == seq![
                opt_text(tool_env),
                opt_text(cli_override),
                opt_text(module_config),
                opt_text(workspace_env),
                opt_text(workspace_config),
            ],
            resolve_view(names, customs) == resolve_view(names.skip(i as int), customs),
            (tool_env is None || find_view(tool_env->0@, customs) is None) && cli_override is Some
                && find_view(cli_override->0@, customs) is Some ==> resolve_view(expected, customs)
                == find_view(cli_override->0@, customs)->0,
        decreases 5 - i,
    {
        let source = &sources[i];
        assert(names.skip(i as int)[0] == opt_text(*source));
        assert(names.skip(i as int).drop_first() =~= names.skip(i + 1));
        match source {
            Some(name) => {
                match find_theme(name.as_str(), custom_themes) {
                    Some(theme) => {
                        assert(resolve_view(names.skip(i as int), customs) == theme@);
                        assert(resolve_view(expected, customs) == theme@);
                        return theme;
                    },
                    None => {},
                }
            },
            None => {},
        }
        i = i + 1;
    }
    assert(names.skip(5).len() == 0);
    palette("catppuccin-mocha", &MOCHA)
}

/// A name that `find_view` knows decides the resolution when every
/// higher-priority source is absent or names nothing known: tool-specific
/// settings win over workspace-level ones.
pub proof fn lemma_first_known_source_wins(
    sources: Seq<Option<Seq<char>>>,
    customs: Seq<ThemeView>,
    i: int,
)
    requires
        0 <= i < sources.len(),
        sources[i] is Some,
        find_view(sources[i]->0, customs) is Some,
        forall|j: int|
            0 <= j < i ==> (#[trigger] sources[j]) is None || find_view(sources[j]->0, customs) is None,
    ensures
        resolve_view(sources, customs) == find_view(sources[i]->0, customs)->0,
    decreases i,
{
    if i > 0 {
        let rest = sources.drop_first();
        assert forall|j: int| 0 <= j < i - 1 implies (#[trigger] rest[j]) is None || find_view(
            rest[j]->0,
            customs,
        ) is None by {
            assert(rest[j] == sources[j + 1]);
        }
        lemma_first_known_source_wins(rest, customs, i - 1);
        assert(sources[0] is None || find_view(sources[0]->0, customs) is None);
    }
}

/// When no source names a known theme, the resolution is the default theme.
pub proof fn lemma_unknown_names_fall_back_to_default(
    sources: Seq<Option<Seq<char>>>,
    customs: Seq<ThemeView>,
)
    requires
        forall|j: int|
            0 <= j < sources.len() ==> (#[trigger] sources[j]) is None || find_view(
                sources[j]->0,
                customs,
            ) is None,
    ensures
        resolve_view(sources, customs) == default_theme(),
        Some(resolve_view(sources, customs)) == builtin_view("catppuccin-mocha"@),
    decreases sources.len(),
{
    lemma_default_theme_is_builtin_mocha();
    if sources.len() > 0 {
        let rest = sources.drop_first();
        assert forall|j: int| 0 <= j < rest.len() implies (#[trigger] rest[j]) is None || find_view(
            rest[j]->0,
            customs,
        ) is None by {
            assert(rest[j] == sources[j + 1]);
        }
        lemma_unknown_names_fall_back_to_default(rest, customs);
        assert(sources[0] is None || find_view(sources[0]->0, customs) is None);
    }
}

/// A custom theme overrides a built-in theme of the same name: the first
/// custom theme of a name is the one that the name selects.
pub proof fn lemma_custom_theme_shadows_builtin(customs: Seq<ThemeView>, k: int)
    requires
        0 <= k < customs.len(),
        forall|j: int| 0 <= j < k ==> (#[trigger] customs[j]).name != customs[k].name,
    ensures
        find_view(customs[k].name, customs) == Some(customs[k]),
    decreases k,
{
    if k > 0 {
        let rest = customs.drop_first();
        assert forall|j: int| 0 <= j < k - 1 implies (#[trigger] rest[j]).name != rest[k - 1].name by {
            assert(rest[j] == customs[j + 1]);
        }
        lemma_custom_theme_shadows_builtin(rest, k - 1);
        assert(customs[0].name != customs[k].name);
        assert(first_named(rest, rest[k - 1].name) == Some(rest[k - 1])) by {
            lemma_first_named_found(rest, k - 1);
        }
    }
}

proof fn lemma_first_named_found(customs: Seq<ThemeView>, k: int)
    requires
        0 <= k < customs.len(),
        forall|j: int| 0 <= j < k ==> (#[trigger] customs[j]).name != customs[k].name,
    ensures
        first_named(customs, customs[k].name) == Some(customs[k]),
    decreases k,
{
    if k > 0 {
        let rest = customs.drop_first();
        assert forall|j: int| 0 <= j < k - 1 implies (#[trigger] rest[j]).name != rest[k - 1].name by {
            assert(rest[j] == customs[j + 1]);
        }
        lemma_first_named_found(rest, k - 1);
        assert(customs[0].name != customs[k].name);
    }
}

} // verus!
