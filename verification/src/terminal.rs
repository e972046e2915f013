//! What the running terminal offers: the multiplexer around the session and
//! the capabilities of the terminal itself.
use vstd::prelude::*;
use vstd::string::StrSliceExecFns;

use crate::text::opt_text;

verus! {

/// Graphics protocol that the terminal understands for inline images.
#[derive(Debug, Clone, Copy, PartialEq, Eq, Structural)]
pub enum GraphicsProtocol {
    /// No inline graphics.
    NoGraphics,
    /// The kitty graphics protocol.
    Kitty,
    /// The iTerm2 inline image protocol.
    Iterm2,
    /// Sixel graphics.
    Sixel,
}

/// Capabilities of the terminal the tools run in.
#[derive(Debug, Clone, Copy, PartialEq, Eq, Structural)]
pub struct TerminalCaps {
    /// Inline graphics protocol, if any.
    pub graphics: GraphicsProtocol,
    /// Whether 24-bit colour is supported.
    pub true_color: bool,
}

impl Default for TerminalCaps {
    fn default() -> (caps: Self)
        ensures
            caps.graphics == GraphicsProtocol::NoGraphics,
            !caps.true_color,
    {
        TerminalCaps { graphics: GraphicsProtocol::NoGraphics, true_color: false }
    }
}


/// The terminal multiplexer running the current session, if any.
#[derive(Debug, Clone, Copy, PartialEq, Eq, Structural)]
pub enum MultiplexerKind {
    /// tmux multiplexer.
    Tmux,
    /// Zellij multiplexer.
    Zellij,
    /// GNU screen (a.k.a. cmux).
    Cmux,
    /// No multiplexer detected.
    NoMultiplexer,
}

/// Detected information about the running terminal multiplexer.
#[derive(Debug, Clone)]
pub struct MultiplexerInfo {
    /// Which multiplexer is active (or `NoMultiplexer`).
    pub kind: MultiplexerKind,
    /// Session identifier, if the multiplexer exposes one.
    pub session_id: Option<String>,
    /// Pane identifier, if the multiplexer exposes one.
    pub pane_id: Option<String>,
}

impl Default for MultiplexerInfo {
    fn default() -> (info: Self)
        ensures
            info.kind == MultiplexerKind::NoMultiplexer,
            info.session_id is None,
            info.pane_id is None,
    {
        MultiplexerInfo { kind: MultiplexerKind::NoMultiplexer, session_id: None, pane_id: None }
    }
}

/// `i` is the position of the first `c` in `s`.
pub open spec fn is_first_index(s: Seq<char>, c: char, i: int) -> bool {
    0 <= i < s.len() && s[i] == c && forall|j: int| 0 <= j < i ==> s[j] != c
}

/// The session and pane that a `TMUX` value names: it is split at its first
/// two commas into at most three parts, the socket path, the session and the
/// pane (the pane part keeps any further commas).
pub open spec fn tmux_ids(value: Seq<char>) -> (Option<Seq<char>>, Option<Seq<char>>) {
    if exists|i: int| is_first_index(value, ',', i) {
        let i = choose|i: int| is_first_index(value, ',', i);
        let rest = value.skip(i + 1);
        if exists|j: int| is_first_index(rest, ',', j) {
            let j = choose|j: int| is_first_index(rest, ',', j);
            (Some(rest.take(j)), Some(rest.skip(j + 1)))
        } else {
            (Some(rest), None)
        }
    } else {
        (None, None)
    }
}

/// The position of the first `,` in `s`, if any.
fn find_comma(s: &str) -> (r: Option<usize>)
    ensures
        match r {
            Some(i) => is_first_index(s@, ',', i as int),
            None => !exists|i: int| is_first_index(s@, ',', i),
        },
{
    let n = s.unicode_len();
    let mut i: usize = 0;
    while i < n
        invariant
            n == s@.len(),
            i <= n,
            forall|j: int| 0 <= j < i ==> s@[j] != ',',
        decreases n - i,
    {
        if s.get_char(i) == ',' {
            return Some(i);
        }
        i = i + 1;
    }
    None
}

proof fn lemma_first_index_unique(s: Seq<char>, c: char, i: int, k: int)
    requires
        is_first_index(s, c, i),
        is_first_index(s, c, k),
    ensures
        i == k,
{
    if i < k {
        assert(s[i] != c);
    }
    if k < i {
        assert(s[k] != c);
    }
}

/// The session and pane identifiers in a `TMUX` value.
fn split_tmux(value: &str) -> (ids: (Option<String>, Option<String>))
    ensures
        (opt_text(ids.0), opt_text(ids.1)) == tmux_ids(value@),
{
    match find_comma(value) {
        None => (None, None),
        Some(i) => {
            proof {
                let c = choose|c: int| is_first_index(value@, ',', c);
                lemma_first_index_unique(value@, ',', i as int, c);
            }
            let n = value.unicode_len();
            let rest = value.substring_char(i + 1, n);
            assert(rest@ =~= value@.skip(i + 1));
            match find_comma(rest) {
                None => (Some(rest.to_owned()), None),
                Some(j) => {
                    proof {
                        let c = choose|c: int| is_first_index(rest@, ',', c);
                        lemma_first_index_unique(rest@, ',', j as int, c);
                    }
                    let m = rest.unicode_len();
                    let session = rest.substring_char(0, j);
                    let pane = rest.substring_char(j + 1, m);
                    assert(session@ =~= rest@.take(j as int));
                    assert(pane@ =~= rest@.skip(j + 1));
                    (Some(session.to_owned()), Some(pane.to_owned()))
                },
            }
        },
    }
}

/// The multiplexer that the environment shows, given the values of `TMUX`,
/// whether `ZELLIJ` is set, `ZELLIJ_SESSION_NAME`, `ZELLIJ_PANE_ID` and
/// `STY`: tmux first, then Zellij, then GNU screen.
pub open spec fn multiplexer_spec(
    tmux: Option<Seq<char>>,
    zellij: bool,
    zellij_session: Option<Seq<char>>,
    zellij_pane: Option<Seq<char>>,
    sty: Option<Seq<char>>,
) -> (MultiplexerKind, Option<Seq<char>>, Option<Seq<char>>) {
    match tmux {
        Some(t) => (MultiplexerKind::Tmux, tmux_ids(t).0, tmux_ids(t).1),
        None => if zellij {
            (MultiplexerKind::Zellij, zellij_session, zellij_pane)
        } else {
            match sty {
                Some(s) => (MultiplexerKind::Cmux, Some(s), None),
                None => (MultiplexerKind::NoMultiplexer, None, None),
            }
        },
    }
}

/// Detect the terminal multiplexer from the environment the caller read:
/// `tmux` is `TMUX`, `zellij` whether `ZELLIJ` is set, `zellij_session` and
/// `zellij_pane` are `ZELLIJ_SESSION_NAME` and `ZELLIJ_PANE_ID`, and `sty`
/// is `STY` (GNU screen's `pid.tty.host`).
pub fn detect_multiplexer(
    tmux: Option<String>,
    zellij: bool,
    zellij_session: Option<String>,
    zellij_pane: Option<String>,
    sty: Option<String>,
) -> (info: MultiplexerInfo)
    ensures
        (info.kind, opt_text(info.session_id), opt_text(info.pane_id)) == multiplexer_spec(
            opt_text(tmux),
            zellij,
            opt_text(zellij_session),
            opt_text(zellij_pane),
            opt_text(sty),
        ),
{
    if let Some(value) = tmux {
        let (session_id, pane_id) = split_tmux(value.as_str());
        return MultiplexerInfo { kind: MultiplexerKind::Tmux, session_id, pane_id };
    }
    if zellij {
        return MultiplexerInfo {
            kind: MultiplexerKind::Zellij,
            session_id: zellij_session,
            pane_id: zellij_pane,
        };
    }
    if let Some(value) = sty {
        return MultiplexerInfo { kind: MultiplexerKind::Cmux, session_id: Some(value), pane_id: None };
    }
    MultiplexerInfo::default()
}

} // verus!
