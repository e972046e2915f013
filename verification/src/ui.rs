//! The text that the file manager draws: pane titles, entry lines with
//! human-readable sizes, and the status bar.
use vstd::prelude::*;
use vstd::string::{StrSliceExecFns, StringExecFns, StringSliceAdditionalSpecFns};
use vstd::utf8::{
    decode_utf8, encode_utf8, encode_utf8_decode_utf8, encode_utf8_valid_utf8, is_char_boundary,
    valid_utf8_split,
};

use crate::app::{mode_label, DirEntry, Mode};
use crate::text::{decimal, push_char, push_decimal};

verus! {

/// `a - b`, or 0 when `b` is larger.
pub open spec fn sat_sub(a: int, b: int) -> int {
    if a > b {
        a - b
    } else {
        0
    }
}

/// `n` spaces.
pub open spec fn spaces(n: nat) -> Seq<char> {
    Seq::new(n, |i: int| ' ')
}

/// The UTF-8 encoding of two texts in a row is the encodings in a row.
pub proof fn lemma_encode_utf8_concat(a: Seq<char>, b: Seq<char>)
    ensures
        encode_utf8(a + b) == encode_utf8(a) + encode_utf8(b),
    decreases a.len(),
{
    if a.len() == 0 {
        assert(a + b =~= b);
        assert(encode_utf8(a) =~= Seq::<u8>::empty());
        assert(encode_utf8(a) + encode_utf8(b) =~= encode_utf8(b));
    } else {
        lemma_encode_utf8_concat(a.drop_first(), b);
        assert((a + b).drop_first() =~= a.drop_first() + b);
        assert((a + b)[0] == a[0]);
        assert(encode_utf8(a + b) =~= encode_utf8(a) + encode_utf8(b));
    }
}

proof fn lemma_ellipsis_bytes()
    ensures
        encode_utf8("..."@).len() == 3,
{
    reveal_strlit("...");
    let s = "..."@;
    assert(s.drop_first().drop_first().drop_first() =~= Seq::<char>::empty());
    reveal_with_fuel(encode_utf8, 4);
    assert(('.' as u32) == 46);
}

/// `...` followed by the bytes of `path` from `start` on.
pub open spec fn ellipsis_then(path: &str, start: int) -> Seq<char> {
    "..."@ + decode_utf8(path.spec_bytes().subrange(start, path.spec_bytes().len() as int))
}

/// `...` followed by the part of `path` from byte `start` on.
fn ellipsis_suffix(path: &str, start: usize) -> (s: String)
    requires
        start <= path.spec_bytes().len(),
        is_char_boundary(path.spec_bytes(), start as int),
    ensures
        s@ == ellipsis_then(path, start as int),
        encode_utf8(s@).len() == 3 + path.spec_bytes().len() - start,
{
    let (_, suffix) = path.split_at(start);
    let mut s = String::from_str("...");
    s.append(suffix);
    proof {
        let bytes = path.spec_bytes();
        let tail = bytes.subrange(start as int, bytes.len() as int);
        encode_utf8_decode_utf8(suffix@);
        encode_utf8_valid_utf8(path@);
        valid_utf8_split(bytes, start as int);
        lemma_encode_utf8_concat("..."@, suffix@);
        lemma_ellipsis_bytes();
        assert(suffix.spec_bytes() == tail);
    }
    s
}

/// The title `truncate_path` gives: the path itself when its bytes fit in
/// `max_width` less 4 (two borders and some padding), else `...` followed by
/// as many trailing bytes as fit after the dots.
pub open spec fn truncated_path(path: &str, max_width: int) -> Seq<char> {
    let available = sat_sub(max_width, 4);
    let len = path.spec_bytes().len() as int;
    if len <= available {
        path@
    } else {
        ellipsis_then(path, len - sat_sub(available, 3))
    }
}

/// Truncate a path string to fit within `max_width`, using a `...` prefix.
/// The cut must fall on a character boundary. The title fits in `max_width`
/// bytes whenever `max_width` is at least 3 or the path is empty; below
/// that, a non-empty path still comes out as `...`.
pub fn truncate_path(path: &str, max_width: usize) -> (s: String)
    requires
        path.spec_bytes().len() <= usize::MAX,
        path.spec_bytes().len() > sat_sub(max_width as int, 4) ==> is_char_boundary(
            path.spec_bytes(),
            path.spec_bytes().len() - sat_sub(sat_sub(max_width as int, 4), 3),
        ),
    ensures
        s@ == truncated_path(path, max_width as int),
        encode_utf8(s@).len() <= if sat_sub(max_width as int, 4) >= 3 {
            sat_sub(max_width as int, 4)
        } else {
            3
        },
        max_width >= 3 || path.spec_bytes().len() == 0 ==> encode_utf8(s@).len() <= max_width,
{
    let available = max_width.saturating_sub(4);
    if path.len() <= available {
        String::from_str(path)
    } else {
        let keep = available.saturating_sub(3);
        let start = path.len().saturating_sub(keep);
        ellipsis_suffix(path, start)
    }
}

/// The status line for a path and a mode label in `width` columns: the path
/// (cut to `...` and its tail when path, a space and the label do not fit),
/// then spaces, then the label at the right edge.
pub open spec fn status_line_text(path: &str, mode: Seq<char>, width: int) -> Seq<char> {
    let path_len = path.spec_bytes().len() as int;
    let mode_len = encode_utf8(mode).len() as int;
    let shown = if path_len + mode_len + 1 > width {
        ellipsis_then(path, sat_sub(path_len, sat_sub(width, mode_len + 4)))
    } else {
        path@
    };
    shown + spaces(sat_sub(width, encode_utf8(shown).len() + mode_len) as nat) + mode
}

/// Whether `status_line` can cut `path` where it would.
pub open spec fn status_cut_allowed(path: &str, mode: Seq<char>, width: int) -> bool {
    let path_len = path.spec_bytes().len() as int;
    let mode_len = encode_utf8(mode).len() as int;
    path_len + mode_len + 1 > width ==> is_char_boundary(
        path.spec_bytes(),
        sat_sub(path_len, sat_sub(width, mode_len + 4)),
    )
}

/// The normal-mode status line: the active directory on the left, the mode
/// label on the right, padded to `width` columns.
pub fn status_line(path: &str, mode: &str, width: usize) -> (s: String)
    requires
        path.spec_bytes().len() + mode.spec_bytes().len() + 4 <= usize::MAX,
        status_cut_allowed(path, mode@, width as int),
    ensures
        s@ == status_line_text(path, mode@, width as int),
        path.spec_bytes().len() + mode.spec_bytes().len() + 1 <= width ==> encode_utf8(s@).len()
            == width,
{
    let path_len = path.len();
    let mode_len = mode.len();
    let shown = if path_len + mode_len + 1 > width {
        let keep = width.saturating_sub(mode_len + 4);
        let start = path_len.saturating_sub(keep);
        ellipsis_suffix(path, start)
    } else {
        proof {
            encode_utf8_decode_utf8(path@);
        }
        String::from_str(path)
    };
    let shown_len = shown.as_str().len();
    let padding = width.saturating_sub(shown_len + mode_len);
    let mut s = shown;
    let ghost start = s@;
    let mut i: usize = 0;
    while i < padding
        invariant
            i <= padding,
            s@ == start + spaces(i as nat),
        decreases padding - i,
    {
        push_char(&mut s, ' ');
        i = i + 1;
        assert(s@ =~= start + spaces(i as nat));
    }
    s.append(mode);
    proof {
        let pad = spaces(padding as nat);
        assert forall|k: int| 0 <= k < pad.len() implies (#[trigger] pad[k] as u32) < 128 by {
            assert(pad[k] == ' ');
        }
        lemma_ascii_bytes(pad);
        lemma_encode_utf8_concat(start, pad);
        lemma_encode_utf8_concat(start + pad, mode@);
    }
    s
}


/// Bytes in a kibibyte, mebibyte and gibibyte.
pub const KIB: u64 = 1024;
pub const MIB: u64 = 1048576;
pub const GIB: u64 = 1073741824;

/// `num / den` rounded to the nearest integer, ties to the even one.
pub open spec fn round_half_even(num: nat, den: nat) -> nat {
    let q = num / den;
    let r = num % den;
    if 2 * r > den || (2 * r == den && q % 2 == 1) {
        q + 1
    } else {
        q
    }
}

/// `x` rounded to a multiple of the smallest of `p`, `2p`, `4p`, ... (up to
/// 2048) that leaves fewer than 2^53 multiples below it, ties to even.
pub open spec fn rounded_to_bits(x: nat, p: nat) -> nat
    decreases 4096 - p,
{
    if p == 0 || p >= 2048 || x / p < 0x20_0000_0000_0000 {
        round_half_even(x, p) * p
    } else {
        rounded_to_bits(x, 2 * p)
    }
}

/// The value of `x as f64` for a `u64` `x`: `x` rounded to 53 significant
/// bits, ties to even.
pub open spec fn as_f64(x: nat) -> nat {
    rounded_to_bits(x, 1)
}

/// A number of tenths written with one decimal place.
pub open spec fn tenths_text(n: nat) -> Seq<char> {
    decimal(n / 10) + seq!['.'] + decimal(n % 10)
}

/// The human-readable size: whole bytes below 1 KiB (`512B`), else the
/// value in KiB, MiB or GiB with one decimal place (`1.5K`, `2.0M`, `1.0G`),
/// computed as the size converted to `f64`, divided by the unit and rounded
/// to tenths, ties to even.
pub open spec fn size_text(bytes: nat) -> Seq<char> {
    if bytes >= GIB {
        tenths_text(round_half_even(10 * as_f64(bytes), GIB as nat)) + seq!['G']
    } else if bytes >= MIB {
        tenths_text(round_half_even(10 * as_f64(bytes), MIB as nat)) + seq!['M']
    } else if bytes >= KIB {
        tenths_text(round_half_even(10 * as_f64(bytes), KIB as nat)) + seq!['K']
    } else {
        decimal(bytes) + seq!['B']
    }
}

/// `x as f64`, as an integer.
fn f64_value(x: u64) -> (v: u128)
    ensures
        v == as_f64(x as nat),
        v <= 0x1_0000_0000_0000_1000,
{
    let mut p: u64 = 1;
    while p < 2048 && x / p >= 0x20_0000_0000_0000
        invariant
            1 <= p <= 4096,
            rounded_to_bits(x as nat, 1) == rounded_to_bits(x as nat, p as nat),
        decreases 4096 - p,
    {
        p = p * 2;
    }
    let q = (x / p) as u128;
    let r = (x % p) as u128;
    let wide = p as u128;
    let rounded: u128 = if 2 * r > wide || (2 * r == wide && q % 2 == 1) {
        q + 1
    } else {
        q
    };
    proof {
        let xi = x as int;
        let pi = p as int;
        let qi = q as int;
        let ri = r as int;
        assert(qi * pi + ri == xi && 0 <= ri < pi) by (nonlinear_arith)
            requires
                qi == xi / pi,
                ri == xi % pi,
                pi >= 1,
        ;
        assert((qi + 1) * pi <= xi + pi) by (nonlinear_arith)
            requires
                qi * pi + ri == xi,
                0 <= ri,
        ;
        assert(rounded * wide <= (qi + 1) * pi) by (nonlinear_arith)
            requires
                rounded <= qi + 1,
                wide == pi,
                pi >= 1,
        ;
    }
    rounded * wide
}

/// Appends `num / den` rounded to tenths, written with one decimal place.
fn push_tenths(s: &mut String, num: u128, den: u128)
    requires
        1024 <= den <= 0x100_0000_0000,
        num <= 10 * 0x1_0000_0000_0000_1000,
    ensures
        final(s)@ == old(s)@ + tenths_text(round_half_even(num as nat, den as nat)),
{
    let q = num / den;
    let r = num % den;
    assert(q <= num / 1024) by (nonlinear_arith)
        requires
            q == num / den,
            den >= 1024,
    ;
    let n = if 2 * r > den || (2 * r == den && q % 2 == 1) {
        q + 1
    } else {
        q
    };
    assert(n < 0x1_0000_0000_0000_0000);
    let n = n as u64;
    push_decimal(s, n / 10);
    push_char(s, '.');
    push_decimal(s, n % 10);
    assert(s@ =~= old(s)@ + tenths_text(round_half_even(num as nat, den as nat)));
}

/// Human-readable file size (`512B`, `1.0K`, `2.5M`, `1.0G`).
pub fn format_size(bytes: u64) -> (s: String)
    ensures
        s@ == size_text(bytes as nat),
{
    let mut s = String::new();
    if bytes >= GIB {
        push_tenths(&mut s, 10 * f64_value(bytes), GIB as u128);
        push_char(&mut s, 'G');
    } else if bytes >= MIB {
        push_tenths(&mut s, 10 * f64_value(bytes), MIB as u128);
        push_char(&mut s, 'M');
    } else if bytes >= KIB {
        push_tenths(&mut s, 10 * f64_value(bytes), KIB as u128);
        push_char(&mut s, 'K');
    } else {
        push_decimal(&mut s, bytes);
        push_char(&mut s, 'B');
    }
    assert(s@ =~= size_text(bytes as nat));
    s
}


/// ASCII text takes one byte per character.
pub proof fn lemma_ascii_bytes(s: Seq<char>)
    requires
        forall|i: int| 0 <= i < s.len() ==> (#[trigger] s[i] as u32) < 128,
    ensures
        encode_utf8(s).len() == s.len(),
    decreases s.len(),
{
    if s.len() > 0 {
        assert forall|i: int| 0 <= i < s.drop_first().len() implies (#[trigger] s.drop_first()[i] as u32)
            < 128 by {
            assert(s.drop_first()[i] == s[i + 1]);
        }
        lemma_ascii_bytes(s.drop_first());
        assert((s[0] as u32) < 128);
    }
}

/// Each mode label takes at most seven bytes.
pub proof fn lemma_mode_label_bytes(m: Mode)
    ensures
        encode_utf8(mode_label(m)).len() <= 7,
{
    reveal_strlit("NORMAL");
    reveal_strlit("INSERT");
    reveal_strlit("VISUAL");
    reveal_strlit("COMMAND");
    lemma_ascii_bytes(mode_label(m));
}

/// How a piece of an entry line is styled.
#[derive(Debug, Clone, Copy, PartialEq, Eq, Structural)]
pub enum SpanStyle {
    /// Directory names: bold blue.
    Directory,
    /// Default style.
    Plain,
}

/// A piece of text with its style.
#[derive(Debug, Clone)]
pub struct StyledText {
    pub text: String,
    pub style: SpanStyle,
}

/// `s` padded with spaces on the right to at least `width` characters.
pub open spec fn pad_right(s: Seq<char>, width: nat) -> Seq<char> {
    s + spaces(sat_sub(width as int, s.len() as int) as nat)
}

/// The line a directory listing shows for an entry: a directory as its name
/// and `/` in the directory style; a file as its name padded to 35
/// characters, then its size.
pub open spec fn entry_line_ok(entry: DirEntry, line: Seq<StyledText>) -> bool {
    if entry.is_dir {
        &&& line.len() == 1
        &&& line[0].text@ == entry.name@.push('/')
        &&& line[0].style == SpanStyle::Directory
    } else {
        &&& line.len() == 2
        &&& line[0].text@ == pad_right(entry.name@, 35)
        &&& line[0].style == SpanStyle::Plain
        &&& line[1].text@ == size_text(entry.size as nat)
        &&& line[1].style == SpanStyle::Plain
    }
}

/// The pieces of the line for one directory entry.
pub fn format_entry(entry: &DirEntry) -> (line: Vec<StyledText>)
    ensures
        entry_line_ok(*entry, line@),
        line@.len() >= 1,
        forall|k: int|
            0 <= k < line@.len() ==> ((#[trigger] line@[k]).style == SpanStyle::Directory
                <==> entry.is_dir),
        entry.is_dir ==> line@.len() == 1 && line@[0].text@ == entry.name@.push('/'),
        !entry.is_dir ==> {
            &&& line@.len() == 2
            &&& line@[0].text@.len() == (if entry.name@.len() >= 35 {
                entry.name@.len() as int
            } else {
                35
            })
            &&& line@[0].text@.subrange(0, entry.name@.len() as int) == entry.name@
            &&& forall|j: int|
                entry.name@.len() <= j < line@[0].text@.len() ==> #[trigger] line@[0].text@[j]
                    == ' '
            &&& line@[1].text@ == size_text(entry.size as nat)
        },
{
    let mut name = entry.name.clone();
    if entry.is_dir {
        push_char(&mut name, '/');
    }
    let size_str = if entry.is_dir {
        String::new()
    } else {
        format_size(entry.size)
    };
    let style = if entry.is_dir {
        SpanStyle::Directory
    } else {
        SpanStyle::Plain
    };
    let mut line: Vec<StyledText> = Vec::new();
    if size_str.as_str().is_empty() {
        proof {
            if !entry.is_dir {
                assert(size_str@.len() > 0);
            }
        }
        line.push(StyledText { text: name, style });
    } else {
        let count = name.as_str().unicode_len();
        let padding = 35usize.saturating_sub(count);
        let ghost start = name@;
        let mut i: usize = 0;
        while i < padding
            invariant
                i <= padding,
                name@ == start + spaces(i as nat),
            decreases padding - i,
        {
            push_char(&mut name, ' ');
            i = i + 1;
            assert(name@ =~= start + spaces(i as nat));
        }
        line.push(StyledText { text: name, style });
        line.push(StyledText { text: size_str, style: SpanStyle::Plain });
    }
    proof {
        if !entry.is_dir {
            let t = line@[0].text@;
            assert(t.subrange(0, entry.name@.len() as int) =~= entry.name@);
        }
    }
    line
}

/// How an entry of a pane is highlighted.
#[derive(Debug, Clone, Copy, PartialEq, Eq, Structural)]
pub enum EntryHighlight {
    /// In the visual range or the selection.
    Marked,
    /// A search match.
    SearchMatch,
    /// Nothing special.
    Plain,
}

/// The highlight of entry `i` in a pane: marked when the pane is active and
/// the entry is in the visual range (visual mode only) or in the selection;
/// otherwise a search match when the pane is active and `i` is one;
/// otherwise plain. Inactive panes show no highlights.
pub open spec fn highlight_of(
    i: int,
    is_active: bool,
    mode: Mode,
    visual_range: std::ops::Range<usize>,
    selection: Set<usize>,
    search_matches: Seq<usize>,
) -> EntryHighlight {
    let in_visual = is_active && mode == Mode::Visual && visual_range.start <= i
        && i < visual_range.end;
    let in_selection = is_active && selection.contains(i as usize);
    let is_match = is_active && search_matches.contains(i as usize);
    if in_visual || in_selection {
        EntryHighlight::Marked
    } else if is_match {
        EntryHighlight::SearchMatch
    } else {
        EntryHighlight::Plain
    }
}

/// In the active pane, in every mode, a search match that is neither in the
/// selection nor in the visual range is highlighted as a search match; an
/// entry in the selection is marked; an inactive pane highlights nothing.
pub proof fn lemma_search_matches_highlighted_in_every_mode(
    i: int,
    is_active: bool,
    mode: Mode,
    visual_range: std::ops::Range<usize>,
    selection: Set<usize>,
    search_matches: Seq<usize>,
)
    ensures
        is_active && search_matches.contains(i as usize) && !selection.contains(i as usize) && !(
        visual_range.start <= i < visual_range.end) ==> highlight_of(
            i,
            is_active,
            mode,
            visual_range,
            selection,
            search_matches,
        ) == EntryHighlight::SearchMatch,
        is_active && selection.contains(i as usize) ==> highlight_of(
            i,
            is_active,
            mode,
            visual_range,
            selection,
            search_matches,
        ) == EntryHighlight::Marked,
        !is_active ==> highlight_of(i, is_active, mode, visual_range, selection, search_matches)
            == EntryHighlight::Plain,
{
}

/// Only a directory's name is drawn in the directory style: every piece of
/// a file's line is plain, and a directory's line is its name alone.
pub proof fn lemma_only_directory_names_are_styled(entry: DirEntry, line: Seq<StyledText>)
    requires
        entry_line_ok(entry, line),
    ensures
        !entry.is_dir ==> forall|k: int|
            0 <= k < line.len() ==> (#[trigger] line[k]).style == SpanStyle::Plain,
        entry.is_dir ==> line.len() == 1 && line[0].style == SpanStyle::Directory,
{
}

/// The highlights of the `count` entries of a pane.
pub fn pane_highlights(
    count: usize,
    is_active: bool,
    mode: Mode,
    visual_range: std::ops::Range<usize>,
    selection: &std::collections::HashSet<usize>,
    search_matches: &[usize],
) -> (marks: Vec<EntryHighlight>)
    ensures
        marks@.len() == count,
        forall|i: int|
            0 <= i < count ==> #[trigger] marks@[i] == highlight_of(
                i,
                is_active,
                mode,
                visual_range,
                selection@,
                search_matches@,
            ),
        forall|i: int| 0 <= i < count && !is_active ==> #[trigger] marks@[i] == EntryHighlight::Plain,
        forall|i: int|
            0 <= i < count && is_active && selection@.contains(i as usize) ==> #[trigger] marks@[i]
                == EntryHighlight::Marked,
        forall|i: int|
            0 <= i < count && is_active && mode == Mode::Visual && visual_range.start <= i
                < visual_range.end ==> #[trigger] marks@[i] == EntryHighlight::Marked,
        forall|i: int|
            0 <= i < count && is_active && search_matches@.contains(i as usize)
                && !selection@.contains(i as usize) && !(visual_range.start <= i
                < visual_range.end) ==> #[trigger] marks@[i] == EntryHighlight::SearchMatch,
        forall|i: int|
            0 <= i < count && is_active && mode != Mode::Visual && search_matches@.contains(
                i as usize,
            ) && !selection@.contains(i as usize) ==> #[trigger] marks@[i]
                == EntryHighlight::SearchMatch,
        forall|i: int|
            0 <= i < count && !search_matches@.contains(i as usize) && !selection@.contains(
                i as usize,
            ) && !(mode == Mode::Visual && visual_range.start <= i < visual_range.end)
                ==> #[trigger] marks@[i] == EntryHighlight::Plain,
{
    broadcast use vstd::std_specs::hash::group_hash_axioms;
    let mut marks: Vec<EntryHighlight> = Vec::new();
    let mut i: usize = 0;
    while i < count
        invariant
            i <= count,
            marks@.len() == i,
            forall|k: int|
                0 <= k < i ==> #[trigger] marks@[k] == highlight_of(
                    k,
                    is_active,
                    mode,
                    visual_range,
                    selection@,
                    search_matches@,
                ),
        decreases count - i,
    {
        let in_visual = is_active && mode == Mode::Visual && visual_range.start <= i && i
            < visual_range.end;
        let in_selection = is_active && selection.contains(&i);
        let mut is_match = false;
        if is_active {
            let mut j: usize = 0;
            while j < search_matches.len()
                invariant
                    j <= search_matches@.len(),
                    is_match == (exists|k: int| 0 <= k < j && search_matches@[k] == i),
                decreases search_matches@.len() - j,
            {
                if search_matches[j] == i {
                    is_match = true;
                }
                j = j + 1;
            }
        }
        let mark = if in_visual || in_selection {
            EntryHighlight::Marked
        } else if is_match {
            EntryHighlight::SearchMatch
        } else {
            EntryHighlight::Plain
        };
        marks.push(mark);
        i = i + 1;
    }
    marks
}

/// What the bottom line of the screen shows.
#[derive(Debug, Clone)]
pub enum StatusBar {
    /// The command line (`:` and the command typed so far) or the search
    /// prompt (`/` and the query).
    Prompt(String),
    /// The normal status line.
    Status(String),
}

/// The bottom line: in command mode the command prompt; while a search is
/// being typed (`search_query` is `Some`) the search prompt; otherwise the
/// status line for `path` and the mode label in `width` columns.
pub fn status_bar(
    mode: Mode,
    search_query: Option<&str>,
    command_input: &str,
    path: &str,
    width: usize,
) -> (bar: StatusBar)
    requires
        path.spec_bytes().len() + 11 <= usize::MAX,
        mode != Mode::Command && search_query is None ==> status_cut_allowed(
            path,
            mode_label(mode),
            width as int,
        ),
    ensures
        match bar {
            StatusBar::Prompt(p) => if mode == Mode::Command {
                p@ == seq![':'] + command_input@
            } else {
                search_query is Some && p@ == seq!['/'] + search_query->0@
            },
            StatusBar::Status(s) => mode != Mode::Command && search_query is None && s@
                == status_line_text(path, mode_label(mode), width as int),
        },
{
    if mode == Mode::Command {
        let mut p = String::new();
        push_char(&mut p, ':');
        p.append(command_input);
        StatusBar::Prompt(p)
    } else {
        match search_query {
            Some(q) => {
                let mut p = String::new();
                push_char(&mut p, '/');
                p.append(q);
                StatusBar::Prompt(p)
            },
            None => {
                let label = mode.label();
                proof {
                    lemma_mode_label_bytes(mode);
                }
                StatusBar::Status(status_line(path, label, width))
            },
        }
    }
}

} // verus!
