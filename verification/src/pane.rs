//! One pane of the file manager: the directory it shows, its sorted
//! listing, and the cursor that navigation moves.
use vstd::prelude::*;
use vstd::string::StrSliceExecFns;
use vstd::utf8::encode_utf8;

use crate::app::DirEntry;
use crate::order::{
    bytes_lt, lemma_lex_lt_asymmetric, lemma_lex_lt_total, lemma_lex_lt_transitive, lex_lt,
};

verus! {

/// Action dispatched to a pane for navigation.
#[derive(Debug, Clone, Copy, PartialEq, Eq, Structural)]
pub enum NavigationAction {
    Down,
    Up,
    Top,
    Bottom,
    Enter,
    Parent,
}

/// What the caller has to do once a navigation step has updated the pane.
#[derive(Debug, Clone, Copy, PartialEq, Eq, Structural)]
pub enum NavigationEffect {
    /// Nothing: the pane is up to date.
    Done,
    /// The working directory changed: list it again and hand the listing to
    /// `Pane::load_dir` with this `show_hidden`.
    Reload { show_hidden: bool },
}

/// State for one file-manager pane.
#[derive(Debug, Clone)]
pub struct Pane {
    pub cwd: String,
    pub entries: Vec<DirEntry>,
    pub selected: usize,
    pub scroll_offset: usize,
}

/// What `str::to_lowercase` gives for a string: the Unicode lower-case
/// mapping, which depends on the string alone.
pub uninterp spec fn lowercase_of(s: Seq<char>) -> Seq<char>;

/// What `Path::parent` gives for a path: the path without its final
/// component, if it has one. Which characters separate components is fixed
/// by the target the crate is built for (`/` on Unix; a backslash or `/` on
/// Windows), so the name is a function of the path on any one target.
pub uninterp spec fn parent_of(path: Seq<char>) -> Option<Seq<char>>;

/// `str::to_lowercase`; its result is named by `lowercase_of`.
#[verifier::external_body]
fn lowercase(s: &str) -> (r: String)
    ensures
        r@ == lowercase_of(s@),
{
    s.to_lowercase()
}

/// `std::path::Path::parent` on a UTF-8 path; its result is named by
/// `parent_of`. The parent of a UTF-8 path is a prefix of it and so is UTF-8
/// too, which makes the conversion back to `String` lossless.
#[verifier::external_body]
fn path_parent(path: &str) -> (r: Option<String>)
    ensures
        match r {
            Some(p) => parent_of(path@) == Some(p@),
            None => parent_of(path@) is None,
        },
{
    match std::path::Path::new(path).parent() {
        Some(p) => Some(p.to_string_lossy().into_owned()),
        None => None,
    }
}

/// A dotfile: a name that starts with `.`.
pub open spec fn is_dotfile(name: Seq<char>) -> bool {
    name.len() > 0 && name[0] == '.'
}

/// Whether a listing shows `e`: dotfiles only when `show_hidden` is set.
pub open spec fn is_shown(e: DirEntry, show_hidden: bool) -> bool {
    show_hidden || !is_dotfile(e.name@)
}

/// The place of an entry in a listing: whether it is a directory, and the
/// UTF-8 bytes of its sort key.
pub open spec fn rank(e: DirEntry, key: Seq<char>) -> (bool, Seq<u8>) {
    (e.is_dir, encode_utf8(key))
}

/// Rank `a` is listed strictly before rank `b`: directories before files,
/// and within each group by the bytes of the key.
pub open spec fn rank_before(a: (bool, Seq<u8>), b: (bool, Seq<u8>)) -> bool {
    (a.0 && !b.0) || (a.0 == b.0 && lex_lt(a.1, b.1))
}

/// The ranks of the entries of `raw` at the positions `origin`, each with
/// its key from `keys`.
pub open spec fn ranks_at(raw: Seq<DirEntry>, keys: Seq<Seq<char>>, origin: Seq<int>) -> Seq<
    (bool, Seq<u8>),
> {
    Seq::new(origin.len(), |k: int| rank(raw[origin[k]], keys[origin[k]]))
}

/// No rank of `r` is listed before one that precedes it.
pub open spec fn in_rank_order(r: Seq<(bool, Seq<u8>)>) -> bool {
    forall|k: int, l: int|
        #![trigger r[k], r[l]]
        0 <= k < l < r.len() ==> !rank_before(r[l], r[k])
}

/// `out` lists `raw` in listing order, entry `j` of `raw` sorting by
/// `keys[j]`: `origin[k]` is the position in `raw` of `out[k]`; every shown
/// entry of `raw` appears exactly once, no hidden one appears, the entries
/// are in rank order, and entries of equal rank keep their order from `raw`.
pub open spec fn is_listing_by(
    raw: Seq<DirEntry>,
    keys: Seq<Seq<char>>,
    show_hidden: bool,
    out: Seq<DirEntry>,
    origin: Seq<int>,
) -> bool {
    &&& origin.len() == out.len()
    &&& forall|k: int|
        0 <= k < out.len() ==> 0 <= #[trigger] origin[k] < raw.len() && out[k] == raw[origin[k]]
    &&& forall|k: int, l: int|
        #![trigger origin[k], origin[l]]
        0 <= k < l < out.len() ==> origin[k] != origin[l]
    &&& forall|k: int| 0 <= k < out.len() ==> is_shown(#[trigger] out[k], show_hidden)
    &&& forall|j: int|
        0 <= j < raw.len() && is_shown(#[trigger] raw[j], show_hidden) ==> origin.contains(j)
    &&& in_rank_order(ranks_at(raw, keys, origin))
    &&& forall|k: int, l: int|
        #![trigger origin[k], origin[l]]
        0 <= k < l < out.len() && ranks_at(raw, keys, origin)[k] == ranks_at(raw, keys, origin)[l]
            ==> origin[k] < origin[l]
}

/// The sort keys of a directory listing: the lower-cased names.
pub open spec fn lowercase_names(raw: Seq<DirEntry>) -> Seq<Seq<char>> {
    raw.map_values(|e: DirEntry| lowercase_of(e.name@))
}

/// `out` lists `raw` in listing order: directories before files, each group
/// by the UTF-8 bytes of the lower-cased name (see `is_listing_by`).
pub open spec fn is_listing_of(
    raw: Seq<DirEntry>,
    show_hidden: bool,
    out: Seq<DirEntry>,
    origin: Seq<int>,
) -> bool {
    is_listing_by(raw, lowercase_names(raw), show_hidden, out, origin)
}

/// The views of a list of strings.
pub open spec fn key_views(keys: Seq<String>) -> Seq<Seq<char>> {
    keys.map_values(|k: String| k@)
}

proof fn lemma_rank_before_strict(a: (bool, Seq<u8>), b: (bool, Seq<u8>))
    ensures
        !(rank_before(a, b) && rank_before(b, a)),
        !rank_before(a, a),
{
    lemma_lex_lt_asymmetric(a.1, b.1);
    lemma_lex_lt_asymmetric(a.1, a.1);
}

proof fn lemma_rank_before_total(a: (bool, Seq<u8>), b: (bool, Seq<u8>))
    ensures
        rank_before(a, b) || rank_before(b, a) || a == b,
{
    lemma_lex_lt_total(a.1, b.1);
}

proof fn lemma_rank_before_transitive(a: (bool, Seq<u8>), b: (bool, Seq<u8>), c: (bool, Seq<u8>))
    requires
        rank_before(a, b),
        rank_before(b, c),
    ensures
        rank_before(a, c),
{
    if a.0 == b.0 && b.0 == c.0 {
        lemma_lex_lt_transitive(a.1, b.1, c.1);
    }
}

/// Inserting `e` at `p`, after every rank listed before it and ahead of the
/// rest, keeps ranks in order.
proof fn lemma_insert_in_order(s: Seq<(bool, Seq<u8>)>, p: int, e: (bool, Seq<u8>))
    requires
        in_rank_order(s),
        0 <= p <= s.len(),
        forall|q: int| 0 <= q < p ==> rank_before(#[trigger] s[q], e),
        p < s.len() ==> !rank_before(s[p], e),
    ensures
        in_rank_order(s.insert(p, e)),
{
    let t = s.insert(p, e);
    assert forall|k: int, l: int| 0 <= k < l < t.len() implies !rank_before(
        #[trigger] t[l],
        #[trigger] t[k],
    ) by {
        if l < p {
            assert(t[k] == s[k] && t[l] == s[l]);
        } else if l == p {
            assert(t[k] == s[k]);
            assert(rank_before(s[k], e));
            lemma_rank_before_strict(s[k], e);
        } else if k == p {
            let x = s[l - 1];
            assert(t[l] == x);
            if rank_before(x, e) {
                let y = s[p];
                if l - 1 > p {
                    assert(!rank_before(x, y));
                }
                lemma_rank_before_total(x, y);
                if rank_before(y, x) {
                    lemma_rank_before_transitive(y, x, e);
                }
                lemma_rank_before_strict(y, x);
            }
        } else if k < p {
            assert(t[k] == s[k] && t[l] == s[l - 1]);
        } else {
            assert(t[k] == s[k - 1] && t[l] == s[l - 1]);
        }
    }
}

/// Whether an entry with kind `a_dir` and sort key `a_key` is listed before
/// one with `b_dir` and `b_key`.
fn precedes(a_dir: bool, a_key: &String, b_dir: bool, b_key: &String) -> (r: bool)
    ensures
        r == rank_before((a_dir, encode_utf8(a_key@)), (b_dir, encode_utf8(b_key@))),
{
    if a_dir != b_dir {
        a_dir
    } else {
        bytes_lt(a_key.as_str().as_bytes(), b_key.as_str().as_bytes())
    }
}

/// Whether the name starts with `.`.
fn starts_with_dot(name: &String) -> (r: bool)
    ensures
        r == is_dotfile(name@),
{
    let s = name.as_str();
    if s.is_empty() {
        false
    } else {
        s.get_char(0) == '.'
    }
}

/// The shown entries of `raw`, directories first and then files, each group
/// ordered by the bytes of the entries' sort keys (`keys[j]` is the key of
/// `raw[j]`); entries of equal rank keep their order from `raw`.
pub fn sort_listing(raw: Vec<DirEntry>, keys: Vec<String>, show_hidden: bool) -> (out: Vec<
    DirEntry,
>)
    requires
        raw@.len() == keys@.len(),
    ensures
        exists|origin: Seq<int>| is_listing_by(raw@, key_views(keys@), show_hidden, out@, origin),
        out@.len() <= raw@.len(),
{
    let ghost raw0 = raw@;
    let ghost keys0 = key_views(keys@);
    let mut raw = raw;
    let mut keys = keys;
    let mut out: Vec<DirEntry> = Vec::new();
    let mut out_keys: Vec<String> = Vec::new();
    let ghost mut origin: Seq<int> = Seq::empty();
    while raw.len() > 0
        invariant
            raw0.len() == keys0.len(),
            raw@.len() <= raw0.len(),
            keys@.len() == raw@.len(),
            out@.len() <= raw0.len() - raw@.len(),
            raw@ =~= raw0.subrange(0, raw@.len() as int),
            forall|j: int| 0 <= j < keys@.len() ==> (#[trigger] keys@[j])@ == keys0[j],
            out_keys@.len() == out@.len(),
            origin.len() == out@.len(),
            forall|k: int|
                0 <= k < out@.len() ==> raw@.len() <= #[trigger] origin[k] < raw0.len() && out@[k]
                    == raw0[origin[k]] && out_keys@[k]@ == keys0[origin[k]],
            forall|k: int, l: int|
                #![trigger origin[k], origin[l]]
                0 <= k < l < out@.len() ==> origin[k] != origin[l],
            forall|k: int| 0 <= k < out@.len() ==> is_shown(#[trigger] out@[k], show_hidden),
            forall|j: int|
                raw@.len() <= j < raw0.len() && is_shown(#[trigger] raw0[j], show_hidden)
                    ==> origin.contains(j),
            in_rank_order(ranks_at(raw0, keys0, origin)),
            forall|k: int, l: int|
                #![trigger origin[k], origin[l]]
                0 <= k < l < out@.len() && ranks_at(raw0, keys0, origin)[k] == ranks_at(
                    raw0,
                    keys0,
                    origin,
                )[l] ==> origin[k] < origin[l],
        decreases raw@.len(),
    {
        let e = match raw.pop() {
            Some(e) => e,
            None => {
                return out;
            },
        };
        let key = match keys.pop() {
            Some(k) => k,
            None => {
                return out;
            },
        };
        let ghost r = raw@.len() as int;
        assert(e == raw0[r]);
        assert(key@ == keys0[r]);
        let ghost new_rank = rank(e, key@);
        let ghost ranks = ranks_at(raw0, keys0, origin);
        if show_hidden || !starts_with_dot(&e.name) {
            let mut p: usize = 0;
            while p < out.len()
                invariant
                    p <= out@.len(),
                    out_keys@.len() == out@.len(),
                    origin.len() == out@.len(),
                    ranks == ranks_at(raw0, keys0, origin),
                    forall|k: int|
                        0 <= k < out@.len() ==> 0 <= #[trigger] origin[k] < raw0.len()
                            && out@[k] == raw0[origin[k]] && out_keys@[k]@ == keys0[origin[k]],
                    new_rank == rank(e, key@),
                    forall|q: int| 0 <= q < p ==> rank_before(#[trigger] ranks[q], new_rank),
                ensures
                    p <= out@.len(),
                    forall|q: int| 0 <= q < p ==> rank_before(#[trigger] ranks[q], new_rank),
                    p < out@.len() ==> !rank_before(ranks[p as int], new_rank),
                decreases out@.len() - p,
            {
                assert(ranks[p as int] == rank(out@[p as int], out_keys@[p as int]@));
                if !precedes(out[p].is_dir, &out_keys[p], e.is_dir, &key) {
                    break;
                }
                p = p + 1;
            }
            proof {
                lemma_insert_in_order(ranks, p as int, new_rank);
            }
            let ghost old_origin = origin;
            out.insert(p, e);
            out_keys.insert(p, key);
            proof {
                origin = origin.insert(p as int, r);
                assert(ranks_at(raw0, keys0, origin) =~= ranks.insert(p as int, new_rank));
                let nr = ranks_at(raw0, keys0, origin);
                assert forall|k: int, l: int|
                    #![trigger origin[k], origin[l]]
                    0 <= k < l < out@.len() && nr[k] == nr[l] implies origin[k] < origin[l] by {
                    if l == p {
                        assert(nr[k] == ranks[k]);
                        lemma_rank_before_strict(ranks[k], new_rank);
                    }
                    if k < p && l > p {
                        assert(origin[l] == old_origin[l - 1]);
                        assert(origin[k] == old_origin[k]);
                        assert(nr[k] == ranks[k] && nr[l] == ranks[l - 1]);
                    }
                    if k > p {
                        assert(origin[l] == old_origin[l - 1]);
                        assert(origin[k] == old_origin[k - 1]);
                        assert(nr[k] == ranks[k - 1] && nr[l] == ranks[l - 1]);
                    }
                    if l < p {
                        assert(nr[k] == ranks[k] && nr[l] == ranks[l]);
                    }
                }
                assert forall|k: int, l: int|
                    #![trigger origin[k], origin[l]]
                    0 <= k < l < out@.len() implies origin[k] != origin[l] by {
                    if k < p && l > p {
                        assert(origin[l] == old_origin[l - 1]);
                    }
                }
                assert forall|j: int|
                    raw@.len() <= j < raw0.len() && is_shown(#[trigger] raw0[j], show_hidden)
                    implies origin.contains(j) by {
                    if j == r {
                        assert(origin[p as int] == r);
                    } else {
                        let k = choose|k: int| 0 <= k < old_origin.len() && old_origin[k] == j;
                        if k < p {
                            assert(origin[k] == j);
                        } else {
                            assert(origin[k + 1] == j);
                        }
                    }
                }
            }
        }
    }
    proof {
        assert(raw@.len() == 0);
        assert(is_listing_by(raw0, keys0, show_hidden, out@, origin));
    }
    out
}

/// The shown entries of `raw`, directories first and then files, each group
/// ordered by lower-cased name; tied entries keep their order from `raw`.
pub fn sorted_listing(raw: Vec<DirEntry>, show_hidden: bool) -> (out: Vec<DirEntry>)
    ensures
        exists|origin: Seq<int>| is_listing_of(raw@, show_hidden, out@, origin),
        out@.len() <= raw@.len(),
        forall|k: int, l: int|
            #![trigger out@[k], out@[l]]
            0 <= k < l < out@.len() && out@[k].is_dir == out@[l].is_dir ==> !lex_lt(
                encode_utf8(lowercase_of(out@[l].name@)),
                encode_utf8(lowercase_of(out@[k].name@)),
            ),
        forall|k: int, l: int|
            #![trigger out@[k], out@[l]]
            0 <= k < l < out@.len() && out@[l].is_dir ==> out@[k].is_dir,
        forall|k: int| 0 <= k < out@.len() ==> raw@.contains(#[trigger] out@[k]),
        !show_hidden ==> forall|k: int|
            0 <= k < out@.len() ==> !((#[trigger] out@[k]).name@.len() > 0 && out@[k].name@[0]
                == '.'),
        forall|j: int|
            0 <= j < raw@.len() && (show_hidden || !((#[trigger] raw@[j]).name@.len() > 0
                && raw@[j].name@[0] == '.')) ==> out@.contains(raw@[j]),
{
    let mut keys: Vec<String> = Vec::new();
    let mut i: usize = 0;
    while i < raw.len()
        invariant
            i <= raw@.len(),
            keys@.len() == i,
            forall|j: int| 0 <= j < i ==> (#[trigger] keys@[j])@ == lowercase_of(raw@[j].name@),
        decreases raw@.len() - i,
    {
        keys.push(lowercase(raw[i].name.as_str()));
        i = i + 1;
    }
    let ghost raw0 = raw@;
    assert(key_views(keys@) =~= lowercase_names(raw0));
    let ghost keys0 = key_views(keys@);
    let out = sort_listing(raw, keys, show_hidden);
    let ghost origin = choose|origin: Seq<int>| is_listing_by(raw0, keys0, show_hidden, out@, origin);
    assert(is_listing_of(raw0, show_hidden, out@, origin));
    proof {
        lemma_listing_sorted_by_lowercase_name(raw0, show_hidden, out@, origin);
        lemma_listing_shows_the_visible_entries(raw0, show_hidden, out@, origin);
    }
    out
}

/// Where the cursor lands after `action` in a listing of `len` entries.
pub open spec fn cursor_after(selected: int, len: int, action: NavigationAction) -> int {
    match action {
        NavigationAction::Down => if len > 0 && selected < len - 1 {
            selected + 1
        } else {
            selected
        },
        NavigationAction::Up => if selected > 0 {
            selected - 1
        } else {
            selected
        },
        NavigationAction::Top => 0,
        NavigationAction::Bottom => if len > 0 {
            len - 1
        } else {
            selected
        },
        NavigationAction::Enter => selected,
        NavigationAction::Parent => selected,
    }
}

/// The directory that `action` moves the pane to, if it moves at all:
/// `Enter` on a directory goes into it, `Parent` goes to the parent of the
/// working directory when there is one.
pub open spec fn directory_after(pane: Pane, action: NavigationAction) -> Option<Seq<char>> {
    match action {
        NavigationAction::Enter => if 0 <= pane.selected < pane.entries@.len()
            && pane.entries@[pane.selected as int].is_dir {
            Some(pane.entries@[pane.selected as int].path@)
        } else {
            None
        },
        NavigationAction::Parent => parent_of(pane.cwd@),
        _ => None,
    }
}

/// A cursor is in range when it points at an entry, or is 0 in an empty
/// listing.
pub open spec fn cursor_in_range(selected: int, len: int) -> bool {
    (len == 0 && selected == 0) || (0 <= selected < len)
}

impl Pane {
    /// An empty pane on `path`, with the cursor at the top.
    pub fn new(path: String) -> (pane: Self)
        ensures
            pane.cwd == path,
            pane.entries@.len() == 0,
            pane.selected == 0,
            pane.scroll_offset == 0,
    {
        Pane { cwd: path, entries: Vec::new(), selected: 0, scroll_offset: 0 }
    }

    /// Replace the entries with the listing of `cwd` that the caller read:
    /// dotfiles are kept only when `show_hidden` is set; directories come
    /// first, then files, each group in case-insensitive alphabetical order.
    /// The cursor and the scroll position return to the top.
    pub fn load_dir(&mut self, listing: Vec<DirEntry>, show_hidden: bool)
        ensures
            exists|origin: Seq<int>|
                is_listing_of(listing@, show_hidden, final(self).entries@, origin),
            final(self).entries@.len() <= listing@.len(),
            forall|k: int, l: int|
                #![trigger final(self).entries@[k], final(self).entries@[l]]
                0 <= k < l < final(self).entries@.len()
                    && final(self).entries@[k].is_dir == final(self).entries@[l].is_dir
                    ==> !lex_lt(
                    encode_utf8(lowercase_of(final(self).entries@[l].name@)),
                    encode_utf8(lowercase_of(final(self).entries@[k].name@)),
                ),
            forall|k: int, l: int|
                #![trigger final(self).entries@[k], final(self).entries@[l]]
                0 <= k < l < final(self).entries@.len() && final(self).entries@[l].is_dir
                    ==> final(self).entries@[k].is_dir,
            forall|k: int|
                0 <= k < final(self).entries@.len() ==> listing@.contains(
                    #[trigger] final(self).entries@[k],
                ),
            !show_hidden ==> forall|k: int|
                0 <= k < final(self).entries@.len()
                    ==> !((#[trigger] final(self).entries@[k]).name@.len() > 0
                    && final(self).entries@[k].name@[0] == '.'),
            forall|j: int|
                0 <= j < listing@.len() && (show_hidden || !((#[trigger] listing@[j]).name@.len()
                    > 0 && listing@[j].name@[0] == '.')) ==> final(self).entries@.contains(
                    listing@[j],
                ),
            final(self).cwd == old(self).cwd,
            final(self).selected == 0,
            final(self).scroll_offset == 0,
    {
        let ghost listed = listing@;
        let out = sorted_listing(listing, show_hidden);
        let ghost origin = choose|origin: Seq<int>| is_listing_of(listed, show_hidden, out@, origin);
        self.entries = out;
        self.selected = 0;
        self.scroll_offset = 0;
        assert(is_listing_of(listed, show_hidden, self.entries@, origin));
    }

    /// Apply a navigation action to this pane. Cursor moves stay within the
    /// listing; `Enter` on a directory and `Parent` change the working
    /// directory, and the returned effect asks the caller to list it.
    pub fn handle_navigation(&mut self, action: NavigationAction, show_hidden: bool) -> (effect:
        NavigationEffect)
        ensures
            final(self).entries@ == old(self).entries@,
            final(self).selected as int == cursor_after(
                old(self).selected as int,
                old(self).entries@.len() as int,
                action,
            ),
            final(self).scroll_offset == (if action == NavigationAction::Top {
                0
            } else {
                old(self).scroll_offset
            }),
            match directory_after(*old(self), action) {
                Some(dir) => final(self).cwd@ == dir && effect == (NavigationEffect::Reload {
                    show_hidden,
                }),
                None => final(self).cwd == old(self).cwd && effect == NavigationEffect::Done,
            },
            action == NavigationAction::Enter
                && old(self).selected < old(self).entries@.len()
                && old(self).entries@[old(self).selected as int].is_dir
                ==> final(self).cwd@ == old(self).entries@[old(self).selected as int].path@
                && effect == (NavigationEffect::Reload { show_hidden }),
            action == NavigationAction::Enter
                && !(old(self).selected < old(self).entries@.len()
                && old(self).entries@[old(self).selected as int].is_dir)
                ==> final(self).cwd == old(self).cwd && effect == NavigationEffect::Done,
            action != NavigationAction::Enter && action != NavigationAction::Parent
                ==> final(self).cwd == old(self).cwd && effect == NavigationEffect::Done,
    {
        match action {
            NavigationAction::Down => {
                self.move_down();
                NavigationEffect::Done
            },
            NavigationAction::Up => {
                self.move_up();
                NavigationEffect::Done
            },
            NavigationAction::Top => {
                self.go_top();
                NavigationEffect::Done
            },
            NavigationAction::Bottom => {
                self.go_bottom();
                NavigationEffect::Done
            },
            NavigationAction::Enter => self.enter_dir(show_hidden),
            NavigationAction::Parent => self.go_parent(show_hidden),
        }
    }

    /// Currently highlighted entry, if any.
    pub fn current_entry(&self) -> (entry: Option<&DirEntry>)
        ensures
            entry == (if self.selected < self.entries@.len() {
                Some(&self.entries@[self.selected as int])
            } else {
                None
            }),
    {
        if self.selected < self.entries.len() {
            Some(&self.entries[self.selected])
        } else {
            None
        }
    }

    fn move_down(&mut self)
        ensures
            final(self).entries == old(self).entries,
            final(self).cwd == old(self).cwd,
            final(self).scroll_offset == old(self).scroll_offset,
            final(self).selected as int == cursor_after(
                old(self).selected as int,
                old(self).entries@.len() as int,
                NavigationAction::Down,
            ),
    {
        if !self.entries.is_empty() && self.selected < self.entries.len() - 1 {
            self.selected = self.selected + 1;
        }
    }

    fn move_up(&mut self)
        ensures
            final(self).entries == old(self).entries,
            final(self).cwd == old(self).cwd,
            final(self).scroll_offset == old(self).scroll_offset,
            final(self).selected as int == cursor_after(
                old(self).selected as int,
                old(self).entries@.len() as int,
                NavigationAction::Up,
            ),
    {
        if self.selected > 0 {
            self.selected = self.selected - 1;
        }
    }

    fn go_top(&mut self)
        ensures
            final(self).entries == old(self).entries,
            final(self).cwd == old(self).cwd,
            final(self).scroll_offset == 0,
            final(self).selected == 0,
    {
        self.selected = 0;
        self.scroll_offset = 0;
    }

    fn go_bottom(&mut self)
        ensures
            final(self).entries == old(self).entries,
            final(self).cwd == old(self).cwd,
            final(self).scroll_offset == old(self).scroll_offset,
            final(self).selected as int == cursor_after(
                old(self).selected as int,
                old(self).entries@.len() as int,
                NavigationAction::Bottom,
            ),
    {
        if !self.entries.is_empty() {
            self.selected = self.entries.len() - 1;
        }
    }

    fn enter_dir(&mut self, show_hidden: bool) -> (effect: NavigationEffect)
        ensures
            final(self).entries == old(self).entries,
            final(self).selected == old(self).selected,
            final(self).scroll_offset == old(self).scroll_offset,
            match directory_after(*old(self), NavigationAction::Enter) {
                Some(dir) => final(self).cwd@ == dir && effect == (NavigationEffect::Reload {
                    show_hidden,
                }),
                None => final(self).cwd == old(self).cwd && effect == NavigationEffect::Done,
            },
    {
        if self.selected < self.entries.len() {
            let entry = &self.entries[self.selected];
            if entry.is_dir {
                let new_path = entry.path.clone();
                self.cwd = new_path;
                return NavigationEffect::Reload { show_hidden };
            }
        }
        NavigationEffect::Done
    }

    fn go_parent(&mut self, show_hidden: bool) -> (effect: NavigationEffect)
        ensures
            final(self).entries == old(self).entries,
            final(self).selected == old(self).selected,
            final(self).scroll_offset == old(self).scroll_offset,
            match parent_of(old(self).cwd@) {
                Some(dir) => final(self).cwd@ == dir && effect == (NavigationEffect::Reload {
                    show_hidden,
                }),
                None => final(self).cwd == old(self).cwd && effect == NavigationEffect::Done,
            },
    {
        match path_parent(self.cwd.as_str()) {
            Some(parent) => {
                self.cwd = parent;
                NavigationEffect::Reload { show_hidden }
            },
            None => NavigationEffect::Done,
        }
    }
}

/// Navigation never moves a cursor out of range: from a cursor that points
/// at an entry (or 0 in an empty listing), every action leaves it so.
pub proof fn lemma_navigation_keeps_cursor_in_range(
    selected: int,
    len: int,
    action: NavigationAction,
)
    requires
        cursor_in_range(selected, len),
    ensures
        cursor_in_range(cursor_after(selected, len, action), len),
{
}

/// Moving down and then up returns to the starting entry unless the cursor
/// was already on the last entry.
pub proof fn lemma_up_undoes_down(selected: int, len: int)
    requires
        0 <= selected,
        selected + 1 < len,
    ensures
        cursor_after(
            cursor_after(selected, len, NavigationAction::Down),
            len,
            NavigationAction::Up,
        ) == selected,
{
}

/// Moving up and then down returns to the starting entry unless the cursor
/// was already on the first entry.
pub proof fn lemma_down_undoes_up(selected: int, len: int)
    requires
        0 < selected < len,
    ensures
        cursor_after(
            cursor_after(selected, len, NavigationAction::Up),
            len,
            NavigationAction::Down,
        ) == selected,
{
}

/// At the last entry `Down` stays put, and at the first entry `Up` does:
/// the cursor neither overflows nor underflows.
pub proof fn lemma_cursor_stops_at_the_ends(len: int)
    requires
        len > 0,
    ensures
        cursor_after(len - 1, len, NavigationAction::Down) == len - 1,
        cursor_after(0, len, NavigationAction::Up) == 0,
{
}

/// After `Bottom` the cursor is on the last entry, and after `Top` on the
/// first, wherever it was.
pub proof fn lemma_top_and_bottom(selected: int, len: int)
    requires
        len > 0,
    ensures
        cursor_after(selected, len, NavigationAction::Bottom) == len - 1,
        cursor_after(selected, len, NavigationAction::Top) == 0,
{
}

/// In a listing, no file comes before a directory.
pub proof fn lemma_directories_come_first(
    raw: Seq<DirEntry>,
    keys: Seq<Seq<char>>,
    show_hidden: bool,
    out: Seq<DirEntry>,
    origin: Seq<int>,
)
    requires
        is_listing_by(raw, keys, show_hidden, out, origin),
    ensures
        forall|k: int, l: int|
            #![trigger out[k], out[l]]
            0 <= k < l < out.len() && out[l].is_dir ==> out[k].is_dir,
{
    let r = ranks_at(raw, keys, origin);
    assert forall|k: int, l: int| 0 <= k < l < out.len() && out[l].is_dir implies #[trigger] out[k].is_dir
        && #[trigger] out[l].is_dir by {
        assert(r[k].0 == raw[origin[k]].is_dir);
        assert(r[l].0 == raw[origin[l]].is_dir);
        assert(!rank_before(r[l], r[k]));
    }
}

/// Within each group of a directory listing (directories, then files), the
/// entries come in order of their lower-cased names' UTF-8 bytes: of two
/// entries of the same kind, the later one's lower-cased name never sorts
/// before the earlier one's. So `build.rs` comes before `Cargo.toml`.
pub proof fn lemma_listing_sorted_by_lowercase_name(
    raw: Seq<DirEntry>,
    show_hidden: bool,
    out: Seq<DirEntry>,
    origin: Seq<int>,
)
    requires
        is_listing_of(raw, show_hidden, out, origin),
    ensures
        forall|k: int, l: int|
            #![trigger out[k], out[l]]
            0 <= k < l < out.len() && out[k].is_dir == out[l].is_dir ==> !lex_lt(
                encode_utf8(lowercase_of(out[l].name@)),
                encode_utf8(lowercase_of(out[k].name@)),
            ),
        forall|k: int, l: int|
            #![trigger out[k], out[l]]
            0 <= k < l < out.len() && out[l].is_dir ==> out[k].is_dir,
{
    let keys = lowercase_names(raw);
    let r = ranks_at(raw, keys, origin);
    assert forall|k: int, l: int|
        0 <= k < l < out.len() && out[k].is_dir == out[l].is_dir implies !lex_lt(
            encode_utf8(lowercase_of(#[trigger] out[l].name@)),
            encode_utf8(lowercase_of(#[trigger] out[k].name@)),
        ) by {
        assert(r[k] == rank(raw[origin[k]], keys[origin[k]]));
        assert(r[l] == rank(raw[origin[l]], keys[origin[l]]));
        assert(keys[origin[k]] == lowercase_of(raw[origin[k]].name@));
        assert(keys[origin[l]] == lowercase_of(raw[origin[l]].name@));
        assert(!rank_before(r[l], r[k]));
    }
    lemma_directories_come_first(raw, keys, show_hidden, out, origin);
}

/// A directory listing shows exactly the visible entries it was given:
/// every entry it shows was given; a name starting with `.` is shown only
/// when `show_hidden` is set; every other given entry is shown; and entries
/// of the same kind whose lower-cased names are equal keep the order in
/// which they were given.
pub proof fn lemma_listing_shows_the_visible_entries(
    raw: Seq<DirEntry>,
    show_hidden: bool,
    out: Seq<DirEntry>,
    origin: Seq<int>,
)
    requires
        is_listing_of(raw, show_hidden, out, origin),
    ensures
        forall|k: int| 0 <= k < out.len() ==> raw.contains(#[trigger] out[k]),
        !show_hidden ==> forall|k: int|
            0 <= k < out.len() ==> !((#[trigger] out[k]).name@.len() > 0 && out[k].name@[0]
                == '.'),
        forall|j: int|
            0 <= j < raw.len() && (show_hidden || !((#[trigger] raw[j]).name@.len() > 0
                && raw[j].name@[0] == '.')) ==> out.contains(raw[j]),
        forall|k: int, l: int|
            #![trigger out[k], out[l]]
            0 <= k < l < out.len() && out[k].is_dir == out[l].is_dir && lowercase_of(
                out[k].name@,
            ) == lowercase_of(out[l].name@) ==> origin[k] < origin[l],
{
    let keys = lowercase_names(raw);
    let r = ranks_at(raw, keys, origin);
    assert forall|k: int| 0 <= k < out.len() implies raw.contains(#[trigger] out[k]) by {
        assert(raw[origin[k]] == out[k]);
    }
    assert forall|j: int|
        0 <= j < raw.len() && (show_hidden || !((#[trigger] raw[j]).name@.len() > 0
            && raw[j].name@[0] == '.')) implies out.contains(raw[j]) by {
        assert(is_shown(raw[j], show_hidden));
        assert(origin.contains(j));
        let k = choose|k: int| 0 <= k < origin.len() && origin[k] == j;
        assert(out[k] == raw[j]);
    }
    assert forall|k: int, l: int|
        0 <= k < l < out.len() && out[k].is_dir == out[l].is_dir && lowercase_of(
            (#[trigger] out[k]).name@,
        ) == lowercase_of((#[trigger] out[l]).name@) implies origin[k] < origin[l] by {
        assert(r[k] == rank(raw[origin[k]], keys[origin[k]]));
        assert(r[l] == rank(raw[origin[l]], keys[origin[l]]));
        assert(keys[origin[k]] == lowercase_of(raw[origin[k]].name@));
        assert(keys[origin[l]] == lowercase_of(raw[origin[l]].name@));
    }
}

/// `Enter` goes into the entry under the cursor when it is a directory, and
/// nowhere otherwise; `Parent` goes to the parent of the working directory.
pub proof fn lemma_enter_goes_into_the_selected_directory(pane: Pane)
    ensures
        pane.selected < pane.entries@.len() && pane.entries@[pane.selected as int].is_dir
            ==> directory_after(pane, NavigationAction::Enter) == Some(
            pane.entries@[pane.selected as int].path@,
        ),
        !(pane.selected < pane.entries@.len() && pane.entries@[pane.selected as int].is_dir)
            ==> directory_after(pane, NavigationAction::Enter) is None,
        directory_after(pane, NavigationAction::Parent) == parent_of(pane.cwd@),
{
}

/// Entry `a` of `raw` is listed before entry `b`: by rank, and between
/// entries of equal rank by their order in `raw`.
spec fn listed_before(raw: Seq<DirEntry>, keys: Seq<Seq<char>>, a: int, b: int) -> bool {
    let ra = rank(raw[a], keys[a]);
    let rb = rank(raw[b], keys[b]);
    rank_before(ra, rb) || (ra == rb && a < b)
}

/// A listing's positions come in strictly increasing `listed_before` order.
proof fn lemma_listing_strictly_ordered(
    raw: Seq<DirEntry>,
    keys: Seq<Seq<char>>,
    show_hidden: bool,
    out: Seq<DirEntry>,
    origin: Seq<int>,
    k: int,
    l: int,
)
    requires
        is_listing_by(raw, keys, show_hidden, out, origin),
        0 <= k < l < out.len(),
    ensures
        listed_before(raw, keys, origin[k], origin[l]),
{
    let r = ranks_at(raw, keys, origin);
    assert(r[k] == rank(raw[origin[k]], keys[origin[k]]));
    assert(r[l] == rank(raw[origin[l]], keys[origin[l]]));
    assert(!rank_before(r[l], r[k]));
    lemma_rank_before_total(r[k], r[l]);
}

/// `listed_before` never holds both ways.
proof fn lemma_listed_before_asymmetric(raw: Seq<DirEntry>, keys: Seq<Seq<char>>, a: int, b: int)
    ensures
        !(listed_before(raw, keys, a, b) && listed_before(raw, keys, b, a)),
{
    let ra = rank(raw[a], keys[a]);
    let rb = rank(raw[b], keys[b]);
    lemma_rank_before_strict(ra, rb);
    lemma_rank_before_strict(ra, ra);
}

/// Two listings of the same entries agree on their first `n` positions.
proof fn lemma_listings_agree_up_to(
    raw: Seq<DirEntry>,
    keys: Seq<Seq<char>>,
    show_hidden: bool,
    out1: Seq<DirEntry>,
    origin1: Seq<int>,
    out2: Seq<DirEntry>,
    origin2: Seq<int>,
    n: int,
)
    requires
        is_listing_by(raw, keys, show_hidden, out1, origin1),
        is_listing_by(raw, keys, show_hidden, out2, origin2),
        0 <= n <= out1.len(),
        n <= out2.len(),
    ensures
        forall|i: int| 0 <= i < n ==> #[trigger] origin1[i] == origin2[i],
    decreases n,
{
    if n > 0 {
        let i = n - 1;
        lemma_listings_agree_up_to(raw, keys, show_hidden, out1, origin1, out2, origin2, i);
        let a = origin1[i];
        let b = origin2[i];
        if a != b {
            assert(is_shown(out1[i], show_hidden));
            assert(is_shown(raw[a], show_hidden));
            assert(origin2.contains(a));
            let m = choose|m: int| 0 <= m < origin2.len() && origin2[m] == a;
            assert(is_shown(out2[i], show_hidden));
            assert(is_shown(raw[b], show_hidden));
            assert(origin1.contains(b));
            let m1 = choose|m: int| 0 <= m < origin1.len() && origin1[m] == b;
            if m < i {
                assert(origin1[m] == origin2[m]);
            } else if m1 < i {
                assert(origin1[m1] == origin2[m1]);
            } else {
                lemma_listing_strictly_ordered(raw, keys, show_hidden, out2, origin2, i, m);
                lemma_listing_strictly_ordered(raw, keys, show_hidden, out1, origin1, i, m1);
                lemma_listed_before_asymmetric(raw, keys, a, b);
            }
        }
    }
}

/// The listing of a list of entries is unique: two listings of the same
/// entries, with the same sort keys and the same choice about hidden files,
/// are equal. So listing an unchanged directory again gives the same
/// entries in the same order.
pub proof fn lemma_listing_is_unique(
    raw: Seq<DirEntry>,
    keys: Seq<Seq<char>>,
    show_hidden: bool,
    out1: Seq<DirEntry>,
    origin1: Seq<int>,
    out2: Seq<DirEntry>,
    origin2: Seq<int>,
)
    requires
        is_listing_by(raw, keys, show_hidden, out1, origin1),
        is_listing_by(raw, keys, show_hidden, out2, origin2),
    ensures
        out1 == out2,
{
    if out1.len() < out2.len() {
        let n = out1.len() as int;
        lemma_listings_agree_up_to(raw, keys, show_hidden, out1, origin1, out2, origin2, n);
        let b = origin2[n];
        assert(is_shown(out2[n], show_hidden));
        assert(is_shown(raw[b], show_hidden));
        assert(origin1.contains(b));
        let m = choose|m: int| 0 <= m < origin1.len() && origin1[m] == b;
        assert(origin2[m] == origin1[m]);
    } else if out2.len() < out1.len() {
        let n = out2.len() as int;
        lemma_listings_agree_up_to(raw, keys, show_hidden, out1, origin1, out2, origin2, n);
        let a = origin1[n];
        assert(is_shown(out1[n], show_hidden));
        assert(is_shown(raw[a], show_hidden));
        assert(origin2.contains(a));
        let m = choose|m: int| 0 <= m < origin2.len() && origin2[m] == a;
        assert(origin1[m] == origin2[m]);
    } else {
        let n = out1.len() as int;
        lemma_listings_agree_up_to(raw, keys, show_hidden, out1, origin1, out2, origin2, n);
        assert forall|k: int| 0 <= k < n implies out1[k] == out2[k] by {
            assert(origin1[k] == origin2[k]);
        }
        assert(out1 =~= out2);
    }
}

} // verus!
