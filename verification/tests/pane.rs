use caesar::app::DirEntry;
use caesar::pane::{sort_listing, NavigationAction, NavigationEffect, Pane};

fn file(name: &str) -> DirEntry {
    DirEntry { name: name.to_string(), path: format!("/tmp/t/{}", name), is_dir: false, size: 0, modified: None }
}

fn dir(name: &str) -> DirEntry {
    DirEntry { name: name.to_string(), path: format!("/tmp/t/{}", name), is_dir: true, size: 0, modified: None }
}

fn loaded(listing: Vec<DirEntry>) -> Pane {
    let mut pane = Pane::new("/tmp/t".to_string());
    pane.load_dir(listing, false);
    pane
}

fn names(p: &Pane) -> Vec<String> {
    p.entries.iter().map(|e| e.name.clone()).collect()
}

#[test]
fn load_dir_lists_files() {
    let pane = loaded(vec![file("file.txt")]);
    assert_eq!(pane.entries.len(), 1);
    assert_eq!(pane.entries[0].name, "file.txt");
}

#[test]
fn load_dir_sorts_dirs_before_files() {
    let pane = loaded(vec![file("aaa.txt"), dir("bbb_dir")]);
    assert!(pane.entries[0].is_dir, "directory must come first");
    assert!(!pane.entries[1].is_dir);
}

#[test]
fn load_dir_hides_dotfiles_by_default() {
    let pane = loaded(vec![file(".hidden"), file("visible.txt")]);
    assert_eq!(pane.entries.len(), 1);
    assert_eq!(pane.entries[0].name, "visible.txt");
}

#[test]
fn load_dir_shows_dotfiles_when_enabled() {
    let mut pane = Pane::new("/tmp/t".to_string());
    pane.load_dir(vec![file(".hidden"), file("visible.txt")], true);
    assert_eq!(pane.entries.len(), 2);
}

#[test]
fn load_dir_resets_cursor() {
    let mut pane = loaded(vec![file("a.txt"), file("b.txt")]);
    pane.selected = 1;
    pane.scroll_offset = 4;
    pane.load_dir(vec![file("a.txt"), file("b.txt")], false);
    assert_eq!(pane.selected, 0);
    assert_eq!(pane.scroll_offset, 0);
}

#[test]
fn load_dir_orders_case_insensitively_and_stably() {
    let pane = loaded(vec![
        file("b.txt"),
        dir("Zeta"),
        file("A.txt"),
        dir("alpha"),
        file("a.TXT"),
        file("a.txt"),
        dir(".git"),
        file("Ä.txt"),
    ]);
    assert_eq!(names(&pane), vec!["alpha", "Zeta", "A.txt", "a.TXT", "a.txt", "b.txt", "Ä.txt"]);
}

#[test]
fn navigate_down_and_up() {
    let mut pane = loaded(vec![file("a.txt"), file("b.txt")]);
    pane.handle_navigation(NavigationAction::Down, false);
    assert_eq!(pane.selected, 1);
    pane.handle_navigation(NavigationAction::Up, false);
    assert_eq!(pane.selected, 0);
}

#[test]
fn navigate_bottom_and_top() {
    let mut pane = loaded(vec![file("a.txt"), file("b.txt"), file("c.txt")]);
    pane.handle_navigation(NavigationAction::Bottom, false);
    assert_eq!(pane.selected, 2);
    pane.scroll_offset = 1;
    pane.handle_navigation(NavigationAction::Top, false);
    assert_eq!(pane.selected, 0);
    assert_eq!(pane.scroll_offset, 0);
}

#[test]
fn navigate_down_at_bottom_does_not_overflow() {
    let mut pane = loaded(vec![file("a.txt")]);
    pane.handle_navigation(NavigationAction::Down, false);
    assert_eq!(pane.selected, 0);
}

#[test]
fn navigate_up_at_top_does_not_underflow() {
    let mut pane = loaded(vec![file("a.txt")]);
    pane.handle_navigation(NavigationAction::Up, false);
    assert_eq!(pane.selected, 0);
}

#[test]
fn navigate_enter_changes_cwd() {
    let mut pane = loaded(vec![dir("subdir")]);
    assert_eq!(pane.entries[0].name, "subdir");
    let expected = pane.entries[0].path.clone();
    let effect = pane.handle_navigation(NavigationAction::Enter, true);
    assert_eq!(pane.cwd, expected);
    assert_eq!(effect, NavigationEffect::Reload { show_hidden: true });
}

#[test]
fn navigate_enter_on_a_file_stays() {
    let mut pane = loaded(vec![file("a.txt")]);
    let effect = pane.handle_navigation(NavigationAction::Enter, false);
    assert_eq!(pane.cwd, "/tmp/t");
    assert_eq!(effect, NavigationEffect::Done);
}

#[test]
fn navigate_parent_goes_up() {
    let mut pane = Pane::new("/tmp/t/sub".to_string());
    let effect = pane.handle_navigation(NavigationAction::Parent, false);
    assert_eq!(pane.cwd, "/tmp/t");
    assert_eq!(effect, NavigationEffect::Reload { show_hidden: false });
    let mut root = Pane::new("/".to_string());
    assert_eq!(root.handle_navigation(NavigationAction::Parent, false), NavigationEffect::Done);
    assert_eq!(root.cwd, "/");
}

#[test]
fn current_entry_returns_selected() {
    let pane = loaded(vec![file("a.txt")]);
    assert!(pane.current_entry().is_some());
    assert_eq!(pane.current_entry().unwrap().name, "a.txt");
}

#[test]
fn current_entry_empty_pane() {
    let pane = loaded(vec![]);
    assert!(pane.current_entry().is_none());
}

#[test]
fn cursor_stays_in_range_on_every_action() {
    let actions = [
        NavigationAction::Down,
        NavigationAction::Up,
        NavigationAction::Top,
        NavigationAction::Bottom,
        NavigationAction::Down,
        NavigationAction::Down,
        NavigationAction::Down,
    ];
    let mut pane = loaded(vec![file("a"), file("b"), file("c")]);
    for a in actions {
        pane.handle_navigation(a, false);
        assert!(pane.selected < pane.entries.len());
    }
    let mut empty = loaded(vec![]);
    for a in actions {
        empty.handle_navigation(a, false);
        assert_eq!(empty.selected, 0);
    }
}

#[test]
fn sort_listing_orders_by_the_given_keys() {
    let raw = vec![file("one"), file("two"), dir("three"), file("four"), file(".five")];
    let keys: Vec<String> = ["b", "a", "z", "a", "0"].iter().map(|k| k.to_string()).collect();
    let out = sort_listing(raw, keys, false);
    let names: Vec<String> = out.iter().map(|e| e.name.clone()).collect();
    assert_eq!(names, vec!["three", "two", "four", "one"]);
}

#[test]
fn sort_listing_keeps_dotfiles_when_asked() {
    let raw = vec![file("x"), file(".y")];
    let keys: Vec<String> = ["b", "a"].iter().map(|k| k.to_string()).collect();
    let out = sort_listing(raw, keys, true);
    let names: Vec<String> = out.iter().map(|e| e.name.clone()).collect();
    assert_eq!(names, vec![".y", "x"]);
}

#[test]
fn reloading_an_unchanged_directory_gives_the_same_listing() {
    let listing = || vec![file("b.txt"), dir("Zeta"), file("A.md"), dir(".git"), dir("alpha"), file("a.md")];
    let mut pane = loaded(listing());
    let first: Vec<DirEntry> = pane.entries.clone();
    pane.load_dir(listing(), false);
    assert_eq!(pane.entries.len(), first.len());
    for (a, b) in pane.entries.iter().zip(first.iter()) {
        assert_eq!(a.name, b.name);
        assert_eq!(a.is_dir, b.is_dir);
    }
    assert_eq!(names(&pane), vec!["alpha", "Zeta", "A.md", "a.md", "b.txt"]);
}
