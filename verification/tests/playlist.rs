use triage::playlist::Playlist;

fn path(text: &str) -> Vec<u8> {
    text.as_bytes().to_vec()
}

fn held(list: &Playlist) -> Vec<Vec<u8>> {
    list.paths().cloned().collect()
}

fn list_of(paths: &[&str]) -> Playlist {
    let mut list = Playlist::from_bytes(b"");
    for p in paths {
        list.push(path(p));
    }
    list
}

#[test]
fn blank_line_between_two_paths_is_ignored() {
    let list = Playlist::from_bytes(b"/music/a.ogg\n\n/music/b.ogg\n");
    assert_eq!(list.len(), 2);
    assert_eq!(held(&list), vec![path("/music/a.ogg"), path("/music/b.ogg")]);
}

#[test]
fn empty_file_is_an_empty_playlist() {
    let list = Playlist::from_bytes(b"");
    assert_eq!(list.len(), 0);
    assert!(held(&list).is_empty());
    assert!(list.next().is_none());
}

#[test]
fn file_of_blank_lines_is_an_empty_playlist() {
    let list = Playlist::from_bytes(b"\n\n\n");
    assert_eq!(list.len(), 0);
}

#[test]
fn leading_and_trailing_blank_lines_give_no_entries() {
    let list = Playlist::from_bytes(b"\n\na\nb\n\n\n");
    assert_eq!(held(&list), vec![path("a"), path("b")]);
}

#[test]
fn last_line_needs_no_line_break() {
    let list = Playlist::from_bytes(b"a\nb");
    assert_eq!(held(&list), vec![path("a"), path("b")]);
}

#[test]
fn lines_are_kept_byte_for_byte() {
    let list = Playlist::from_bytes(b" a b \r\n\xff\xfe/x\n");
    assert_eq!(held(&list), vec![b" a b \r".to_vec(), b"\xff\xfe/x".to_vec()]);
}

#[test]
fn duplicates_are_kept() {
    let list = Playlist::from_bytes(b"a\na\n");
    assert_eq!(held(&list), vec![path("a"), path("a")]);
}

#[test]
fn empty_playlist_is_written_as_no_bytes() {
    let list = Playlist::from_bytes(b"");
    assert_eq!(list.write(), Vec::<u8>::new());
}

#[test]
fn one_path_is_written_with_its_line_break() {
    assert_eq!(list_of(&["a"]).write(), b"a\n".to_vec());
}

#[test]
fn paths_are_written_joined_by_line_breaks() {
    assert_eq!(list_of(&["ab", "cd", "ef"]).write(), b"ab\ncd\nef\n".to_vec());
}

#[test]
fn written_file_ends_in_one_line_break() {
    let bytes = Playlist::from_bytes(b"a\n\n\nb\n\n").write();
    assert_eq!(bytes, b"a\nb\n".to_vec());
}

#[test]
fn saved_and_loaded_playlist_is_the_same() {
    let list = list_of(&["/m/one.ogg", "two", "/m/sub dir/three.ogg", "two"]);
    let again = Playlist::from_bytes(&list.write());
    assert_eq!(held(&again), held(&list));
    assert_eq!(again.write(), list.write());
}

#[test]
fn empty_path_does_not_come_back() {
    let list = list_of(&[""]);
    assert_eq!(list.len(), 1);
    assert_eq!(list.write(), b"\n".to_vec());
    assert_eq!(Playlist::from_bytes(&list.write()).len(), 0);
}

#[test]
fn path_with_line_break_comes_back_as_two() {
    let list = list_of(&["a\nb"]);
    let again = Playlist::from_bytes(&list.write());
    assert_eq!(held(&again), vec![path("a"), path("b")]);
}

#[test]
fn pop_takes_from_the_front_and_push_adds_at_the_back() {
    let mut list = Playlist::from_bytes(b"a\nb\n");
    list.push(path("c"));
    assert_eq!(list.len(), 3);
    assert_eq!(list.next(), Some(&path("a")));
    assert_eq!(list.pop(), Some(path("a")));
    assert_eq!(list.next(), Some(&path("b")));
    assert_eq!(list.pop(), Some(path("b")));
    assert_eq!(list.pop(), Some(path("c")));
    assert_eq!(list.len(), 0);
}

#[test]
fn pop_of_an_empty_playlist_gives_nothing() {
    let mut list = Playlist::from_bytes(b"");
    assert_eq!(list.pop(), None);
    assert_eq!(list.len(), 0);
    assert_eq!(list.write(), Vec::<u8>::new());
}

#[test]
fn next_does_not_remove() {
    let list = Playlist::from_bytes(b"a\nb\n");
    assert_eq!(list.next(), Some(&path("a")));
    assert_eq!(list.next(), Some(&path("a")));
    assert_eq!(list.len(), 2);
}

#[test]
fn paths_come_in_stored_order() {
    let mut list = Playlist::from_bytes(b"b\na\n");
    let before = held(&list);
    list.push(path("0"));
    assert_eq!(before, vec![path("b"), path("a")]);
    assert_eq!(held(&list), vec![path("b"), path("a"), path("0")]);
    assert_eq!(list.paths().count(), 3);
}
