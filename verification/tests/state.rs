use triage::playlist::Playlist;
use triage::state::Playlists;
use triage::state::Rating;
use triage::state::State;
use triage::state::StateError;
use triage::state::TODO_FILE;

const RATINGS: [Rating; 6] =
    [Rating::R01, Rating::R02, Rating::R04, Rating::R06, Rating::R08, Rating::R10];

fn path(text: &str) -> Vec<u8> {
    text.as_bytes().to_vec()
}

fn held(list: &Playlist) -> Vec<Vec<u8>> {
    list.paths().cloned().collect()
}

fn lines(texts: &[&str]) -> Vec<String> {
    texts.iter().map(|text| text.to_string()).collect()
}

fn only_todo(todo: &[u8]) -> Playlists {
    Playlists::new(todo, b"", b"", b"", b"", b"", b"")
}

fn content<'a>(files: &'a [(&'static str, Vec<u8>)], name: &str) -> &'a [u8] {
    &files.iter().find(|file| file.0 == name).expect("a file of that name").1
}

fn reload(files: &[(&'static str, Vec<u8>)]) -> Playlists {
    Playlists::new(
        content(files, "todo.m3u8"),
        content(files, "rating-01.m3u8"),
        content(files, "rating-02.m3u8"),
        content(files, "rating-04.m3u8"),
        content(files, "rating-06.m3u8"),
        content(files, "rating-08.m3u8"),
        content(files, "rating-10.m3u8"),
    )
}

fn all_paths(state: &State) -> Vec<Vec<u8>> {
    let mut all = held(state.playlists().todo());
    for rating in RATINGS {
        all.extend(held(state.playlists().bucket(rating)));
    }
    all.sort();
    all
}

#[test]
fn rating_the_first_of_two_files_it_and_binds_the_second() {
    let mut state = State::new(only_todo(b"a\nb\n"), Some(lines(&["about a"])));
    assert!(!state.is_done());

    let next = state.rate(Rating::R10);

    assert_eq!(next, Some(path("b")));
    assert_eq!(held(state.playlists().todo()), vec![path("b")]);
    assert_eq!(held(state.playlists().bucket(Rating::R10)), vec![path("a")]);
    for rating in [Rating::R01, Rating::R02, Rating::R04, Rating::R06, Rating::R08] {
        assert_eq!(state.playlists().bucket(rating).len(), 0);
    }

    state.update_metadata(lines(&["about b"]));

    assert!(!state.is_done());
    assert_eq!(state.metadata().to_vec(), lines(&["about b"]));
    assert_eq!(state.paths().cloned().collect::<Vec<_>>(), vec![path("b")]);
}

#[test]
fn rating_the_only_track_leaves_nothing_to_do() {
    let mut state = State::new(only_todo(b"a\n"), Some(lines(&["about a"])));

    let next = state.rate(Rating::R01);

    assert_eq!(next, None);
    assert_eq!(state.playlists().todo().len(), 0);
    assert!(state.is_done());
    assert!(state.metadata().is_empty());
    assert_eq!(held(state.playlists().bucket(Rating::R01)), vec![path("a")]);
}

#[test]
fn empty_todo_starts_done_and_stays_so_after_a_reload() {
    let state = State::new(only_todo(b""), None);
    assert!(state.is_done());
    assert!(state.metadata().is_empty());

    let files = state.write();
    let again = State::new(reload(&files), None);

    assert!(again.is_done());
    assert_eq!(again.playlists().todo().len(), 0);
    assert_eq!(again.write(), files);
}

#[test]
fn metadata_without_a_track_is_dropped() {
    let state = State::new(only_todo(b"\n"), Some(lines(&["stray"])));
    assert!(state.is_done());
    assert!(state.metadata().is_empty());
}

#[test]
fn first_track_that_is_not_bound_waits() {
    let mut state = State::new(only_todo(b"a\nb\n"), None);
    assert!(state.is_done());
    assert_eq!(state.playlists().todo().len(), 2);

    assert_eq!(state.rate(Rating::R01), Some(path("a")));
    assert_eq!(state.playlists().todo().len(), 2);
    assert_eq!(state.playlists().bucket(Rating::R01).len(), 0);

    state.update_metadata(lines(&["about a"]));
    assert!(!state.is_done());
    assert_eq!(state.rate(Rating::R01), Some(path("b")));
    assert_eq!(held(state.playlists().bucket(Rating::R01)), vec![path("a")]);
}

#[test]
fn new_state_shows_the_metadata_of_the_first_track() {
    let state = State::new(only_todo(b"a\nb\n"), Some(lines(&["one", "two"])));
    assert!(!state.is_done());
    assert!(!state.is_paused());
    assert_eq!(state.metadata().to_vec(), lines(&["one", "two"]));
    assert_eq!(state.paths().cloned().collect::<Vec<_>>(), vec![path("a"), path("b")]);
}

#[test]
fn writing_twice_gives_the_same_files() {
    let mut state = State::new(only_todo(b"a\nb\nc\n"), Some(lines(&["x"])));
    state.rate(Rating::R06);
    let first = state.write();
    let second = state.write();
    assert_eq!(first, second);
    assert!(!state.is_done());
    assert_eq!(state.metadata().to_vec(), lines(&["x"]));
}

#[test]
fn files_are_written_buckets_first_and_todo_last() {
    let lists = Playlists::new(b"t\n", b"a\n", b"b\n", b"c\n", b"d\n", b"e\n", b"f\ng\n");
    let files = State::new(lists, Some(lines(&[]))).write();
    assert_eq!(
        files,
        vec![
            ("rating-01.m3u8", b"a\n".to_vec()),
            ("rating-02.m3u8", b"b\n".to_vec()),
            ("rating-04.m3u8", b"c\n".to_vec()),
            ("rating-06.m3u8", b"d\n".to_vec()),
            ("rating-08.m3u8", b"e\n".to_vec()),
            ("rating-10.m3u8", b"f\ng\n".to_vec()),
            ("todo.m3u8", b"t\n".to_vec()),
        ]
    );
}

#[test]
fn empty_queues_are_written_as_empty_files() {
    let files = only_todo(b"").write();
    assert_eq!(files.len(), 7);
    for file in &files {
        assert!(file.1.is_empty());
    }
}

#[test]
fn queues_are_read_each_from_its_own_file() {
    let lists = Playlists::new(b"t\n", b"a\n", b"b\n", b"c\n", b"d\n", b"e\n", b"f\n");
    assert_eq!(held(lists.todo()), vec![path("t")]);
    assert_eq!(held(lists.bucket(Rating::R01)), vec![path("a")]);
    assert_eq!(held(lists.bucket(Rating::R02)), vec![path("b")]);
    assert_eq!(held(lists.bucket(Rating::R04)), vec![path("c")]);
    assert_eq!(held(lists.bucket(Rating::R06)), vec![path("d")]);
    assert_eq!(held(lists.bucket(Rating::R08)), vec![path("e")]);
    assert_eq!(held(lists.bucket(Rating::R10)), vec![path("f")]);
}

#[test]
fn written_queues_are_read_back_as_they_were() {
    let mut state = State::new(only_todo(b"a\nb\nc\nd\n"), Some(lines(&["x"])));
    for rating in [Rating::R02, Rating::R08, Rating::R02] {
        state.rate(rating);
        state.update_metadata(lines(&["x"]));
    }
    let again = reload(&state.write());
    assert_eq!(held(again.todo()), vec![path("d")]);
    assert_eq!(held(again.bucket(Rating::R02)), vec![path("a"), path("c")]);
    assert_eq!(held(again.bucket(Rating::R08)), vec![path("b")]);
    assert_eq!(again.write(), state.write());
}

#[test]
fn ratings_neither_lose_nor_double_a_path() {
    let lists = Playlists::new(b"c\na\nb\na\nd\n", b"z\n", b"", b"a\n", b"", b"", b"y\n");
    let mut state = State::new(lists, Some(lines(&["x"])));
    let before = all_paths(&state);
    assert_eq!(before.len(), 8);
    for rating in [Rating::R04, Rating::R10, Rating::R04, Rating::R01, Rating::R02, Rating::R06] {
        state.rate(rating);
        assert_eq!(all_paths(&state), before);
        state.update_metadata(lines(&["x"]));
        assert_eq!(all_paths(&state), before);
    }
    assert_eq!(state.playlists().todo().len(), 0);
    assert_eq!(held(state.playlists().bucket(Rating::R04)), vec![path("a"), path("c"), path("b")]);
    assert_eq!(held(state.playlists().bucket(Rating::R10)), vec![path("y"), path("a")]);
    assert_eq!(held(state.playlists().bucket(Rating::R01)), vec![path("z"), path("a")]);
    assert_eq!(held(state.playlists().bucket(Rating::R02)), vec![path("d")]);
    assert_eq!(state.playlists().bucket(Rating::R06).len(), 0);
}

#[test]
fn each_rating_files_into_its_own_bucket() {
    for rating in RATINGS {
        let mut state = State::new(only_todo(b"a\nb\n"), Some(lines(&["x"])));
        state.rate(rating);
        for other in RATINGS {
            let expected = if other == rating { vec![path("a")] } else { vec![] };
            assert_eq!(held(state.playlists().bucket(other)), expected);
        }
    }
}

#[test]
fn nothing_happens_once_all_is_rated() {
    let mut state = State::new(only_todo(b"a\n"), Some(lines(&["x"])));
    state.rate(Rating::R08);
    assert!(state.is_done());
    let files = state.write();

    assert_eq!(state.rate(Rating::R01), None);
    state.toggle_pause();
    assert_eq!(state.rate(Rating::R10), None);

    assert!(state.is_done());
    assert!(!state.is_paused());
    assert!(state.metadata().is_empty());
    assert_eq!(state.write(), files);
    assert_eq!(held(state.playlists().bucket(Rating::R08)), vec![path("a")]);
}

#[test]
fn track_is_filed_though_the_next_one_is_never_bound() {
    let mut state = State::new(only_todo(b"a\nbroken\nc\n"), Some(lines(&["about a"])));

    assert_eq!(state.rate(Rating::R04), Some(path("broken")));

    assert_eq!(held(state.playlists().bucket(Rating::R04)), vec![path("a")]);
    assert_eq!(held(state.playlists().todo()), vec![path("broken"), path("c")]);
    assert!(!state.is_done());
    assert_eq!(state.metadata().to_vec(), lines(&["about a"]));
    state.toggle_pause();
    assert!(state.is_paused());
}

#[test]
fn track_that_was_never_bound_is_not_filed() {
    let mut state = State::new(only_todo(b"a\nbroken\nc\n"), Some(lines(&["about a"])));
    state.rate(Rating::R04);
    let files = state.write();

    assert_eq!(state.rate(Rating::R10), Some(path("broken")));
    assert_eq!(state.rate(Rating::R01), Some(path("broken")));

    assert_eq!(state.write(), files);
    assert_eq!(held(state.playlists().todo()), vec![path("broken"), path("c")]);
    assert_eq!(state.playlists().bucket(Rating::R10).len(), 0);
    assert_eq!(state.playlists().bucket(Rating::R01).len(), 0);
    assert_eq!(state.metadata().to_vec(), lines(&["about a"]));
}

#[test]
fn rating_goes_on_once_the_waiting_track_is_bound() {
    let mut state = State::new(only_todo(b"a\nmended\nc\n"), Some(lines(&["about a"])));
    state.rate(Rating::R04);
    assert_eq!(state.rate(Rating::R10), Some(path("mended")));

    state.update_metadata(lines(&["about mended"]));

    assert_eq!(state.rate(Rating::R10), Some(path("c")));
    assert_eq!(held(state.playlists().bucket(Rating::R10)), vec![path("mended")]);
    assert_eq!(held(state.playlists().todo()), vec![path("c")]);
}

#[test]
fn pause_changes_to_and_fro_while_a_track_is_bound() {
    let mut state = State::new(only_todo(b"a\n"), Some(lines(&[])));
    assert!(!state.is_paused());
    state.toggle_pause();
    assert!(state.is_paused());
    state.toggle_pause();
    assert!(!state.is_paused());
}

#[test]
fn pause_does_nothing_without_a_track() {
    let mut state = State::new(only_todo(b""), None);
    state.toggle_pause();
    assert!(!state.is_paused());
    assert!(state.is_done());
}

#[test]
fn newly_bound_track_plays() {
    let mut state = State::new(only_todo(b"a\nb\n"), Some(lines(&["about a"])));
    state.toggle_pause();
    state.rate(Rating::R01);
    assert!(state.is_paused());
    state.update_metadata(lines(&["about b"]));
    assert!(!state.is_paused());
    assert_eq!(state.metadata().to_vec(), lines(&["about b"]));
}

#[test]
fn rating_the_last_track_ends_a_pause() {
    let mut state = State::new(only_todo(b"a\n"), Some(lines(&["about a"])));
    state.toggle_pause();
    state.rate(Rating::R01);
    assert!(!state.is_paused());
}

#[test]
fn nothing_is_bound_where_nothing_waits() {
    let mut state = State::new(only_todo(b""), None);
    state.update_metadata(lines(&["stray"]));
    assert!(state.is_done());
    assert!(state.metadata().is_empty());
}

#[test]
fn track_with_no_tags_is_bound_all_the_same() {
    let state = State::new(only_todo(b"a\n"), Some(Vec::new()));
    assert!(!state.is_done());
    assert!(state.metadata().is_empty());
}

#[test]
fn ratings_have_their_files() {
    assert_eq!(TODO_FILE, "todo.m3u8");
    assert_eq!(Rating::R01.file_name(), "rating-01.m3u8");
    assert_eq!(Rating::R02.file_name(), "rating-02.m3u8");
    assert_eq!(Rating::R04.file_name(), "rating-04.m3u8");
    assert_eq!(Rating::R06.file_name(), "rating-06.m3u8");
    assert_eq!(Rating::R08.file_name(), "rating-08.m3u8");
    assert_eq!(Rating::R10.file_name(), "rating-10.m3u8");
}

#[test]
fn errors_have_their_messages() {
    assert_eq!(StateError::NoDevice.message(), "no device found");
    assert_eq!(StateError::SinkCreation.message(), "sink could not be created");
    assert_eq!(StateError::Io.message(), "i/o error");
    assert_eq!(StateError::Decoder.message(), "decoder error");
    let refused = State::prepare_path(b"").expect_err("no headers to read");
    assert!(matches!(refused, StateError::Vorbis { .. }));
    assert_eq!(refused.message(), "vorbis error");
}
