use crate::metadata::lines_view;
use crate::metadata::metadata_lines;
use crate::metadata::read_tags;
use crate::metadata::select;
use crate::metadata::track_tags;
use crate::playlist::all_storable;
use crate::playlist::entries;
use crate::playlist::image;
use crate::playlist::Playlist;
use lewton::VorbisError;
use std::collections::vec_deque::Iter;
use vstd::multiset::Multiset;
use vstd::prelude::*;
use vstd::seq_lib::to_multiset_build;
use vstd::seq_lib::to_multiset_remove;
use vstd::std_specs::iter::IteratorSpec;

verus! {

/// The ratings that a track can be given.
#[derive(Clone, Copy, PartialEq, Eq, Debug, Structural)]
pub enum Rating {
    R01,
    R02,
    R04,
    R06,
    R08,
    R10,
}

/// The file of the tracks that wait for a rating.
pub const TODO_FILE: &'static str = "todo.m3u8";

/// The file of the tracks rated `rating`.
pub open spec fn bucket_file(rating: Rating) -> Seq<char> {
    match rating {
        Rating::R01 => "rating-01.m3u8"@,
        Rating::R02 => "rating-02.m3u8"@,
        Rating::R04 => "rating-04.m3u8"@,
        Rating::R06 => "rating-06.m3u8"@,
        Rating::R08 => "rating-08.m3u8"@,
        Rating::R10 => "rating-10.m3u8"@,
    }
}

impl Rating {
    /// The name of the file that holds the tracks with this rating.
    pub fn file_name(self) -> (name: &'static str)
        ensures
            name@ == bucket_file(self),
    {
        match self {
            Rating::R01 => "rating-01.m3u8",
            Rating::R02 => "rating-02.m3u8",
            Rating::R04 => "rating-04.m3u8",
            Rating::R06 => "rating-06.m3u8",
            Rating::R08 => "rating-08.m3u8",
            Rating::R10 => "rating-10.m3u8",
        }
    }
}

/// The seven queues as plain values: the paths of each, in order.
pub struct Queues {
    pub todo: Seq<Seq<u8>>,
    pub rating_01: Seq<Seq<u8>>,
    pub rating_02: Seq<Seq<u8>>,
    pub rating_04: Seq<Seq<u8>>,
    pub rating_06: Seq<Seq<u8>>,
    pub rating_08: Seq<Seq<u8>>,
    pub rating_10: Seq<Seq<u8>>,
}

impl Queues {
    /// The queue of the tracks rated `rating`.
    pub open spec fn bucket(self, rating: Rating) -> Seq<Seq<u8>> {
        match rating {
            Rating::R01 => self.rating_01,
            Rating::R02 => self.rating_02,
            Rating::R04 => self.rating_04,
            Rating::R06 => self.rating_06,
            Rating::R08 => self.rating_08,
            Rating::R10 => self.rating_10,
        }
    }

    /// These queues with `path` appended to the bucket of `rating`.
    pub open spec fn filed(self, rating: Rating, path: Seq<u8>) -> Queues {
        match rating {
            Rating::R01 => Queues { rating_01: self.rating_01.push(path), ..self },
            Rating::R02 => Queues { rating_02: self.rating_02.push(path), ..self },
            Rating::R04 => Queues { rating_04: self.rating_04.push(path), ..self },
            Rating::R06 => Queues { rating_06: self.rating_06.push(path), ..self },
            Rating::R08 => Queues { rating_08: self.rating_08.push(path), ..self },
            Rating::R10 => Queues { rating_10: self.rating_10.push(path), ..self },
        }
    }

    /// The queues after the first track of `todo` was rated `rating`: it has
    /// left `todo` and stands last in the bucket. Nothing changes where `todo`
    /// is empty.
    pub open spec fn rated(self, rating: Rating) -> Queues {
        if self.todo.len() == 0 {
            self
        } else {
            Queues { todo: self.todo.drop_first(), ..self }.filed(rating, self.todo[0])
        }
    }

    /// The queues after one rating for each element of `ratings`, in order.
    pub open spec fn rated_all(self, ratings: Seq<Rating>) -> Queues
        decreases ratings.len(),
    {
        if ratings.len() == 0 {
            self
        } else {
            self.rated(ratings[0]).rated_all(ratings.drop_first())
        }
    }

    /// Every path held, each as often as the queues hold it.
    pub open spec fn all_paths(self) -> Multiset<Seq<u8>> {
        self.todo.to_multiset().add(self.rating_01.to_multiset()).add(
            self.rating_02.to_multiset(),
        ).add(self.rating_04.to_multiset()).add(self.rating_06.to_multiset()).add(
            self.rating_08.to_multiset(),
        ).add(self.rating_10.to_multiset())
    }

    /// No track is rated yet.
    pub open spec fn unrated(self) -> bool {
        &&& self.rating_01.len() == 0
        &&& self.rating_02.len() == 0
        &&& self.rating_04.len() == 0
        &&& self.rating_06.len() == 0
        &&& self.rating_08.len() == 0
        &&& self.rating_10.len() == 0
    }

    /// Every path of every queue can be held by a playlist file.
    pub open spec fn storable(self) -> bool {
        &&& all_storable(self.todo)
        &&& all_storable(self.rating_01)
        &&& all_storable(self.rating_02)
        &&& all_storable(self.rating_04)
        &&& all_storable(self.rating_06)
        &&& all_storable(self.rating_08)
        &&& all_storable(self.rating_10)
    }

    /// The files that hold these queues, each with its name and content, in
    /// the order in which they are written: the buckets, then `todo`.
    pub open spec fn files(self) -> Seq<(Seq<char>, Seq<u8>)> {
        seq![
            (bucket_file(Rating::R01), image(self.rating_01)),
            (bucket_file(Rating::R02), image(self.rating_02)),
            (bucket_file(Rating::R04), image(self.rating_04)),
            (bucket_file(Rating::R06), image(self.rating_06)),
            (bucket_file(Rating::R08), image(self.rating_08)),
            (bucket_file(Rating::R10), image(self.rating_10)),
            (TODO_FILE@, image(self.todo)),
        ]
    }

    /// The queues that the contents of the seven files hold.
    pub open spec fn read(
        todo: Seq<u8>,
        rating_01: Seq<u8>,
        rating_02: Seq<u8>,
        rating_04: Seq<u8>,
        rating_06: Seq<u8>,
        rating_08: Seq<u8>,
        rating_10: Seq<u8>,
    ) -> Queues {
        Queues {
            todo: entries(todo),
            rating_01: entries(rating_01),
            rating_02: entries(rating_02),
            rating_04: entries(rating_04),
            rating_06: entries(rating_06),
            rating_08: entries(rating_08),
            rating_10: entries(rating_10),
        }
    }
}

/// Named files as plain values.
pub open spec fn files_view(files: Seq<(&'static str, Vec<u8>)>) -> Seq<(Seq<char>, Seq<u8>)> {
    files.map_values(|file: (&'static str, Vec<u8>)| (file.0@, file.1@))
}

/// The queue of the tracks to rate, and one queue for each rating.
pub struct Playlists {
    todo: Playlist,
    rating_01: Playlist,
    rating_02: Playlist,
    rating_04: Playlist,
    rating_06: Playlist,
    rating_08: Playlist,
    rating_10: Playlist,
}

impl View for Playlists {
    type V = Queues;

    closed spec fn view(&self) -> Queues {
        Queues {
            todo: self.todo@,
            rating_01: self.rating_01@,
            rating_02: self.rating_02@,
            rating_04: self.rating_04@,
            rating_06: self.rating_06@,
            rating_08: self.rating_08@,
            rating_10: self.rating_10@,
        }
    }
}

impl Playlists {
    /// Reads the seven queues, each from the content of its file.
    pub fn new(
        todo: &[u8],
        rating_01: &[u8],
        rating_02: &[u8],
        rating_04: &[u8],
        rating_06: &[u8],
        rating_08: &[u8],
        rating_10: &[u8],
    ) -> (lists: Playlists)
        ensures
            lists@ == Queues::read(
                todo@,
                rating_01@,
                rating_02@,
                rating_04@,
                rating_06@,
                rating_08@,
                rating_10@,
            ),
            lists@.storable(),
    {
        Playlists {
            todo: Playlist::from_bytes(todo),
            rating_01: Playlist::from_bytes(rating_01),
            rating_02: Playlist::from_bytes(rating_02),
            rating_04: Playlist::from_bytes(rating_04),
            rating_06: Playlist::from_bytes(rating_06),
            rating_08: Playlist::from_bytes(rating_08),
            rating_10: Playlist::from_bytes(rating_10),
        }
    }

    /// The files to write, each with its name and content, in the order in
    /// which to write them: the buckets first and `todo` last, so that a
    /// track rated before an interruption is found in its bucket.
    pub fn write(&self) -> (files: Vec<(&'static str, Vec<u8>)>)
        ensures
            files@.len() == 7,
            files_view(files@) == self@.files(),
    {
        let mut files: Vec<(&'static str, Vec<u8>)> = Vec::new();
        files.push((Rating::R01.file_name(), self.rating_01.write()));
        files.push((Rating::R02.file_name(), self.rating_02.write()));
        files.push((Rating::R04.file_name(), self.rating_04.write()));
        files.push((Rating::R06.file_name(), self.rating_06.write()));
        files.push((Rating::R08.file_name(), self.rating_08.write()));
        files.push((Rating::R10.file_name(), self.rating_10.write()));
        files.push((TODO_FILE, self.todo.write()));
        assert(files_view(files@) == self@.files());
        files
    }

    /// The queue of the tracks that wait for a rating.
    pub fn todo(&self) -> (queue: &Playlist)
        ensures
            queue@ == self@.todo,
    {
        &self.todo
    }

    /// The queue of the tracks rated `rating`.
    pub fn bucket(&self, rating: Rating) -> (queue: &Playlist)
        ensures
            queue@ == self@.bucket(rating),
    {
        match rating {
            Rating::R01 => &self.rating_01,
            Rating::R02 => &self.rating_02,
            Rating::R04 => &self.rating_04,
            Rating::R06 => &self.rating_06,
            Rating::R08 => &self.rating_08,
            Rating::R10 => &self.rating_10,
        }
    }
}

/// What can go wrong around the queues and the audio.
#[derive(Debug)]
pub enum StateError {
    /// No audio device was found.
    NoDevice,
    /// The device gave no sink to play on.
    SinkCreation,
    /// A file could not be read or written.
    Io,
    /// The audio of a track could not be decoded.
    Decoder,
    /// The headers of a track could not be read, for the reason `source`.
    Vorbis { source: VorbisError },
}

impl StateError {
    /// The text that tells the error to the user.
    pub open spec fn text(self) -> Seq<char> {
        match self {
            StateError::NoDevice => "no device found"@,
            StateError::SinkCreation => "sink could not be created"@,
            StateError::Io => "i/o error"@,
            StateError::Decoder => "decoder error"@,
            StateError::Vorbis { .. } => "vorbis error"@,
        }
    }

    /// The text that tells the error to the user.
    pub fn message(&self) -> (message: &'static str)
        ensures
            message@ == self.text(),
    {
        match self {
            StateError::NoDevice => "no device found",
            StateError::SinkCreation => "sink could not be created",
            StateError::Io => "i/o error",
            StateError::Decoder => "decoder error",
            StateError::Vorbis { .. } => "vorbis error",
        }
    }
}

/// A state as plain values.
pub struct Snapshot {
    /// The queues.
    pub queues: Queues,
    /// The metadata lines of the track that is bound to the audio output;
    /// `None` where no track is bound.
    pub metadata: Option<Seq<Seq<char>>>,
    /// Whether the bound track is paused.
    pub paused: bool,
    /// Whether the first track of `todo` waits to be bound: it is not the
    /// track that is bound, if any is.
    pub waiting: bool,
}

impl Snapshot {
    /// The state from which the work starts: `opened` holds the metadata of
    /// the first track of `todo`, where there is one and it was bound. Where
    /// there is one and it was not bound, it waits.
    pub open spec fn start(queues: Queues, opened: Option<Seq<Seq<char>>>) -> Snapshot {
        Snapshot {
            queues,
            metadata: if queues.todo.len() > 0 {
                opened
            } else {
                None
            },
            paused: false,
            waiting: queues.todo.len() > 0 && opened is None,
        }
    }

    /// Nothing is left to rate and nothing is bound.
    pub open spec fn exhausted(self) -> bool {
        self.queues.todo.len() == 0 && self.metadata is None
    }

    /// The state is in step: a track is bound if and only if `todo` holds
    /// one, only a bound track is paused, and a track waits only in `todo`.
    pub open spec fn in_step(self) -> bool {
        &&& self.metadata is Some <==> self.queues.todo.len() > 0
        &&& self.metadata is None ==> !self.paused
        &&& self.waiting ==> self.queues.todo.len() > 0
    }

    /// The path of the track that waits to be bound, if one does.
    pub open spec fn pending(self) -> Option<Seq<u8>> {
        if self.waiting && self.queues.todo.len() > 0 {
            Some(self.queues.todo[0])
        } else {
            None
        }
    }

    /// The state after a request to rate the first track of `todo` with
    /// `rating`. Where it was the last one, nothing is bound any more; else
    /// the next track waits, and the rated one stays bound until that one is.
    /// Nothing changes where `todo` is empty, or where its first track still
    /// waits to be bound.
    pub open spec fn rated(self, rating: Rating) -> Snapshot {
        if self.queues.todo.len() == 0 || self.waiting {
            self
        } else if self.queues.todo.len() == 1 {
            Snapshot {
                queues: self.queues.rated(rating),
                metadata: None,
                paused: false,
                waiting: false,
            }
        } else {
            Snapshot { queues: self.queues.rated(rating), waiting: true, ..self }
        }
    }

    /// The state after the first track of `todo` was bound, with the metadata
    /// `lines`: it plays, and waits no more. Nothing changes where `todo` is
    /// empty.
    pub open spec fn loaded(self, lines: Seq<Seq<char>>) -> Snapshot {
        if self.queues.todo.len() == 0 {
            self
        } else {
            Snapshot { metadata: Some(lines), paused: false, waiting: false, ..self }
        }
    }

    /// The state after a request to pause or to go on: a bound track changes
    /// between the two. Nothing changes where no track is bound.
    pub open spec fn toggled(self) -> Snapshot {
        if self.metadata is Some {
            Snapshot { paused: !self.paused, ..self }
        } else {
            self
        }
    }
}

/// The queues, and what is known of the track that is bound to the audio
/// output.
pub struct State {
    playlists: Playlists,
    metadata: Option<Vec<String>>,
    paused: bool,
    waiting: bool,
}

impl View for State {
    type V = Snapshot;

    closed spec fn view(&self) -> Snapshot {
        Snapshot {
            queues: self.playlists@,
            metadata: match self.metadata {
                Some(lines) => Some(lines_view(lines@)),
                None => None,
            },
            paused: self.paused,
            waiting: self.waiting,
        }
    }
}

impl State {
    /// The state from which the work starts. `opened` is the metadata of the
    /// first track of `todo`, where there is one and it was bound. The state
    /// is in step exactly where a first track comes with its metadata.
    pub fn new(playlists: Playlists, opened: Option<Vec<String>>) -> (state: State)
        ensures
            state@ == Snapshot::start(
                playlists@,
                match opened {
                    Some(lines) => Some(lines_view(lines@)),
                    None => None,
                },
            ),
            state@.in_step() <==> (playlists@.todo.len() > 0 ==> opened is Some),
    {
        let some = playlists.todo.len() > 0;
        let waiting = some && opened.is_none();
        let metadata = if some {
            opened
        } else {
            None
        };
        State { playlists, metadata, paused: false, waiting }
    }

    /// Whether no track is bound. In a state that is in step, that is whether
    /// nothing is left to rate.
    pub fn is_done(&self) -> (done: bool)
        ensures
            done == (self@.metadata is None),
            self@.in_step() ==> done == (self@.queues.todo.len() == 0),
    {
        self.metadata.is_none()
    }

    /// Whether the bound track is paused.
    pub fn is_paused(&self) -> (paused: bool)
        ensures
            paused == self@.paused,
    {
        self.paused
    }

    /// The queues.
    pub fn playlists(&self) -> (playlists: &Playlists)
        ensures
            playlists@ == self@.queues,
    {
        &self.playlists
    }

    /// The paths that wait for a rating, in order.
    pub fn paths(&self) -> (paths: Iter<'_, Vec<u8>>)
        ensures
            IteratorSpec::remaining(&paths).map_values(|path: &Vec<u8>| path@) == self@.queues.todo,
    {
        self.playlists.todo.paths()
    }

    /// The metadata lines of the bound track; none where no track is bound.
    pub fn metadata(&self) -> (lines: &[String])
        ensures
            lines_view(lines@) == match self@.metadata {
                Some(lines) => lines,
                None => Seq::empty(),
            },
    {
        match &self.metadata {
            Some(lines) => lines.as_slice(),
            None => &[],
        }
    }

    /// Reads the metadata of a track from the content of its file: a line for
    /// each important tag of its Vorbis comment header. Fails where the
    /// stream does not begin with the two headers that name the track.
    pub fn prepare_path(data: &[u8]) -> (outcome: Result<Vec<String>, StateError>)
        ensures
            match outcome {
                Ok(lines) => track_tags(data@) matches Some(tags) && lines_view(lines@)
                    == metadata_lines(tags),
                Err(error) => error is Vorbis && track_tags(data@) is None,
            },
    {
        match read_tags(data) {
            Ok(tags) => Ok(select(&tags)),
            Err(source) => Err(StateError::Vorbis { source }),
        }
    }

    /// Pauses the bound track, or lets it go on where it is paused.
    pub fn toggle_pause(&mut self)
        ensures
            final(self)@ == old(self)@.toggled(),
            old(self)@.in_step() ==> final(self)@.in_step(),
    {
        if self.metadata.is_some() {
            self.paused = !self.paused;
        }
    }

    /// Takes note that the first track of `todo` was bound to the audio
    /// output, with the metadata `lines`.
    pub fn update_metadata(&mut self, lines: Vec<String>)
        ensures
            final(self)@ == old(self)@.loaded(lines_view(lines@)),
            final(self)@.pending() is None,
            old(self)@.in_step() ==> final(self)@.in_step(),
            old(self)@.queues.todo.len() > 0 ==> final(self)@.in_step(),
    {
        if self.playlists.todo.len() > 0 {
            self.metadata = Some(lines);
            self.paused = false;
            self.waiting = false;
        }
    }

    /// Rates the first track of `todo`: it moves to the end of the bucket of
    /// `rating`. Returns the path of the track to bind next, the new first
    /// one of `todo`, which waits from now on; `None` where `todo` is left
    /// empty, or was so before.
    ///
    /// While a track waits, because `update_metadata` has not told that it
    /// was bound, a rating files nothing and returns the path of that track
    /// once more, so that the bind can be tried again. A track that cannot be
    /// opened thus holds up the rating until it can, and no track is filed
    /// that was never heard; the track rated last stays bound meanwhile.
    pub fn rate(&mut self, rating: Rating) -> (next: Option<Vec<u8>>)
        ensures
            final(self)@ == old(self)@.rated(rating),
            match next {
                Some(path) => final(self)@.pending() == Some(path@),
                None => final(self)@.pending() is None,
            },
            final(self)@.queues.all_paths() == old(self)@.queues.all_paths(),
            old(self)@.queues.storable() ==> final(self)@.queues.storable(),
            old(self)@.in_step() ==> final(self)@.in_step(),
    {
        proof {
            lemma_rated_keeps_paths(self@.queues, rating);
            if self@.queues.storable() {
                lemma_rated_storable(self@.queues, rating);
            }
        }
        if self.waiting {
            return match self.playlists.todo.next() {
                Some(path) => Some(path.clone()),
                None => None,
            };
        }
        match self.playlists.todo.pop() {
            None => None,
            Some(item) => {
                let next = match self.playlists.todo.next() {
                    Some(path) => Some(path.clone()),
                    None => None,
                };
                if next.is_none() {
                    self.metadata = None;
                    self.paused = false;
                } else {
                    self.waiting = true;
                }
                match rating {
                    Rating::R01 => self.playlists.rating_01.push(item),
                    Rating::R02 => self.playlists.rating_02.push(item),
                    Rating::R04 => self.playlists.rating_04.push(item),
                    Rating::R06 => self.playlists.rating_06.push(item),
                    Rating::R08 => self.playlists.rating_08.push(item),
                    Rating::R10 => self.playlists.rating_10.push(item),
                }
                next
            },
        }
    }

    /// The files to write, as `Playlists::write` gives them.
    pub fn write(&self) -> (files: Vec<(&'static str, Vec<u8>)>)
        ensures
            files@.len() == 7,
            files_view(files@) == self@.queues.files(),
    {
        self.playlists.write()
    }
}

/// A rating neither loses a path nor doubles one: all queues together hold
/// the same paths after it, each as often as before.
pub proof fn lemma_rated_keeps_paths(queues: Queues, rating: Rating)
    ensures
        queues.rated(rating).all_paths() == queues.all_paths(),
{
    if queues.todo.len() > 0 {
        let path = queues.todo[0];
        assert(queues.todo.remove(0) == queues.todo.drop_first());
        to_multiset_remove(queues.todo, 0);
        queues.todo.to_multiset_ensures();
        assert(queues.todo.contains(path));
        to_multiset_build(queues.bucket(rating), path);
        assert(queues.rated(rating).all_paths() =~= queues.all_paths());
    }
}

/// After any number of ratings all queues together hold the paths that they
/// held at the start: those of `todo`, where no track was rated yet.
pub proof fn lemma_ratings_keep_paths(queues: Queues, ratings: Seq<Rating>)
    ensures
        queues.rated_all(ratings).all_paths() == queues.all_paths(),
        queues.unrated() ==> queues.rated_all(ratings).all_paths() == queues.todo.to_multiset(),
    decreases ratings.len(),
{
    if ratings.len() > 0 {
        lemma_rated_keeps_paths(queues, ratings[0]);
        lemma_ratings_keep_paths(queues.rated(ratings[0]), ratings.drop_first());
    }
    if queues.unrated() {
        let none = Seq::<Seq<u8>>::empty();
        assert(queues.rating_01 == none && queues.rating_02 == none && queues.rating_04 == none);
        assert(queues.rating_06 == none && queues.rating_08 == none && queues.rating_10 == none);
        none.to_multiset_ensures();
        assert(none.to_multiset() =~= Multiset::empty());
        assert(queues.all_paths() =~= queues.todo.to_multiset());
    }
}

/// A rating moves a path and changes none: queues that playlist files can
/// hold stay so.
pub proof fn lemma_rated_storable(queues: Queues, rating: Rating)
    requires
        queues.storable(),
    ensures
        queues.rated(rating).storable(),
{
    if queues.todo.len() > 0 {
        assert(all_storable(queues.todo.drop_first())) by {
            assert forall|i: int| 0 <= i < queues.todo.drop_first().len() implies
                crate::playlist::storable(#[trigger] queues.todo.drop_first()[i]) by {
                assert(queues.todo.drop_first()[i] == queues.todo[i + 1]);
            }
        }
        assert(crate::playlist::storable(queues.todo[0]));
    }
}

/// The rating of the last track of `todo`, where it is the bound one and
/// does not wait, leaves nothing to rate and nothing bound.
pub proof fn lemma_last_rating_exhausts(state: Snapshot, rating: Rating)
    requires
        state.queues.todo.len() == 1,
        !state.waiting,
    ensures
        state.rated(rating).exhausted(),
        state.rated(rating).in_step(),
{
}

/// A request to rate neither loses a path nor doubles one, whether it files
/// a track or finds one waiting.
pub proof fn lemma_request_keeps_paths(state: Snapshot, rating: Rating)
    ensures
        state.rated(rating).queues.all_paths() == state.queues.all_paths(),
{
    lemma_rated_keeps_paths(state.queues, rating);
}

/// A state that is in step stays so through a rating, a bind and a request
/// to pause.
pub proof fn lemma_stays_in_step(state: Snapshot, rating: Rating, lines: Seq<Seq<char>>)
    requires
        state.in_step(),
    ensures
        state.rated(rating).in_step(),
        state.loaded(lines).in_step(),
        state.toggled().in_step(),
{
}

/// While a track waits to be bound, a request to rate changes nothing and
/// names that track.
pub proof fn lemma_waiting_holds_up(state: Snapshot, rating: Rating)
    requires
        state.waiting,
    ensures
        state.rated(rating) == state,
        state.rated(rating).pending() == state.pending(),
{
}

/// Where nothing is left to rate and nothing is bound, a rating and a request
/// to pause change nothing.
pub proof fn lemma_exhausted_stays(state: Snapshot, rating: Rating)
    requires
        state.exhausted(),
    ensures
        state.rated(rating) == state,
        state.toggled() == state,
{
}

/// What is written depends on the queues alone: two states with the same
/// queues are written as the same files, byte for byte, whatever is bound.
pub proof fn lemma_written_by_queues(first: Snapshot, second: Snapshot)
    requires
        first.queues == second.queues,
    ensures
        first.queues.files() == second.queues.files(),
{
}

/// Queues that are written and read again come back as they were, where
/// playlist files can hold them.
pub proof fn lemma_written_and_read(queues: Queues)
    requires
        queues.storable(),
    ensures
        Queues::read(
            image(queues.todo),
            image(queues.rating_01),
            image(queues.rating_02),
            image(queues.rating_04),
            image(queues.rating_06),
            image(queues.rating_08),
            image(queues.rating_10),
        ) == queues,
{
    crate::playlist::lemma_round_trip(queues.todo);
    crate::playlist::lemma_round_trip(queues.rating_01);
    crate::playlist::lemma_round_trip(queues.rating_02);
    crate::playlist::lemma_round_trip(queues.rating_04);
    crate::playlist::lemma_round_trip(queues.rating_06);
    crate::playlist::lemma_round_trip(queues.rating_08);
    crate::playlist::lemma_round_trip(queues.rating_10);
}

} // verus!
