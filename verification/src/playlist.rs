use itertools::Itertools;
use std::collections::vec_deque::Iter;
use std::collections::VecDeque;
use vstd::prelude::*;
use vstd::seq_lib::lemma_flatten_concat;
use vstd::std_specs::iter::IteratorSpec;
use vstd::std_specs::vecdeque::axiom_spec_iter;

verus! {

/// The byte that ends a line of a playlist file.
pub const NEWLINE: u8 = 10;

/// Number of bytes before the first line break of `text`: its whole length
/// where it holds none.
pub open spec fn first_break(text: Seq<u8>) -> int
    decreases text.len(),
{
    if text.len() == 0 || text[0] == NEWLINE {
        0
    } else {
        1 + first_break(text.drop_first())
    }
}

/// `text` cut at every line break: all its lines in order, blank ones too,
/// each without its break.
pub open spec fn lines(text: Seq<u8>) -> Seq<Seq<u8>>
    decreases text.len(),
    via lines_terminates
{
    let n = first_break(text);
    if n < text.len() {
        seq![text.take(n)] + lines(text.skip(n + 1))
    } else {
        seq![text]
    }
}

#[via_fn]
proof fn lines_terminates(text: Seq<u8>) {
    lemma_first_break(text);
}

/// The entries of a playlist file: its lines that are not blank, in order.
pub open spec fn entries(text: Seq<u8>) -> Seq<Seq<u8>> {
    lines(text).filter(|line: Seq<u8>| line.len() > 0)
}

/// `items` with a copy of `separator` between each two neighbours.
pub open spec fn interspersed(items: Seq<Seq<u8>>, separator: Seq<u8>) -> Seq<Seq<u8>>
    decreases items.len(),
{
    if items.len() <= 1 {
        items
    } else {
        seq![items[0], separator] + interspersed(items.drop_first(), separator)
    }
}

/// The content of the file that holds `paths`: nothing for an empty queue,
/// else the paths joined by line breaks, and one line break at the end.
pub open spec fn image(paths: Seq<Seq<u8>>) -> Seq<u8> {
    if paths.len() == 0 {
        Seq::empty()
    } else {
        interspersed(paths, seq![NEWLINE]).flatten().push(NEWLINE)
    }
}

/// A path that a playlist file can hold as an entry: it is not empty and has
/// no line break in it.
pub open spec fn storable(path: Seq<u8>) -> bool {
    path.len() > 0 && !path.contains(NEWLINE)
}

/// Every path of `paths` is storable.
pub open spec fn all_storable(paths: Seq<Seq<u8>>) -> bool {
    forall|i: int| 0 <= i < paths.len() ==> storable(#[trigger] paths[i])
}

/// `first_break` names the least position that is a line break or the end.
pub proof fn lemma_first_break(text: Seq<u8>)
    ensures
        0 <= first_break(text) <= text.len(),
        forall|i: int| 0 <= i < first_break(text) ==> text[i] != NEWLINE,
        first_break(text) < text.len() ==> text[first_break(text)] == NEWLINE,
    decreases text.len(),
{
    if text.len() == 0 || text[0] == NEWLINE {
    } else {
        let rest = text.drop_first();
        lemma_first_break(rest);
        assert forall|i: int| 0 <= i < first_break(text) implies text[i] != NEWLINE by {
            if i > 0 {
                assert(text[i] == rest[i - 1]);
            }
        }
        assert(first_break(text) < text.len() ==> text[first_break(text)] == rest[first_break(
            rest,
        )]);
    }
}

/// `first_break` is the only position with the properties that
/// `lemma_first_break` states.
pub proof fn lemma_first_break_is(text: Seq<u8>, n: int)
    requires
        0 <= n <= text.len(),
        forall|i: int| 0 <= i < n ==> text[i] != NEWLINE,
        n < text.len() ==> text[n] == NEWLINE,
    ensures
        first_break(text) == n,
{
    lemma_first_break(text);
}

/// An ordered queue of file paths, each kept as the bytes of the path.
pub struct Playlist {
    paths: VecDeque<Vec<u8>>,
}

impl View for Playlist {
    type V = Seq<Seq<u8>>;

    closed spec fn view(&self) -> Seq<Seq<u8>> {
        self.paths@.map_values(|path: Vec<u8>| path@)
    }
}

impl Playlist {
    /// Reads a playlist from the content of its file: one entry for each
    /// line that is not blank, in the order of the lines.
    pub fn from_bytes(content: &[u8]) -> (list: Playlist)
        ensures
            list@ == entries(content@),
            all_storable(list@),
    {
        proof {
            lemma_entries_storable(content@);
        }
        let ghost text = content@;
        let mut paths: VecDeque<Vec<u8>> = VecDeque::new();
        let mut line: Vec<u8> = Vec::new();
        let ghost mut start: int = 0;
        let mut i: usize = 0;
        proof {
            assert(text.skip(0) == text);
            assert(paths@.map_values(|path: Vec<u8>| path@) + entries(text) == entries(text));
        }
        while i < content.len()
            invariant
                text == content@,
                0 <= start <= i <= text.len(),
                line@ == text.subrange(start, i as int),
                !line@.contains(NEWLINE),
                entries(text) == paths@.map_values(|path: Vec<u8>| path@) + entries(
                    text.skip(start),
                ),
            decreases content.len() - i,
        {
            let byte = content[i];
            if byte == NEWLINE {
                proof {
                    assert(text.skip(start).take(line@.len() as int) == line@);
                    lemma_entries_step(text.skip(start), line@);
                    assert(text.skip(start).skip(line@.len() as int + 1) == text.skip(i + 1));
                }
                if line.len() > 0 {
                    proof {
                        lemma_map_push(paths@, line);
                    }
                    paths.push_back(line);
                }
                line = Vec::new();
                proof {
                    start = i + 1;
                }
            } else {
                line.push(byte);
                assert(line@ == text.subrange(start, i + 1));
            }
            i += 1;
        }
        proof {
            assert(text.skip(start) == line@);
            lemma_entries_last(line@);
        }
        if line.len() > 0 {
            proof {
                lemma_map_push(paths@, line);
            }
            paths.push_back(line);
        }
        Playlist { paths }
    }

    /// The paths in stored order.
    pub fn paths(&self) -> (paths: Iter<'_, Vec<u8>>)
        ensures
            IteratorSpec::remaining(&paths).map_values(|path: &Vec<u8>| path@) == self@,
    {
        broadcast use axiom_spec_iter;

        let paths = self.paths.iter();
        assert(IteratorSpec::remaining(&paths).map_values(|path: &Vec<u8>| path@) == self@);
        paths
    }

    /// The number of paths.
    pub fn len(&self) -> (len: usize)
        ensures
            len == self@.len(),
    {
        self.paths.len()
    }

    /// The first path, which `pop` would remove.
    pub fn next(&self) -> (front: Option<&Vec<u8>>)
        ensures
            match front {
                Some(path) => self@.len() > 0 && path@ == self@[0],
                None => self@.len() == 0,
            },
    {
        if self.paths.len() > 0 {
            Some(&self.paths[0])
        } else {
            None
        }
    }

    /// Removes the first path and returns it; leaves an empty playlist as it is.
    pub fn pop(&mut self) -> (front: Option<Vec<u8>>)
        ensures
            match front {
                Some(path) => old(self)@.len() > 0 && path@ == old(self)@[0] && final(self)@ == old(
                    self,
                )@.drop_first(),
                None => old(self)@.len() == 0 && final(self)@ == old(self)@,
            },
    {
        let front = self.paths.pop_front();
        assert(front is Some ==> self@ == old(self)@.drop_first());
        front
    }

    /// Appends `path` at the end.
    pub fn push(&mut self, path: Vec<u8>)
        ensures
            final(self)@ == old(self)@.push(path@),
    {
        self.paths.push_back(path);
        assert(self@ == old(self)@.push(path@));
    }

    /// The content of the file that holds this playlist.
    pub fn write(&self) -> (content: Vec<u8>)
        ensures
            content@ == image(self@),
    {
        let mut content: Vec<u8> = Vec::new();
        if self.paths.len() > 0 {
            let separator: [u8; 1] = [NEWLINE];
            assert(separator@ == seq![NEWLINE]);
            let parts = intersperse(&self.paths, separator.as_slice());
            let ghost chunks = parts@.map_values(|part: &[u8]| part@);
            let mut i: usize = 0;
            while i < parts.len()
                invariant
                    i <= parts.len(),
                    chunks == parts@.map_values(|part: &[u8]| part@),
                    content@ == chunks.take(i as int).flatten(),
                decreases parts.len() - i,
            {
                proof {
                    assert(chunks.take(i + 1) == chunks.take(i as int).push(chunks[i as int]));
                    chunks.take(i as int).lemma_flatten_push(chunks[i as int]);
                }
                content.extend_from_slice(parts[i]);
                assert(content@ == chunks.take(i as int).flatten() + chunks[i as int]);
                i += 1;
            }
            assert(chunks.take(i as int) == chunks);
            content.push(NEWLINE);
        }
        content
    }
}

/// Calls `Itertools::intersperse` of itertools on the paths of a queue, taken
/// as slices. Not proved: that what it yields is the paths in order, with
/// `separator` between each two neighbours, and nothing before the first or
/// after the last.
#[verifier::external_body]
fn intersperse<'a>(paths: &'a VecDeque<Vec<u8>>, separator: &'a [u8]) -> (parts: Vec<&'a [u8]>)
    ensures
        parts@.map_values(|part: &[u8]| part@) == interspersed(
            paths@.map_values(|path: Vec<u8>| path@),
            separator@,
        ),
{
    Itertools::intersperse(paths.iter().map(|path| path.as_slice()), separator).collect()
}

proof fn lemma_map_push(paths: Seq<Vec<u8>>, path: Vec<u8>)
    ensures
        paths.push(path).map_values(|p: Vec<u8>| p@) == paths.map_values(|p: Vec<u8>| p@).push(
            path@,
        ),
{
}

/// A text that begins with the line `first` and its break holds the entries
/// of the rest, after `first` itself where it is not blank.
pub proof fn lemma_entries_step(text: Seq<u8>, first: Seq<u8>)
    requires
        !first.contains(NEWLINE),
        first.len() < text.len(),
        text.take(first.len() as int) == first,
        text[first.len() as int] == NEWLINE,
    ensures
        entries(text) == if first.len() > 0 {
            seq![first] + entries(text.skip(first.len() as int + 1))
        } else {
            entries(text.skip(first.len() as int + 1))
        },
{
    let n = first.len() as int;
    assert forall|i: int| 0 <= i < n implies text[i] != NEWLINE by {
        assert(first[i] == text[i]);
        assert(first.contains(first[i]));
    }
    lemma_first_break_is(text, n);
    let rest = lines(text.skip(n + 1));
    let keep = |line: Seq<u8>| line.len() > 0;
    assert(lines(text) == seq![first] + rest);
    Seq::filter_distributes_over_add(seq![first], rest, keep);
    lemma_filter_one(first);
}

/// A text without a line break holds itself as its one entry, or none where
/// it is empty.
pub proof fn lemma_entries_last(text: Seq<u8>)
    requires
        !text.contains(NEWLINE),
    ensures
        entries(text) == if text.len() > 0 {
            seq![text]
        } else {
            Seq::<Seq<u8>>::empty()
        },
{
    assert forall|i: int| 0 <= i < text.len() implies text[i] != NEWLINE by {
        assert(text.contains(text[i]));
    }
    lemma_first_break_is(text, text.len() as int);
    assert(lines(text) == seq![text]);
    lemma_filter_one(text);
}

/// Each path of `paths` followed by a line break.
spec fn terminated(paths: Seq<Seq<u8>>) -> Seq<u8>
    decreases paths.len(),
{
    if paths.len() == 0 {
        Seq::empty()
    } else {
        paths[0].push(NEWLINE) + terminated(paths.drop_first())
    }
}

proof fn lemma_image_terminated(paths: Seq<Seq<u8>>)
    ensures
        image(paths) == terminated(paths),
    decreases paths.len(),
{
    let separator = seq![NEWLINE];
    if paths.len() == 0 {
    } else if paths.len() == 1 {
        paths.lemma_flatten_one_element();
        assert(terminated(paths.drop_first()) == Seq::<u8>::empty());
        assert(image(paths) == terminated(paths));
    } else {
        let rest = paths.drop_first();
        lemma_image_terminated(rest);
        let head = seq![paths[0], separator];
        lemma_flatten_concat(head, interspersed(rest, separator));
        assert(head.flatten() == paths[0].push(NEWLINE)) by {
            reveal_with_fuel(Seq::flatten, 3);
            assert(head.drop_first() == seq![separator]);
            assert(head.drop_first().drop_first() == Seq::<Seq<u8>>::empty());
            assert(head.flatten() == paths[0] + (separator + Seq::<u8>::empty()));
        }
        assert(image(paths) == head.flatten() + interspersed(rest, separator).flatten().push(
            NEWLINE,
        ));
    }
}

/// A playlist that is saved and loaded again comes back as it was: the same
/// paths in the same order, where every path is storable.
pub proof fn lemma_round_trip(paths: Seq<Seq<u8>>)
    requires
        all_storable(paths),
    ensures
        entries(image(paths)) == paths,
    decreases paths.len(),
{
    lemma_image_terminated(paths);
    if paths.len() == 0 {
        lemma_entries_last(Seq::empty());
    } else {
        let rest = paths.drop_first();
        let text = terminated(paths);
        assert(all_storable(rest)) by {
            assert forall|i: int| 0 <= i < rest.len() implies storable(#[trigger] rest[i]) by {
                assert(rest[i] == paths[i + 1]);
            }
        }
        lemma_round_trip(rest);
        lemma_image_terminated(rest);
        assert(storable(paths[0]));
        assert(text.take(paths[0].len() as int) == paths[0]);
        assert(text.skip(paths[0].len() as int + 1) == terminated(rest));
        lemma_entries_step(text, paths[0]);
        assert(seq![paths[0]] + rest == paths);
    }
}

/// Whatever a file holds, the entries read from it are storable: saving them
/// and loading them again changes nothing.
pub proof fn lemma_entries_storable(text: Seq<u8>)
    ensures
        all_storable(entries(text)),
    decreases text.len(),
{
    lemma_first_break(text);
    let n = first_break(text);
    let first = text.take(n);
    assert(!first.contains(NEWLINE));
    if n < text.len() {
        let rest = text.skip(n + 1);
        lemma_entries_storable(rest);
        lemma_entries_step(text, first);
    } else {
        assert(first == text);
        lemma_entries_last(text);
    }
}

proof fn lemma_filter_one(line: Seq<u8>)
    ensures
        seq![line].filter(|l: Seq<u8>| l.len() > 0) == if line.len() > 0 {
            seq![line]
        } else {
            Seq::<Seq<u8>>::empty()
        },
{
    let keep = |l: Seq<u8>| l.len() > 0;
    let one = seq![line];
    reveal_with_fuel(Seq::filter, 2);
    assert(one.drop_last() == Seq::<Seq<u8>>::empty());
    assert(one.last() == line);
}

} // verus!
