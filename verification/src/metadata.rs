use lewton::header::read_header_comment;
use lewton::header::read_header_ident;
use lewton::header::HeaderReadError;
use lewton::VorbisError;
use ogg::reading::PacketReader;
use std::io::Cursor;
use vstd::prelude::*;
use vstd::string::*;

verus! {

/// The tag keys that are shown for a track.
pub const IMPORTANT_KEYS: [&'static str; 10] = [
    "ALBUM",
    "ALBUMARTIST",
    "TITLE",
    "SUBTITLE",
    "ARTIST",
    "album",
    "albumartist",
    "title",
    "subtitle",
    "artist",
];

/// The column at which the colon of a metadata line stands, where the key is
/// not longer than that.
pub const KEY_WIDTH: usize = 30;

/// `key` is one of `IMPORTANT_KEYS`.
pub open spec fn important(key: Seq<char>) -> bool {
    exists|i: int| 0 <= i < IMPORTANT_KEYS@.len() && IMPORTANT_KEYS@[i]@ == key
}

/// The blanks that fill `key` up to `KEY_WIDTH` characters.
pub open spec fn padding(key: Seq<char>) -> Seq<char> {
    Seq::new(
        if key.len() < KEY_WIDTH {
            (KEY_WIDTH - key.len()) as nat
        } else {
            0
        },
        |i: int| ' ',
    )
}

/// The line that shows one tag: the key, left-aligned in a column of
/// `KEY_WIDTH` characters, then a colon, a blank and the value.
pub open spec fn metadata_line(key: Seq<char>, value: Seq<char>) -> Seq<char> {
    key + padding(key) + seq![':', ' '] + value
}

/// The metadata of a track with the tags `comments`: a line for each tag
/// whose key is important, in the order of the tags.
pub open spec fn metadata_lines(comments: Seq<(Seq<char>, Seq<char>)>) -> Seq<Seq<char>> {
    comments.filter(|tag: (Seq<char>, Seq<char>)| important(tag.0)).map_values(
        |tag: (Seq<char>, Seq<char>)| metadata_line(tag.0, tag.1),
    )
}

/// Tags as plain values.
pub open spec fn tags_view(comments: Seq<(String, String)>) -> Seq<(Seq<char>, Seq<char>)> {
    comments.map_values(|tag: (String, String)| (tag.0@, tag.1@))
}

/// Lines as plain values.
pub open spec fn lines_view(lines: Seq<String>) -> Seq<Seq<char>> {
    lines.map_values(|line: String| line@)
}

/// Whether `key` is one of `IMPORTANT_KEYS`.
pub fn is_important(key: &String) -> (found: bool)
    ensures
        found == important(key@),
{
    let mut i: usize = 0;
    while i < IMPORTANT_KEYS.len()
        invariant
            i <= IMPORTANT_KEYS@.len(),
            forall|j: int| 0 <= j < i ==> IMPORTANT_KEYS@[j]@ != key@,
        decreases IMPORTANT_KEYS@.len() - i,
    {
        let candidate = String::from_str(IMPORTANT_KEYS[i]);
        if *key == candidate {
            return true;
        }
        i += 1;
    }
    false
}

/// The metadata line for one tag.
pub fn format_line(key: &String, value: &String) -> (line: String)
    ensures
        line@ == metadata_line(key@, value@),
{
    let mut line = String::from_str(key.as_str());
    let mut width = key.as_str().unicode_len();
    let ghost mut blanks: Seq<char> = Seq::empty();
    proof {
        reveal_strlit(" ");
        reveal_strlit(": ");
        assert(key@ + blanks == key@);
    }
    while width < KEY_WIDTH
        invariant
            key@.len() <= width,
            width == key@.len() + blanks.len(),
            width > key@.len() ==> width <= KEY_WIDTH,
            forall|i: int| 0 <= i < blanks.len() ==> blanks[i] == ' ',
            line@ == key@ + blanks,
            " "@ == seq![' '],
        decreases KEY_WIDTH - width,
    {
        line.append(" ");
        proof {
            assert(key@ + blanks + seq![' '] == key@ + blanks.push(' '));
            blanks = blanks.push(' ');
        }
        width += 1;
    }
    assert(blanks == padding(key@));
    line.append(": ");
    assert(": "@ == seq![':', ' ']);
    line.append(value.as_str());
    line
}

/// The metadata of a track with the tags `comments`.
pub fn select(comments: &Vec<(String, String)>) -> (lines: Vec<String>)
    ensures
        lines_view(lines@) == metadata_lines(tags_view(comments@)),
{
    let ghost tags = tags_view(comments@);
    let ghost keep = |tag: (Seq<char>, Seq<char>)| important(tag.0);
    let ghost show = |tag: (Seq<char>, Seq<char>)| metadata_line(tag.0, tag.1);
    let mut lines: Vec<String> = Vec::new();
    let mut i: usize = 0;
    assert(tags.take(0).filter(keep) == Seq::<(Seq<char>, Seq<char>)>::empty());
    while i < comments.len()
        invariant
            i <= comments.len(),
            tags == tags_view(comments@),
            keep == |tag: (Seq<char>, Seq<char>)| important(tag.0),
            show == |tag: (Seq<char>, Seq<char>)| metadata_line(tag.0, tag.1),
            lines_view(lines@) == tags.take(i as int).filter(keep).map_values(show),
        decreases comments.len() - i,
    {
        let ghost before = tags.take(i as int);
        let ghost after = tags.take(i + 1);
        proof {
            reveal(Seq::filter);
            assert(after.drop_last() == before);
            assert(after.last() == tags[i as int]);
            assert(after.filter(keep) == if keep(tags[i as int]) {
                before.filter(keep).push(tags[i as int])
            } else {
                before.filter(keep)
            });
        }
        let tag = &comments[i];
        if is_important(&tag.0) {
            let line = format_line(&tag.0, &tag.1);
            proof {
                assert(lines_view(lines@.push(line)) == lines_view(lines@).push(line@));
                assert(before.filter(keep).push(tags[i as int]).map_values(show)
                    == before.filter(keep).map_values(show).push(show(tags[i as int])));
            }
            lines.push(line);
        }
        i += 1;
    }
    assert(tags.take(i as int) == tags);
    lines
}

/// `VorbisError` of lewton: why a header or a packet was refused. Nothing of
/// it is read here.
#[verifier::external_type_specification]
#[verifier::external_body]
pub struct ExVorbisError(VorbisError);

/// A stream held in memory, with the `PacketReader` of ogg that cuts it into
/// packets. Nothing of the reader is read here.
#[verifier::external_body]
pub struct Packets<'a> {
    reader: PacketReader<Cursor<&'a [u8]>>,
}

/// The packets that a `PacketReader` of ogg has yet to yield before its first
/// refusal or the end of its stream, each with the serial number of its
/// logical stream.
pub uninterp spec fn unread(packets: Packets) -> Seq<(u32, Seq<u8>)>;

/// The packets of the Ogg stream `data`, as a `PacketReader` of ogg yields
/// them from its start: those before its first refusal or the end.
pub uninterp spec fn ogg_packets(data: Seq<u8>) -> Seq<(u32, Seq<u8>)>;

/// Whether `read_header_ident` of lewton accepts `packet` as the
/// identification header of a Vorbis stream.
pub uninterp spec fn vorbis_ident(packet: Seq<u8>) -> bool;

/// The tags of the Vorbis comment header `packet`, in its order, as
/// `read_header_comment` of lewton gives them; `None` where it refuses the
/// packet.
pub uninterp spec fn vorbis_comments(packet: Seq<u8>) -> Option<Seq<(Seq<char>, Seq<char>)>>;

/// Calls `PacketReader::new` of ogg on a stream held in memory. Not proved:
/// that `ogg_packets` names what the reader goes on to yield.
#[verifier::external_body]
pub(crate) fn packets<'a>(data: &'a [u8]) -> (packets: Packets<'a>)
    ensures
        unread(packets) == ogg_packets(data@),
{
    Packets { reader: PacketReader::new(Cursor::new(data)) }
}

/// Calls `PacketReader::read_packet_expected` of ogg. Not proved: that the
/// call returns, that a packet it yields is the first of `unread` and leaves
/// the rest, and that it fails where none is left.
#[verifier::external_body]
pub(crate) fn read_packet<'a>(packets: &mut Packets<'a>) -> (outcome: Result<
    (u32, Vec<u8>),
    VorbisError,
>)
    ensures
        match outcome {
            Ok(packet) => unread(*old(packets)).len() > 0 && (packet.0, packet.1@) == unread(
                *old(packets),
            )[0] && unread(*final(packets)) == unread(*old(packets)).drop_first(),
            Err(_) => unread(*old(packets)).len() == 0,
        },
{
    let packet = packets.reader.read_packet_expected()?;
    Ok((packet.stream_serial(), packet.data))
}

/// Calls `read_header_ident` of lewton. Not proved: that the call returns for
/// every `packet`, and that `vorbis_ident` names whether it accepts.
#[verifier::external_body]
pub(crate) fn read_ident(packet: &[u8]) -> (outcome: Result<(), VorbisError>)
    ensures
        (outcome is Ok) == vorbis_ident(packet@),
{
    read_header_ident(packet)?;
    Ok(())
}

/// Calls `read_header_comment` of lewton, on a packet that holds what it
/// declares: the call reserves memory by the declared sizes before it reads.
/// Not proved: that the call returns for every such `packet`, and that
/// `vorbis_comments` names its outcome, the comment list of the header or the
/// refusal.
#[verifier::external_body]
pub(crate) fn read_comments(packet: &[u8]) -> (outcome: Result<Vec<(String, String)>, VorbisError>)
    requires
        sized(packet@),
    ensures
        match outcome {
            Ok(comments) => vorbis_comments(packet@) == Some(tags_view(comments@)),
            Err(_) => vorbis_comments(packet@) is None,
        },
{
    Ok(read_header_comment(packet)?.comment_list)
}

/// Builds the error with which lewton refuses a header that ends before
/// what it declares, `HeaderReadError::EndOfPacket`. Nothing is claimed of it.
#[verifier::external_body]
pub(crate) fn end_of_packet() -> VorbisError {
    VorbisError::BadHeader(HeaderReadError::EndOfPacket)
}

/// The number that the four bytes of `bytes` from `at` on give, the lowest
/// byte first.
pub open spec fn word(bytes: Seq<u8>, at: int) -> int {
    bytes[at] + 256 * bytes[at + 1] + 65536 * bytes[at + 2] + 16777216 * bytes[at + 3]
}

/// From `at` on, `bytes` holds `count` texts in full, each after the word
/// that declares its length.
pub open spec fn texts_fit(bytes: Seq<u8>, at: int, count: int) -> bool
    decreases count,
{
    if count <= 0 {
        true
    } else {
        &&& 0 <= at
        &&& at + 4 <= bytes.len()
        &&& at + 4 + word(bytes, at) <= bytes.len()
        &&& texts_fit(bytes, at + 4 + word(bytes, at), count - 1)
    }
}

/// Where the name of the vendor begins in a comment header: after the byte
/// of the header's kind, the six of the codec's name, and the word of the
/// vendor's length.
pub const VENDOR_AT: usize = 11;

/// `packet`, taken as a comment header, holds what it declares: the name of
/// the vendor, the word that counts the comments, and every comment in full.
pub open spec fn sized(packet: Seq<u8>) -> bool {
    &&& VENDOR_AT <= packet.len()
    &&& VENDOR_AT + word(packet, VENDOR_AT - 4) + 4 <= packet.len()
    &&& texts_fit(
        packet,
        VENDOR_AT + word(packet, VENDOR_AT - 4) + 4,
        word(packet, VENDOR_AT + word(packet, VENDOR_AT - 4)),
    )
}

/// The word of `bytes` at `at`.
fn word_at(bytes: &[u8], at: usize) -> (value: u32)
    requires
        at + 4 <= bytes.len(),
    ensures
        value == word(bytes@, at as int),
{
    let low: u32 = bytes[at] as u32 + 256 * (bytes[at + 1] as u32);
    let high: u32 = bytes[at + 2] as u32 + 256 * (bytes[at + 3] as u32);
    low + 65536 * high
}

/// Whether `packet`, taken as a comment header, holds what it declares.
pub fn is_sized(packet: &[u8]) -> (fit: bool)
    ensures
        fit == sized(packet@),
{
    let len = packet.len();
    if len < VENDOR_AT + 4 {
        return false;
    }
    let vendor = word_at(packet, VENDOR_AT - 4) as usize;
    if vendor > len - (VENDOR_AT + 4) {
        return false;
    }
    let count = word_at(packet, VENDOR_AT + vendor);
    let mut at: usize = VENDOR_AT + vendor + 4;
    let mut left: u32 = count;
    while left > 0
        invariant
            len == packet@.len(),
            at <= len,
            texts_fit(packet@, at as int, left as int) == sized(packet@),
        decreases left,
    {
        if len - at < 4 {
            return false;
        }
        let text = word_at(packet, at) as usize;
        if text > len - at - 4 {
            return false;
        }
        at = at + 4 + text;
        left = left - 1;
    }
    true
}

/// The content of the first packet of `packets` that belongs to the logical
/// stream `serial`.
pub open spec fn first_of(packets: Seq<(u32, Seq<u8>)>, serial: u32) -> Option<Seq<u8>>
    decreases packets.len(),
{
    if packets.len() == 0 {
        None
    } else if packets[0].0 == serial {
        Some(packets[0].1)
    } else {
        first_of(packets.drop_first(), serial)
    }
}

/// The tags of the track in the Ogg stream `data`. Its first packet is the
/// identification header of a Vorbis stream, and the next packet of the same
/// logical stream is the comment header that holds the tags. `None` where the
/// stream does not begin so, or where the comment header declares more than
/// it holds.
pub open spec fn track_tags(data: Seq<u8>) -> Option<Seq<(Seq<char>, Seq<char>)>> {
    let packets = ogg_packets(data);
    if packets.len() > 0 && vorbis_ident(packets[0].1) {
        match first_of(packets.drop_first(), packets[0].0) {
            Some(comment) => if sized(comment) {
                vorbis_comments(comment)
            } else {
                None
            },
            None => None,
        }
    } else {
        None
    }
}

/// Reads the tags of the track in the Ogg stream `data`, or says why they
/// cannot be read. The setup header and the audio that follow are not looked
/// at.
pub fn read_tags(data: &[u8]) -> (outcome: Result<Vec<(String, String)>, VorbisError>)
    ensures
        match outcome {
            Ok(tags) => track_tags(data@) == Some(tags_view(tags@)),
            Err(_) => track_tags(data@) is None,
        },
{
    let mut stream = packets(data);
    let (serial, first) = match read_packet(&mut stream) {
        Ok(packet) => packet,
        Err(source) => { return Err(source); },
    };
    match read_ident(first.as_slice()) {
        Ok(_) => {},
        Err(source) => { return Err(source); },
    }
    loop
        invariant
            ogg_packets(data@).len() > 0,
            vorbis_ident(ogg_packets(data@)[0].1),
            serial == ogg_packets(data@)[0].0,
            first_of(ogg_packets(data@).drop_first(), serial) == first_of(unread(stream), serial),
        decreases unread(stream).len(),
    {
        match read_packet(&mut stream) {
            Ok(packet) => {
                if packet.0 == serial {
                    if !is_sized(packet.1.as_slice()) {
                        return Err(end_of_packet());
                    }
                    return read_comments(packet.1.as_slice());
                }
            },
            Err(source) => { return Err(source); },
        }
    }
}

} // verus!
