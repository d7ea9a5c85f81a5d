//! Decoding of the compact string encoding used on the source pipe.
use vstd::prelude::*;

verus! {

/// Kind of a zero-width formatting annotation.
#[derive(Clone, Copy, Debug, PartialEq, Eq, Structural)]
pub enum MarkerKind {
    LineBreak,
    RubyBase,
    RubyEnd,
}

/// A formatting annotation placed at a character offset of the content.
#[derive(Clone, Copy, Debug, PartialEq, Eq, Structural)]
pub struct Marker {
    pub kind: MarkerKind,
    pub offset: usize,
}

/// Text with its formatting markers kept out of band.
#[derive(Debug)]
pub struct SC3String {
    pub content: Vec<char>,
    pub markers: Vec<Marker>,
}

/// Mathematical value of a `SC3String`.
pub struct SC3StringView {
    pub content: Seq<char>,
    pub markers: Seq<Marker>,
}

impl View for SC3String {
    type V = SC3StringView;

    open spec fn view(&self) -> SC3StringView {
        SC3StringView { content: self.content@, markers: self.markers@ }
    }
}

fn copy_vec<T: Copy>(v: &Vec<T>) -> (r: Vec<T>)
    ensures
        r@ == v@,
{
    let mut r: Vec<T> = Vec::new();
    let mut i: usize = 0;
    while i < v.len()
        invariant
            i <= v@.len(),
            r@ == v@.subrange(0, i as int),
        decreases v@.len() - i,
    {
        r.push(v[i]);
        i = i + 1;
        assert(r@ =~= v@.subrange(0, i as int));
    }
    assert(v@.subrange(0, v@.len() as int) =~= v@);
    r
}

impl SC3String {
    /// A copy of this string.
    pub fn duplicate(&self) -> (r: SC3String)
        ensures
            r@ == self@,
    {
        SC3String { content: copy_vec(&self.content), markers: copy_vec(&self.markers) }
    }
}

/// Why the source feed cannot be read any further.
#[derive(Clone, Copy, Debug, PartialEq, Eq, Structural)]
pub enum FeedError {
    /// The bytes ended before the message did.
    Truncated,
    /// A two-byte character index lies beyond the character table.
    UnknownCodepoint,
    /// A string holds a byte that starts no token.
    UnknownToken,
    /// A message starts with a tag that no message kind has.
    UnknownTag,
}

pub const TERMINATOR: u8 = 0xFF;

pub const IDEOGRAPHIC_SPACE: char = '\u{3000}';

/// The character that a table entry stands for in decoded content: the
/// full-width space is shown as an ASCII space.
pub open spec fn display_char(c: char) -> char {
    if c == IDEOGRAPHIC_SPACE { ' ' } else { c }
}

/// Index into the character table of the two-byte token `hi lo`.
pub open spec fn codepoint_index(hi: u8, lo: u8) -> int {
    (hi as int - 0x80) * 256 + lo as int
}

pub open spec fn marker_at(kind: MarkerKind, content: Seq<char>) -> Marker {
    Marker { kind, offset: content.len() as usize }
}

/// Decoding of the string that starts at `pos`, with `content` and
/// `markers` already decoded: the content, the markers and the position
/// just past the terminator.
pub open spec fn decode_from(
    table: Seq<char>,
    bytes: Seq<u8>,
    pos: int,
    content: Seq<char>,
    markers: Seq<Marker>,
) -> Result<(Seq<char>, Seq<Marker>, int), FeedError>
    decreases bytes.len() - pos,
{
    if pos < 0 || pos >= bytes.len() {
        Err(FeedError::Truncated)
    } else {
        let b = bytes[pos];
        if b == 0x00 {
            decode_from(table, bytes, pos + 1, content, markers.push(marker_at(MarkerKind::LineBreak, content)))
        } else if b == 0x09 {
            decode_from(table, bytes, pos + 1, content, markers.push(marker_at(MarkerKind::RubyBase, content)))
        } else if b == 0x0B {
            decode_from(table, bytes, pos + 1, content, markers.push(marker_at(MarkerKind::RubyEnd, content)))
        } else if 0x80 <= b && b <= 0xFE {
            if pos + 1 >= bytes.len() {
                Err(FeedError::Truncated)
            } else {
                let index = codepoint_index(b, bytes[pos + 1]);
                if index >= table.len() {
                    Err(FeedError::UnknownCodepoint)
                } else {
                    decode_from(table, bytes, pos + 2, content.push(display_char(table[index])), markers)
                }
            }
        } else if b == TERMINATOR {
            Ok((content, markers, pos + 1))
        } else {
            Err(FeedError::UnknownToken)
        }
    }
}

/// Decoding of the string that starts at `pos`.
pub open spec fn decode_spec(table: Seq<char>, bytes: Seq<u8>, pos: int) -> Result<(SC3StringView, int), FeedError> {
    match decode_from(table, bytes, pos, Seq::empty(), Seq::empty()) {
        Ok((c, m, end)) => Ok((SC3StringView { content: c, markers: m }, end)),
        Err(e) => Err(e),
    }
}

/// Markers that are in order of offset and lie within the content.
pub open spec fn markers_well_placed(content: Seq<char>, markers: Seq<Marker>) -> bool {
    &&& forall|i: int, j: int| 0 <= i <= j < markers.len() ==> markers[i].offset <= markers[j].offset
    &&& forall|i: int| 0 <= i < markers.len() ==> markers[i].offset <= content.len()
}

proof fn lemma_decode_from_places_markers(
    table: Seq<char>,
    bytes: Seq<u8>,
    pos: int,
    content: Seq<char>,
    markers: Seq<Marker>,
)
    requires
        markers_well_placed(content, markers),
        content.len() + bytes.len() - pos <= usize::MAX,
    ensures
        decode_from(table, bytes, pos, content, markers) matches Ok((c, m, _)) ==> markers_well_placed(c, m),
    decreases bytes.len() - pos,
{
    if 0 <= pos < bytes.len() {
        let b = bytes[pos];
        if b == 0x00 || b == 0x09 || b == 0x0B {
            let kind = if b == 0x00 {
                MarkerKind::LineBreak
            } else if b == 0x09 {
                MarkerKind::RubyBase
            } else {
                MarkerKind::RubyEnd
            };
            let m2 = markers.push(marker_at(kind, content));
            assert(markers_well_placed(content, m2));
            lemma_decode_from_places_markers(table, bytes, pos + 1, content, m2);
        } else if 0x80 <= b && b <= 0xFE && pos + 1 < bytes.len() {
            let index = codepoint_index(b, bytes[pos + 1]);
            if index < table.len() {
                let c2 = content.push(display_char(table[index]));
                assert(markers_well_placed(c2, markers));
                lemma_decode_from_places_markers(table, bytes, pos + 2, c2, markers);
            }
        }
    }
}

/// Whatever string is decoded, its marker offsets never decrease in
/// emission order and none lies past the end of the content.
pub proof fn lemma_decoded_markers_ordered(table: Seq<char>, bytes: Seq<u8>, pos: int)
    requires
        bytes.len() <= usize::MAX,
        0 <= pos,
    ensures
        decode_spec(table, bytes, pos) matches Ok((s, _)) ==> markers_well_placed(s.content, s.markers),
{
    lemma_decode_from_places_markers(table, bytes, pos, Seq::empty(), Seq::empty());
}

/// A two-byte token whose index is at or beyond the size of the character
/// table fails as an unknown codepoint, whatever follows it.
pub proof fn lemma_index_beyond_table_fails(table: Seq<char>, hi: u8, lo: u8, rest: Seq<u8>)
    requires
        0x80 <= hi <= 0xFE,
        codepoint_index(hi, lo) >= table.len(),
    ensures
        decode_spec(table, seq![hi, lo] + rest, 0) == Err::<(SC3StringView, int), FeedError>(FeedError::UnknownCodepoint),
{
    let bytes = seq![hi, lo] + rest;
    assert(bytes[0] == hi && bytes[1] == lo);
}

/// Decodes the string that starts at `start`, one token at a time, up to
/// and including its terminator; returns it with the position just past
/// the terminator.
pub fn decode(table: &Vec<char>, bytes: &[u8], start: usize) -> (r: Result<(SC3String, usize), FeedError>)
    ensures
        match r {
            Ok((s, end)) => decode_spec(table@, bytes@, start as int) == Ok::<(SC3StringView, int), FeedError>((s@, end as int)),
            Err(e) => decode_spec(table@, bytes@, start as int) == Err::<(SC3StringView, int), FeedError>(e),
        },
{
    let mut content: Vec<char> = Vec::new();
    let mut markers: Vec<Marker> = Vec::new();
    let mut pos: usize = start;
    loop
        invariant
            start <= pos,
            content@.len() <= pos - start,
            decode_from(table@, bytes@, start as int, Seq::empty(), Seq::empty())
                == decode_from(table@, bytes@, pos as int, content@, markers@),
        decreases bytes@.len() - pos,
    {
        if pos >= bytes.len() {
            return Err(FeedError::Truncated);
        }
        let b = bytes[pos];
        if b == 0x00 || b == 0x09 || b == 0x0B {
            let kind = if b == 0x00 {
                MarkerKind::LineBreak
            } else if b == 0x09 {
                MarkerKind::RubyBase
            } else {
                MarkerKind::RubyEnd
            };
            markers.push(Marker { kind, offset: content.len() });
            pos = pos + 1;
        } else if 0x80 <= b && b <= 0xFE {
            if pos + 1 >= bytes.len() {
                return Err(FeedError::Truncated);
            }
            let lo = bytes[pos + 1];
            let index: usize = ((b as usize) - 0x80) * 256 + (lo as usize);
            if index >= table.len() {
                return Err(FeedError::UnknownCodepoint);
            }
            let c = table[index];
            if c == IDEOGRAPHIC_SPACE {
                content.push(' ');
            } else {
                content.push(c);
            }
            pos = pos + 2;
        } else if b == TERMINATOR {
            let s = SC3String { content, markers };
            return Ok((s, pos + 1));
        } else {
            return Err(FeedError::UnknownToken);
        }
    }
}

} // verus!
