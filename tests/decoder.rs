use twipo_synchro::decoder::{decode, FeedError, MarkerKind};

fn table() -> Vec<char> {
    vec!['あ', 'い', '\u{3000}', 'A']
}

#[test]
fn high_byte_pair_gives_table_entry_zero() {
    let (s, end) = decode(&table(), &[0x80, 0x00, 0xFF], 0).unwrap();
    assert_eq!(s.content, vec!['あ']);
    assert!(s.markers.is_empty());
    assert_eq!(end, 3);
}

#[test]
fn index_at_table_size_is_unknown_codepoint() {
    let r = decode(&table(), &[0x80, 0x04, 0xFF], 0);
    assert_eq!(r.err(), Some(FeedError::UnknownCodepoint));
}

#[test]
fn index_far_beyond_table_is_unknown_codepoint() {
    let r = decode(&table(), &[0xFE, 0xFF, 0xFF], 0);
    assert_eq!(r.err(), Some(FeedError::UnknownCodepoint));
}

#[test]
fn line_break_then_terminator() {
    let (s, end) = decode(&table(), &[0x00, 0xFF], 0).unwrap();
    assert!(s.content.is_empty());
    assert_eq!(s.markers.len(), 1);
    assert_eq!(s.markers[0].kind, MarkerKind::LineBreak);
    assert_eq!(s.markers[0].offset, 0);
    assert_eq!(end, 2);
}

#[test]
fn ideographic_space_becomes_ascii_space() {
    let (s, _) = decode(&table(), &[0x80, 0x02, 0x80, 0x03, 0xFF], 0).unwrap();
    assert_eq!(s.content, vec![' ', 'A']);
}

#[test]
fn ruby_markers_at_character_offsets() {
    let bytes = [0x80, 0x00, 0x09, 0x80, 0x01, 0x0B, 0x00, 0x80, 0x03, 0xFF];
    let (s, end) = decode(&table(), &bytes, 0).unwrap();
    assert_eq!(s.content, vec!['あ', 'い', 'A']);
    let kinds: Vec<MarkerKind> = s.markers.iter().map(|m| m.kind).collect();
    let offsets: Vec<usize> = s.markers.iter().map(|m| m.offset).collect();
    assert_eq!(kinds, vec![MarkerKind::RubyBase, MarkerKind::RubyEnd, MarkerKind::LineBreak]);
    assert_eq!(offsets, vec![1, 2, 2]);
    for w in offsets.windows(2) {
        assert!(w[0] <= w[1]);
    }
    assert!(offsets.iter().all(|o| *o <= s.content.len()));
    assert_eq!(end, bytes.len());
}

#[test]
fn decoding_starts_at_the_given_position() {
    let (s, end) = decode(&table(), &[0x41, 0x80, 0x01, 0xFF, 0x00], 1).unwrap();
    assert_eq!(s.content, vec!['い']);
    assert_eq!(end, 4);
}

#[test]
fn unknown_token_is_refused() {
    let r = decode(&table(), &[0x80, 0x00, 0x41, 0xFF], 0);
    assert_eq!(r.err(), Some(FeedError::UnknownToken));
}

#[test]
fn missing_terminator_is_truncated() {
    assert_eq!(decode(&table(), &[0x80, 0x00], 0).err(), Some(FeedError::Truncated));
    assert_eq!(decode(&table(), &[0x80], 0).err(), Some(FeedError::Truncated));
    assert_eq!(decode(&table(), &[], 0).err(), Some(FeedError::Truncated));
}
