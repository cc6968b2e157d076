use imagespells::meta::{interpret_segment, interpret_segments, Metadata, MetadataDecoder, MetadataType};
use imagespells::jpeg::MarkerList;

fn exif_payload_with_make() -> Vec<u8> {
    let mut v = b"Exif\0\0".to_vec();
    // Big-endian TIFF header, first IFD at offset 8.
    v.extend_from_slice(&[0x4d, 0x4d, 0x00, 0x2a, 0x00, 0x00, 0x00, 0x08]);
    // One entry: Make (0x010f), ASCII, 4 bytes, "Can\0" stored inline.
    v.extend_from_slice(&[0x00, 0x01]);
    v.extend_from_slice(&[0x01, 0x0f, 0x00, 0x02, 0x00, 0x00, 0x00, 0x04, b'C', b'a', b'n', 0x00]);
    // No next IFD.
    v.extend_from_slice(&[0x00, 0x00, 0x00, 0x00]);
    v
}

#[test]
fn comment_is_decoded_as_text() {
    match interpret_segment(MetadataType::Comment, b"Created with GIMP") {
        Metadata::Comment(s) => assert_eq!(s, "Created with GIMP"),
        other => panic!("unexpected {:?}", other),
    }
}

#[test]
fn comment_with_invalid_utf8_gets_replacement_characters() {
    match interpret_segment(MetadataType::Comment, &[0x61, 0xff, 0x62]) {
        Metadata::Comment(s) => assert_eq!(s, "a\u{FFFD}b"),
        other => panic!("unexpected {:?}", other),
    }
}

#[test]
fn exif_segment_is_parsed() {
    let data = exif_payload_with_make();
    match interpret_segment(MetadataType::ExifXmp, &data) {
        Metadata::Exif(fields) => {
            assert_eq!(fields.len(), 1);
            assert_eq!(fields[0].tag, exif::Tag::Make);
            assert_eq!(fields[0].ifd_num, exif::In::PRIMARY);
            assert_eq!(fields[0].display_value().to_string(), "\"Can\"");
        }
        other => panic!("unexpected {:?}", other),
    }
}

#[test]
fn exif_segment_with_bad_tiff_is_a_decoding_error() {
    let data = b"Exif\0\0not a tiff header".to_vec();
    match interpret_segment(MetadataType::ExifXmp, &data) {
        Metadata::DecodingError => {}
        other => panic!("unexpected {:?}", other),
    }
}

#[test]
fn exif_segment_with_truncated_tiff_is_a_decoding_error() {
    let data = b"Exif\0\0MM\0".to_vec();
    match interpret_segment(MetadataType::ExifXmp, &data) {
        Metadata::DecodingError => {}
        other => panic!("unexpected {:?}", other),
    }
}

#[test]
fn exif_segment_without_tiff_signature_is_a_decoding_error() {
    let data = b"Exif\0\0XXXXXXXXXXXX".to_vec();
    match interpret_segment(MetadataType::ExifXmp, &data) {
        Metadata::DecodingError => {}
        other => panic!("unexpected {:?}", other),
    }
}

#[test]
fn exif_fields_are_those_the_parser_finds() {
    let data = exif_payload_with_make();
    let (expected, _) = exif::parse_exif(&data[6..]).unwrap();
    match interpret_segment(MetadataType::ExifXmp, &data) {
        Metadata::Exif(fields) => {
            assert_eq!(fields.len(), expected.len());
            for (f, e) in fields.iter().zip(expected.iter()) {
                assert_eq!(f.tag, e.tag);
                assert_eq!(f.ifd_num, e.ifd_num);
                assert_eq!(format!("{:?}", f.value), format!("{:?}", e.value));
            }
        }
        other => panic!("unexpected {:?}", other),
    }
}

#[test]
fn reading_markers_twice_gives_the_same_list() {
    let mut markers = MarkerList::new();
    markers.push(0xFE, b"c".to_vec());
    markers.push(0xE2, vec![1]);
    let first: Vec<(MetadataType, Vec<u8>)> =
        markers.raw_metadata().into_iter().map(|(t, d)| (t, d.to_vec())).collect();
    let second: Vec<(MetadataType, Vec<u8>)> =
        markers.raw_metadata().into_iter().map(|(t, d)| (t, d.to_vec())).collect();
    assert_eq!(first, second);
    assert_eq!(first, vec![(MetadataType::Comment, b"c".to_vec()), (MetadataType::Icc, vec![1])]);
}

#[test]
fn xmp_segment_is_kept_as_bytes() {
    let data = b"http://ns.adobe.com/xap/1.0/\0<x:xmpmeta/>".to_vec();
    match interpret_segment(MetadataType::ExifXmp, &data) {
        Metadata::Unsupported(t, v) => {
            assert_eq!(t, MetadataType::ExifXmp);
            assert_eq!(v, data);
        }
        other => panic!("unexpected {:?}", other),
    }
}

#[test]
fn other_segments_are_kept_as_bytes() {
    for t in [MetadataType::Icc, MetadataType::Iptc, MetadataType::Unknown] {
        match interpret_segment(t, &[1, 2, 3]) {
            Metadata::Unsupported(t2, v) => {
                assert_eq!(t2, t);
                assert_eq!(v, vec![1, 2, 3]);
            }
            other => panic!("unexpected {:?}", other),
        }
    }
}

#[test]
fn segments_are_interpreted_in_order() {
    let raw: Vec<(MetadataType, &[u8])> = vec![
        (MetadataType::Icc, &[9u8, 8][..]),
        (MetadataType::Comment, &b"hi"[..]),
    ];
    let res = interpret_segments(&raw);
    assert_eq!(res.len(), 2);
    assert!(matches!(&res[0], Metadata::Unsupported(MetadataType::Icc, v) if v == &vec![9u8, 8]));
    assert!(matches!(&res[1], Metadata::Comment(s) if s == "hi"));
}

#[test]
fn marker_list_reports_and_parses_its_markers() {
    let mut markers = MarkerList::new();
    markers.push(0xFE, b"Created with GIMP".to_vec());
    markers.push(0xE1, exif_payload_with_make());
    markers.push(0xE2, vec![7, 7]);
    markers.push(0xED, vec![5]);
    markers.push(0xE5, vec![4]);
    assert_eq!(markers.len(), 5);
    {
        let raw = markers.raw_metadata();
        assert_eq!(raw.len(), 5);
        assert_eq!(raw.first().unwrap(), &(MetadataType::Comment, &b"Created with GIMP"[..]));
        assert_eq!(raw[1].0, MetadataType::ExifXmp);
        assert_eq!(raw[2], (MetadataType::Icc, &[7u8, 7][..]));
        assert_eq!(raw[3], (MetadataType::Iptc, &[5u8][..]));
        assert_eq!(raw[4], (MetadataType::Unknown, &[4u8][..]));
    }
    let parsed = markers.parsed_metadata();
    assert_eq!(parsed.len(), 5);
    assert!(matches!(&parsed[0], Metadata::Comment(s) if s == "Created with GIMP"));
    assert!(matches!(&parsed[1], Metadata::Exif(f) if f.len() == 1));
    assert!(matches!(&parsed[2], Metadata::Unsupported(MetadataType::Icc, v) if v == &vec![7u8, 7]));
    assert!(matches!(&parsed[3], Metadata::Unsupported(MetadataType::Iptc, _)));
    assert!(matches!(&parsed[4], Metadata::Unsupported(MetadataType::Unknown, _)));
}

#[test]
fn short_exif_segment_is_kept_as_bytes() {
    let raw: Vec<(MetadataType, &[u8])> = vec![(MetadataType::ExifXmp, &b"Exi"[..])];
    let res = interpret_segments(&raw);
    assert_eq!(res.len(), 1);
    assert!(matches!(&res[0], Metadata::Unsupported(MetadataType::ExifXmp, v) if v == &b"Exi".to_vec()));
}

struct FixedSegments {
    segments: Vec<(MetadataType, Vec<u8>)>,
}

impl MetadataDecoder for FixedSegments {
    fn raw_metadata(&mut self) -> Vec<(MetadataType, &[u8])> {
        self.segments.iter().map(|(t, d)| (*t, d.as_slice())).collect()
    }
}

#[test]
fn decoder_of_a_user_parses_through_the_default_method() {
    let mut d = FixedSegments { segments: vec![(MetadataType::Comment, b"x".to_vec())] };
    let parsed = d.parsed_metadata();
    assert_eq!(parsed.len(), 1);
    assert!(matches!(&parsed[0], Metadata::Comment(s) if s == "x"));
}
