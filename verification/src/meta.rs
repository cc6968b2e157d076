use vstd::prelude::*;
use vstd::utf8::valid_utf8;
use vstd::utf8::decode_utf8;
use vstd::slice::slice_subrange;
use vstd::slice::slice_to_vec;

verus! {

/// The kinds of metadata segments that a decoder reports.
#[derive(Debug, Clone, Copy, PartialEq, Eq, Structural)]
pub enum MetadataType {
    Comment,
    ExifXmp,
    Iptc,
    Icc,
    Unknown,
}

#[verifier::external_type_specification]
#[verifier::external_body]
pub struct ExExifField(exif::Field);

/// A metadata segment after interpretation.
#[derive(Debug)]
pub enum Metadata {
    /// A comment segment, decoded as UTF-8 with invalid sequences replaced.
    Comment(String),
    /// The attributes of an Exif segment.
    Exif(Vec<exif::Field>),
    /// A segment that is kept as raw bytes.
    Unsupported(MetadataType, Vec<u8>),
    /// An Exif segment whose attributes could not be parsed.
    DecodingError,
}

/// The six bytes that open an Exif segment: `Exif` and two zero bytes.
pub open spec fn exif_header() -> Seq<u8> {
    seq![0x45u8, 0x78u8, 0x69u8, 0x66u8, 0x00u8, 0x00u8]
}

/// The text that `String::from_utf8_lossy` makes of the given bytes.
pub uninterp spec fn utf8_lossy(bytes: Seq<u8>) -> Seq<char>;

/// The fields that `exif::parse_exif` finds in the given TIFF data, or `None`
/// where it rejects the data.
pub uninterp spec fn parsed_exif(data: Seq<u8>) -> Option<Seq<exif::Field>>;

/// Whether the data holds at least a TIFF header (eight bytes) and opens with one
/// of the two TIFF signatures (`MM` then 0x002A, or `II` then 0x2A00).
pub open spec fn has_tiff_signature(data: Seq<u8>) -> bool {
    data.len() >= 8 && (data.take(4) == seq![0x4du8, 0x4du8, 0x00u8, 0x2au8] || data.take(4)
        == seq![0x49u8, 0x49u8, 0x2au8, 0x00u8])
}

/// Calls `String::from_utf8_lossy` and takes the owned text.
/// Its documentation promises that valid UTF-8 is decoded as it stands; for invalid
/// input the result is only named (`utf8_lossy`), not described.
#[verifier::external_body]
fn lossy_utf8_string(bytes: &[u8]) -> (s: String)
    ensures
        s@ == utf8_lossy(bytes@),
        valid_utf8(bytes@) ==> s@ == decode_utf8(bytes@),
{
    String::from_utf8_lossy(bytes).into_owned()
}

/// Calls `exif::parse_exif` and keeps the parsed fields on success.
/// Claimed: the outcome, and the fields on success, are a function of the bytes
/// alone (`parsed_exif`), and the source rejects data shorter than a TIFF header or
/// without a TIFF signature. What the fields hold is an opaque outside type, so
/// nothing more is stated of them.
#[verifier::external_body]
fn parse_exif_fields(data: &[u8]) -> (res: Option<Vec<exif::Field>>)
    ensures
        res is Some <==> parsed_exif(data@) is Some,
        res matches Some(f) ==> parsed_exif(data@) == Some(f@),
        res is Some ==> has_tiff_signature(data@),
{
    match exif::parse_exif(data) {
        Ok((fields, _)) => Some(fields),
        Err(_) => None,
    }
}

/// Whether `m` is what a segment of kind `typ` holding `data` is interpreted as.
pub open spec fn interprets(typ: MetadataType, data: Seq<u8>, m: Metadata) -> bool {
    match typ {
        MetadataType::Comment => m matches Metadata::Comment(s) && s@ == utf8_lossy(data) && (
        valid_utf8(data) ==> s@ == decode_utf8(data)),
        MetadataType::ExifXmp => if data.take(6) == exif_header() {
            match parsed_exif(data.skip(6)) {
                Some(fields) => m matches Metadata::Exif(f) && f@ == fields && has_tiff_signature(
                    data.skip(6),
                ),
                None => m is DecodingError,
            }
        } else {
            m matches Metadata::Unsupported(t, v) && t == typ && v@ == data
        },
        _ => m matches Metadata::Unsupported(t, v) && t == typ && v@ == data,
    }
}

/// What each kind of segment becomes: a comment becomes its text (the bytes
/// themselves where they are valid UTF-8); an Exif segment that the parser accepts
/// becomes exactly the parser's fields, all of them in the parser's order, one that
/// it rejects a decoding error, and an APP1 segment without the Exif header (XMP)
/// is kept whole; segments of every other kind are kept whole with their kind.
pub proof fn lemma_segment_interpretation_by_kind(typ: MetadataType, data: Seq<u8>, m: Metadata)
    requires
        interpretable(typ, data),
        interprets(typ, data, m),
    ensures
        typ == MetadataType::Comment ==> (m matches Metadata::Comment(s) && s@ == utf8_lossy(data)
            && (valid_utf8(data) ==> s@ == decode_utf8(data))),
        typ == MetadataType::ExifXmp && data.take(6) == exif_header() && parsed_exif(data.skip(6)) is Some
            ==> (m matches Metadata::Exif(f) && f@.len() == parsed_exif(data.skip(6))->0.len() && (
        forall|k: int| 0 <= k < f@.len() ==> #[trigger] f@[k] == parsed_exif(data.skip(6))->0[k])),
        typ == MetadataType::ExifXmp && data.take(6) == exif_header() && parsed_exif(data.skip(6)) is None
            ==> m is DecodingError,
        typ == MetadataType::ExifXmp && data.take(6) != exif_header() ==> (m matches Metadata::Unsupported(
            t,
            v,
        ) && t == typ && v@.len() == data.len() && v@ == data),
        typ != MetadataType::Comment && typ != MetadataType::ExifXmp ==> (
        m matches Metadata::Unsupported(t, v) && t == typ && v@.len() == data.len() && v@ == data),
{
}

/// A segment that the interpretation can take: an Exif/XMP segment must hold
/// at least the six bytes of the Exif header.
pub open spec fn interpretable(typ: MetadataType, data: Seq<u8>) -> bool {
    typ == MetadataType::ExifXmp ==> data.len() >= 6
}

/// Whether the six first bytes of `data` are the Exif header.
fn starts_with_exif_header(data: &[u8]) -> (b: bool)
    requires
        data@.len() >= 6,
    ensures
        b == (data@.take(6) == exif_header()),
{
    let b = data[0] == 0x45u8 && data[1] == 0x78u8 && data[2] == 0x69u8 && data[3] == 0x66u8
        && data[4] == 0x00u8 && data[5] == 0x00u8;
    assert(b ==> data@.take(6) =~= exif_header());
    assert(data@.take(6) == exif_header() ==> b) by {
        if data@.take(6) == exif_header() {
            assert(data@.take(6)[0] == data@[0]);
            assert(data@.take(6)[1] == data@[1]);
            assert(data@.take(6)[2] == data@[2]);
            assert(data@.take(6)[3] == data@[3]);
            assert(data@.take(6)[4] == data@[4]);
            assert(data@.take(6)[5] == data@[5]);
        }
    }
    b
}

/// Interprets one raw metadata segment: comments are decoded as text, Exif segments
/// are parsed, everything else is kept as bytes.
pub fn interpret_segment(typ: MetadataType, data: &[u8]) -> (m: Metadata)
    requires
        interpretable(typ, data@),
    ensures
        interprets(typ, data@, m),
{
    match typ {
        MetadataType::Comment => Metadata::Comment(lossy_utf8_string(data)),
        MetadataType::ExifXmp => {
            if starts_with_exif_header(data) {
                let rest = slice_subrange(data, 6, data.len());
                assert(rest@ == data@.skip(6));
                match parse_exif_fields(rest) {
                    Some(fields) => Metadata::Exif(fields),
                    None => Metadata::DecodingError,
                }
            } else {
                Metadata::Unsupported(typ, slice_to_vec(data))
            }
        },
        _ => Metadata::Unsupported(typ, slice_to_vec(data)),
    }
}

/// What a segment becomes in a list of interpreted segments: its interpretation
/// where it has one; an Exif/XMP segment too short to hold the Exif header (where
/// slicing off the header would run past its end) is kept as bytes.
pub open spec fn interprets_or_keeps(typ: MetadataType, data: Seq<u8>, m: Metadata) -> bool {
    if interpretable(typ, data) {
        interprets(typ, data, m)
    } else {
        m matches Metadata::Unsupported(t, v) && t == typ && v@ == data
    }
}

/// The view of raw segments as kinds and payload bytes.
pub open spec fn segments_view<'a>(raw: Seq<(MetadataType, &'a [u8])>) -> Seq<(MetadataType, Seq<u8>)> {
    raw.map_values(|e: (MetadataType, &'a [u8])| (e.0, e.1@))
}

/// Whether `res` holds the segments one by one, in order, each as
/// `interprets_or_keeps` says.
pub open spec fn interprets_all(segments: Seq<(MetadataType, Seq<u8>)>, res: Seq<Metadata>) -> bool {
    &&& res.len() == segments.len()
    &&& forall|i: int|
        0 <= i < segments.len() ==> interprets_or_keeps(#[trigger] segments[i].0, segments[i].1, res[i])
}

/// Interprets each raw segment in turn, keeping their order.
pub fn interpret_segments(raw: &Vec<(MetadataType, &[u8])>) -> (res: Vec<Metadata>)
    ensures
        interprets_all(segments_view(raw@), res@),
{
    let mut res: Vec<Metadata> = Vec::new();
    let mut i: usize = 0;
    while i < raw.len()
        invariant
            i <= raw@.len(),
            res@.len() == i,
            forall|j: int|
                0 <= j < i ==> interprets_or_keeps(#[trigger] raw@[j].0, raw@[j].1@, res@[j]),
        decreases raw@.len() - i,
    {
        let typ = raw[i].0;
        let data = raw[i].1;
        let m = if typ == MetadataType::ExifXmp && data.len() < 6 {
            Metadata::Unsupported(typ, slice_to_vec(data))
        } else {
            interpret_segment(typ, data)
        };
        res.push(m);
        i = i + 1;
    }
    assert forall|j: int| 0 <= j < raw@.len() implies interprets_or_keeps(
        #[trigger] segments_view(raw@)[j].0,
        segments_view(raw@)[j].1,
        res@[j],
    ) by {
        assert(segments_view(raw@)[j] == (raw@[j].0, raw@[j].1@));
    }
    res
}

/// A source of metadata segments, such as a decoder that has read an image header.
///
/// An implementation that describes its segments sets `describes_segments` and says
/// in `segments` which segments `raw_metadata` reports; one that keeps the defaults
/// (as code outside Verus does) makes no such claim.
pub trait MetadataDecoder {
    /// Whether `segments` describes what `raw_metadata` reports.
    open spec fn describes_segments(&self) -> bool {
        false
    }

    /// The segments that the next call of `raw_metadata` reports, in order, where
    /// `describes_segments` holds.
    open spec fn segments(&self) -> Seq<(MetadataType, Seq<u8>)> {
        Seq::empty()
    }

    /// The metadata segments, each with its kind and payload.
    fn raw_metadata(&mut self) -> (res: Vec<(MetadataType, &[u8])>)
        ensures
            old(self).describes_segments() ==> segments_view(res@) == old(self).segments(),
    ;

    /// The metadata segments that `raw_metadata` reports, each interpreted
    /// (see `interpret_segment` and `interprets_or_keeps`), in order.
    fn parsed_metadata(&mut self) -> (res: Vec<Metadata>)
        ensures
            exists|raw: Seq<(MetadataType, Seq<u8>)>| interprets_all(raw, res@),
            old(self).describes_segments() ==> interprets_all(old(self).segments(), res@),
    {
        let raw = self.raw_metadata();
        interpret_segments(&raw)
    }
}

} // verus!
