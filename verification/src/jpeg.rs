use vstd::prelude::*;
use crate::meta::MetadataType;
use crate::meta::MetadataDecoder;
use crate::meta::segments_view;
use crate::meta::Metadata;
use crate::meta::interprets_all;
use crate::meta::interpret_segments;

verus! {

// ---------------------------------------------------------------------------
// Markers kept while reading a header
// ---------------------------------------------------------------------------

/// Marker code of a JPEG comment segment (COM).
pub const JPEG_COM: u8 = 0xFEu8;

/// Marker code of the first application segment (APP0); APPn is `JPEG_APP0 + n`.
pub const JPEG_APP0: u8 = 0xE0u8;

/// Largest payload kept of a saved marker, in bytes.
pub const MARKER_LENGTH_LIMIT: u32 = 0xffffu32;

/// The kind of metadata that a marker code carries: COM is a comment, APP1
/// holds Exif or XMP, APP2 an ICC profile, APP13 IPTC data.
pub open spec fn marker_kind(code: u8) -> MetadataType {
    if code == JPEG_COM {
        MetadataType::Comment
    } else if code == JPEG_APP0 + 1 {
        MetadataType::ExifXmp
    } else if code == JPEG_APP0 + 2 {
        MetadataType::Icc
    } else if code == JPEG_APP0 + 13 {
        MetadataType::Iptc
    } else {
        MetadataType::Unknown
    }
}

/// The marker codes whose payload the decoder asks to keep, in the order it asks.
pub open spec fn saved_codes() -> Seq<u8> {
    seq![JPEG_COM, (JPEG_APP0 + 1) as u8, (JPEG_APP0 + 2) as u8, (JPEG_APP0 + 13) as u8]
}

/// Classifies a marker code.
pub fn metadata_type_for_marker(code: u8) -> (t: MetadataType)
    ensures
        t == marker_kind(code),
{
    if code == JPEG_COM {
        MetadataType::Comment
    } else if code == JPEG_APP0 + 1 {
        MetadataType::ExifXmp
    } else if code == JPEG_APP0 + 2 {
        MetadataType::Icc
    } else if code == JPEG_APP0 + 13 {
        MetadataType::Iptc
    } else {
        MetadataType::Unknown
    }
}

/// The marker codes to keep while reading a header, each with at most
/// `MARKER_LENGTH_LIMIT` bytes of payload.
pub fn saved_marker_codes() -> (codes: Vec<u8>)
    ensures
        codes@ == saved_codes(),
{
    let mut codes: Vec<u8> = Vec::new();
    codes.push(JPEG_COM);
    codes.push(JPEG_APP0 + 1);
    codes.push(JPEG_APP0 + 2);
    codes.push(JPEG_APP0 + 13);
    assert(codes@ =~= saved_codes());
    codes
}

/// The markers that the decoder keeps are exactly those that carry a known kind
/// of metadata, and no two of them carry the same kind.
pub proof fn lemma_saved_markers_are_known_kinds(code: u8, other: u8)
    ensures
        saved_codes().contains(code) <==> marker_kind(code) != MetadataType::Unknown,
        saved_codes().contains(code) && saved_codes().contains(other) && code != other
            ==> marker_kind(code) != marker_kind(other),
{
    let s = saved_codes();
    assert(s[0] == JPEG_COM);
    assert(s[1] == 0xE1u8);
    assert(s[2] == 0xE2u8);
    assert(s[3] == 0xEDu8);
    if marker_kind(code) != MetadataType::Unknown {
        if code == JPEG_COM {
            assert(s[0] == code);
        } else if code == 0xE1u8 {
            assert(s[1] == code);
        } else if code == 0xE2u8 {
            assert(s[2] == code);
        } else {
            assert(s[3] == code);
        }
    }
}

// ---------------------------------------------------------------------------
// The saved markers of a header
// ---------------------------------------------------------------------------

/// One saved marker: its code and the payload kept of it.
pub struct SavedMarker {
    pub marker: u8,
    pub data: Vec<u8>,
}

/// The markers kept while reading a header, in the order they occur in the file.
pub struct MarkerList {
    markers: Vec<SavedMarker>,
}

impl View for MarkerList {
    type V = Seq<(u8, Seq<u8>)>;

    closed spec fn view(&self) -> Seq<(u8, Seq<u8>)> {
        self.markers@.map_values(|m: SavedMarker| (m.marker, m.data@))
    }
}

impl MarkerList {
    /// An empty list.
    pub fn new() -> (l: MarkerList)
        ensures
            l@ == Seq::<(u8, Seq<u8>)>::empty(),
    {
        let l = MarkerList { markers: Vec::new() };
        assert(l@ =~= Seq::<(u8, Seq<u8>)>::empty());
        l
    }

    /// Appends a marker after those already kept.
    pub fn push(&mut self, marker: u8, data: Vec<u8>)
        ensures
            final(self)@ == old(self)@.push((marker, data@)),
    {
        let ghost d = data@;
        self.markers.push(SavedMarker { marker, data });
        assert(self@ =~= old(self)@.push((marker, d)));
    }

    /// The number of markers kept.
    pub fn len(&self) -> (n: usize)
        ensures
            n == self@.len(),
    {
        self.markers.len()
    }
}

/// Each saved marker as its kind and payload, in order.
fn classify_markers<'a>(markers: &'a Vec<SavedMarker>) -> (res: Vec<(MetadataType, &'a [u8])>)
    ensures
        segments_view(res@) == markers@.map_values(|m: SavedMarker| (m.marker, m.data@)).map_values(
            |e: (u8, Seq<u8>)| (marker_kind(e.0), e.1),
        ),
{
    let ghost target = markers@.map_values(|m: SavedMarker| (m.marker, m.data@)).map_values(
        |e: (u8, Seq<u8>)| (marker_kind(e.0), e.1),
    );
    let mut res: Vec<(MetadataType, &'a [u8])> = Vec::new();
    let mut i: usize = 0;
    while i < markers.len()
        invariant
            i <= markers@.len(),
            target.len() == markers@.len(),
            target == markers@.map_values(|m: SavedMarker| (m.marker, m.data@)).map_values(
                |e: (u8, Seq<u8>)| (marker_kind(e.0), e.1),
            ),
            res@.len() == i,
            segments_view(res@) =~= target.take(i as int),
        decreases markers@.len() - i,
    {
        let m = &markers[i];
        let t = metadata_type_for_marker(m.marker);
        let d = m.data.as_slice();
        res.push((t, d));
        assert(target[i as int] == (marker_kind(markers@[i as int].marker), markers@[i as int].data@));
        assert(segments_view(res@)[i as int] == (t, d@));
        assert(segments_view(res@) =~= target.take(i + 1));
        i = i + 1;
    }
    assert(target.take(markers@.len() as int) =~= target);
    res
}

impl MarkerList {
    /// The segments that the list reports: each marker's kind and payload, in order.
    pub open spec fn reported_segments(&self) -> Seq<(MetadataType, Seq<u8>)> {
        self@.map_values(|e: (u8, Seq<u8>)| (marker_kind(e.0), e.1))
    }
}

impl MetadataDecoder for MarkerList {
    open spec fn describes_segments(&self) -> bool {
        true
    }

    open spec fn segments(&self) -> Seq<(MetadataType, Seq<u8>)> {
        self.reported_segments()
    }

    fn raw_metadata(&mut self) -> (res: Vec<(MetadataType, &[u8])>)
        ensures
            segments_view(res@) == old(self).reported_segments(),
            final(self)@ == old(self)@,
    {
        classify_markers(&self.markers)
    }

    fn parsed_metadata(&mut self) -> (res: Vec<Metadata>)
        ensures
            interprets_all(old(self).reported_segments(), res@),
            final(self)@ == old(self)@,
    {
        let raw = self.raw_metadata();
        interpret_segments(&raw)
    }
}


// ---------------------------------------------------------------------------
// Colour spaces and colour types
// ---------------------------------------------------------------------------

/// The colour spaces that libjpeg distinguishes.
#[derive(Debug, Clone, Copy, PartialEq, Eq, Structural)]
pub enum ColorSpace {
    Unknown,
    Grayscale,
    Rgb,
    YCbCr,
    Cmyk,
    Ycck,
    ExtRgb,
    ExtRgbx,
    ExtBgr,
    ExtBgrx,
    ExtXbgr,
    ExtXrgb,
    ExtRgba,
    ExtBgra,
    ExtAbgr,
    ExtArgb,
    Rgb565,
}

/// The pixel layouts of decoded images, each with its bits per channel.
#[derive(Debug, Clone, Copy, PartialEq, Eq, Structural)]
pub enum ColorType {
    Gray(u8),
    RGB(u8),
    Palette(u8),
    GrayA(u8),
    RGBA(u8),
}

/// The colour space that a decoder asks libjpeg to produce: grayscale stays
/// grayscale, everything else is converted to RGB.
pub open spec fn spec_output_color_space(jpeg_color_space: ColorSpace) -> ColorSpace {
    if jpeg_color_space == ColorSpace::Grayscale {
        ColorSpace::Grayscale
    } else {
        ColorSpace::Rgb
    }
}

/// The colour type that a decoder reports for an image stored in the given colour space.
pub open spec fn spec_decoded_color_type(jpeg_color_space: ColorSpace) -> ColorType {
    if jpeg_color_space == ColorSpace::Grayscale {
        ColorType::Gray(8)
    } else {
        ColorType::RGB(8)
    }
}

/// The number of channels of the colour spaces a decoder produces.
pub open spec fn output_channels(space: ColorSpace) -> int {
    if space == ColorSpace::Grayscale {
        1
    } else {
        3
    }
}

/// The colour space to decode into, given the colour space the image is stored in.
pub fn output_color_space(jpeg_color_space: ColorSpace) -> (out: ColorSpace)
    ensures
        out == spec_output_color_space(jpeg_color_space),
{
    match jpeg_color_space {
        ColorSpace::Grayscale => ColorSpace::Grayscale,
        _ => ColorSpace::Rgb,
    }
}

/// The colour type of the decoded image, given the colour space the image is stored in.
pub fn decoded_color_type(jpeg_color_space: ColorSpace) -> (c: ColorType)
    ensures
        c == spec_decoded_color_type(jpeg_color_space),
{
    match jpeg_color_space {
        ColorSpace::Grayscale => ColorType::Gray(8),
        _ => ColorType::RGB(8),
    }
}

// ---------------------------------------------------------------------------
// Decoding
// ---------------------------------------------------------------------------

/// Why decoding stopped.
#[derive(Debug, Clone, Copy, PartialEq, Eq, Structural)]
pub enum DecodeError {
    /// libjpeg delivered no further scanline.
    ImageEnd,
}

/// What libjpeg reports of an image once its header has been read.
#[derive(Debug, Clone, Copy, PartialEq, Eq, Structural)]
pub struct HeaderInfo {
    pub jpeg_color_space: ColorSpace,
    pub output_width: u32,
    pub output_height: u32,
    pub output_components: u32,
}

/// The number of bytes in one decoded row.
pub open spec fn spec_row_len(info: HeaderInfo) -> int {
    info.output_width * info.output_components
}

impl HeaderInfo {
    /// Width and height of the decoded image.
    pub fn dimensions(&self) -> (d: (u32, u32))
        ensures
            d == (self.output_width, self.output_height),
    {
        (self.output_width, self.output_height)
    }

    /// The colour type of the decoded image.
    pub fn color_type(&self) -> (c: ColorType)
        ensures
            c == spec_decoded_color_type(self.jpeg_color_space),
    {
        decoded_color_type(self.jpeg_color_space)
    }

    /// The number of bytes in one decoded row: width times the components that
    /// libjpeg reports (1 for grayscale and 3 for YCbCr or RGB images; libjpeg keeps
    /// CMYK and YCCK images at 4, as it cannot convert them to RGB).
    pub fn row_len(&self) -> (n: usize)
        requires
            spec_row_len(*self) <= usize::MAX,
        ensures
            n == spec_row_len(*self),
    {
        (self.output_width as usize) * (self.output_components as usize)
    }
}

/// One call that a decoder makes to libjpeg when it reads the image header.
#[derive(Debug, Clone, Copy, PartialEq, Eq, Structural)]
pub enum HeaderStep {
    /// Keep the payload of markers with this code, up to this many bytes.
    SaveMarkers(u8, u32),
    /// Read the header.
    ReadHeader,
    /// Start decompressing, which fixes the output colour space and components.
    StartDecompress,
}

/// The calls that read a header, in order: keep the markers of `saved_codes`, read
/// the header, start decompressing. The output colour space is recorded afterwards
/// (`HeaderState::record_header`): libjpeg converts to RGB only from YCbCr, RGB and
/// grayscale images, which it already decodes to RGB or grayscale by default, and it
/// stops with an error when asked to convert CMYK or YCCK to RGB before it starts.
pub open spec fn spec_header_steps() -> Seq<HeaderStep> {
    saved_codes().map_values(|c: u8| HeaderStep::SaveMarkers(c, MARKER_LENGTH_LIMIT)) + seq![
        HeaderStep::ReadHeader,
        HeaderStep::StartDecompress,
    ]
}

/// The calls that read a header, in order.
pub fn header_steps() -> (steps: Vec<HeaderStep>)
    ensures
        steps@ == spec_header_steps(),
{
    let codes = saved_marker_codes();
    let mut steps: Vec<HeaderStep> = Vec::new();
    let mut i: usize = 0;
    while i < codes.len()
        invariant
            i <= codes@.len(),
            codes@ == saved_codes(),
            steps@ =~= saved_codes().take(i as int).map_values(
                |c: u8| HeaderStep::SaveMarkers(c, MARKER_LENGTH_LIMIT),
            ),
        decreases codes@.len() - i,
    {
        steps.push(HeaderStep::SaveMarkers(codes[i], MARKER_LENGTH_LIMIT));
        assert(saved_codes().take(i + 1) =~= saved_codes().take(i as int).push(codes@[i as int]));
        i = i + 1;
    }
    assert(saved_codes().take(4) =~= saved_codes());
    steps.push(HeaderStep::ReadHeader);
    steps.push(HeaderStep::StartDecompress);
    assert(steps@ =~= spec_header_steps());
    steps
}

/// Whether a decoder has read the image header yet.
pub struct HeaderState {
    read: bool,
}

impl HeaderState {
    /// Whether the header has been read.
    pub closed spec fn is_read(&self) -> bool {
        self.read
    }

    /// The state of a decoder that has not read anything.
    pub fn new() -> (s: HeaderState)
        ensures
            !s.is_read(),
    {
        HeaderState { read: false }
    }

    /// Whether the header still has to be read.
    pub fn needs_header(&self) -> (b: bool)
        ensures
            b == !self.is_read(),
    {
        !self.read
    }

    /// Records that the header has been read from an image stored in
    /// `jpeg_color_space`, and returns the colour space to decode into.
    pub fn record_header(&mut self, jpeg_color_space: ColorSpace) -> (out: ColorSpace)
        requires
            !old(self).is_read(),
        ensures
            final(self).is_read(),
            out == spec_output_color_space(jpeg_color_space),
    {
        self.read = true;
        output_color_space(jpeg_color_space)
    }
}

/// The outcome of asking libjpeg for one scanline: libjpeg reports how many lines it
/// delivered and the index of the next scanline.
pub fn scanline_result(lines_read: u32, output_scanline: u32) -> (r: Result<u32, DecodeError>)
    ensures
        lines_read == 1 ==> r == Ok::<u32, DecodeError>(output_scanline),
        lines_read != 1 ==> r == Err::<u32, DecodeError>(DecodeError::ImageEnd),
{
    if lines_read != 1 {
        Err(DecodeError::ImageEnd)
    } else {
        Ok(output_scanline)
    }
}

/// Whether libjpeg has scanlines left: the next scanline index is below the height.
pub fn more_scanlines(next_scanline: u32, height: u32) -> (b: bool)
    ensures
        b == (next_scanline < height),
{
    next_scanline < height
}

/// The decoded image grows row by row while libjpeg delivers scanlines.
pub struct ScanlineBuffer {
    stride: usize,
    data: Vec<u8>,
    rows: Ghost<Seq<Seq<u8>>>,
}

impl ScanlineBuffer {
    /// The number of bytes in each row.
    pub closed spec fn stride(&self) -> nat {
        self.stride as nat
    }

    /// The rows taken so far, in order.
    pub closed spec fn rows(&self) -> Seq<Seq<u8>> {
        self.rows@
    }

    /// The bytes of the image so far.
    pub closed spec fn pixels(&self) -> Seq<u8> {
        self.data@
    }

    /// The pixels are the rows one after another, and every row is `stride` bytes long.
    pub closed spec fn wf(&self) -> bool {
        &&& self.data@ == self.rows@.flatten()
        &&& forall|r: int| 0 <= r < self.rows@.len() ==> (#[trigger] self.rows@[r]).len() == self.stride
    }

    /// An empty buffer for rows of `stride` bytes.
    pub fn new(stride: usize) -> (b: ScanlineBuffer)
        ensures
            b.wf(),
            b.stride() == stride,
            b.rows() == Seq::<Seq<u8>>::empty(),
            b.pixels() == Seq::<u8>::empty(),
    {
        let b = ScanlineBuffer { stride, data: Vec::new(), rows: Ghost(Seq::empty()) };
        assert(b.rows@.flatten() =~= Seq::<u8>::empty());
        b
    }

    /// An empty buffer for rows of `stride` bytes, with room reserved for `height` rows.
    pub fn with_capacity(stride: usize, height: u32) -> (b: ScanlineBuffer)
        requires
            stride * height <= isize::MAX,
        ensures
            b.wf(),
            b.stride() == stride,
            b.rows() == Seq::<Seq<u8>>::empty(),
            b.pixels() == Seq::<u8>::empty(),
    {
        let b = ScanlineBuffer {
            stride,
            data: Vec::with_capacity(stride * (height as usize)),
            rows: Ghost(Seq::empty()),
        };
        assert(b.rows@.flatten() =~= Seq::<u8>::empty());
        b
    }

    /// The number of bytes in each row.
    pub fn row_len(&self) -> (n: usize)
        ensures
            n == self.stride(),
    {
        self.stride
    }

    /// Takes the outcome of one request for a scanline: when libjpeg delivered one
    /// line, `row` holds it and is appended; otherwise decoding has ended.
    pub fn take_row(&mut self, lines_read: u32, row: &[u8]) -> (r: Result<(), DecodeError>)
        requires
            old(self).wf(),
            lines_read == 1 ==> row@.len() == old(self).stride(),
        ensures
            final(self).wf(),
            final(self).stride() == old(self).stride(),
            lines_read != 1 ==> r == Err::<(), DecodeError>(DecodeError::ImageEnd) && final(self).rows()
                == old(self).rows(),
            lines_read == 1 ==> r is Ok && final(self).rows() == old(self).rows().push(row@),
            final(self).pixels() == final(self).rows().flatten(),
    {
        if lines_read != 1 {
            return Err(DecodeError::ImageEnd);
        }
        let ghost old_rows = self.rows@;
        let mut i: usize = 0;
        while i < row.len()
            invariant
                i <= row@.len(),
                self.data@ == old_rows.flatten() + row@.take(i as int),
                self.stride == old(self).stride,
                self.rows@ == old_rows,
            decreases row@.len() - i,
        {
            self.data.push(row[i]);
            assert(row@.take(i + 1) =~= row@.take(i as int).push(row@[i as int]));
            i = i + 1;
        }
        assert(row@.take(row@.len() as int) =~= row@);
        proof {
            old_rows.lemma_flatten_push(row@);  
            self.rows@ = old_rows.push(row@);
        }
        Ok(())
    }

    /// The image holds one row of `stride` bytes per scanline taken, and row `r` of
    /// the image is the `r`-th scanline that libjpeg delivered.
    pub proof fn lemma_pixel_rows(&self, r: int)
        requires
            self.wf(),
            0 <= r < self.rows().len(),
        ensures
            self.pixels().len() == self.rows().len() * self.stride(),
            self.pixels().subrange(r * self.stride(), r * self.stride() + self.stride()) == self.rows()[r],
    {
        lemma_flatten_uniform_len(self.rows@, self.stride as nat);
        lemma_flatten_uniform_row(self.rows@, self.stride as nat, r);
    }

    /// The decoded image: all rows taken, one after another.
    pub fn into_pixels(self) -> (p: Vec<u8>)
        requires
            self.wf(),
        ensures
            p@ == self.rows().flatten(),
            p@ == self.pixels(),
    {
        self.data
    }
}


// ---------------------------------------------------------------------------
// Encoding
// ---------------------------------------------------------------------------

/// The compression settings of an encoder.
#[derive(Debug, Clone, Copy, PartialEq, Eq, Structural)]
pub struct EncoderSettings {
    /// JPEG quality, 0 to 100.
    pub quality: u8,
    /// Optimize progressive scans (and encode progressively).
    pub jpgcrush: bool,
    /// Trellis quantization.
    pub trellis: bool,
    /// Trellis quantization of DC coefficients.
    pub trellis_dc: bool,
    /// Optimize runs of end-of-block codes.
    pub trellis_eob_opt: bool,
    /// Optimize quantization tables in the trellis loop.
    pub trellis_q_opt: bool,
    /// Use scans in trellis optimization.
    pub trellis_scans: bool,
    /// Reduce ringing at edges on white backgrounds.
    pub deringing: bool,
}

impl EncoderSettings {
    /// The settings an encoder starts with: quality 85 and every optimization on.
    pub fn new() -> (s: EncoderSettings)
        ensures
            s.quality == 85,
            s.jpgcrush,
            s.trellis,
            s.trellis_dc,
            s.trellis_eob_opt,
            s.trellis_q_opt,
            s.trellis_scans,
            s.deringing,
    {
        EncoderSettings {
            quality: 85,
            jpgcrush: true,
            trellis: true,
            trellis_dc: true,
            trellis_eob_opt: true,
            trellis_q_opt: true,
            trellis_scans: true,
            deringing: true,
        }
    }
}

/// The boolean parameters of the MozJPEG compressor that the settings control.
#[derive(Debug, Clone, Copy, PartialEq, Eq, Structural)]
pub enum BoolParam {
    OptimizeScans,
    TrellisQuant,
    TrellisQuantDc,
    TrellisEobOpt,
    TrellisQOpt,
    UseScansInTrellis,
    OvershootDeringing,
}

/// One step of configuring the compressor, after its defaults are set.
#[derive(Debug, Clone, Copy, PartialEq, Eq, Structural)]
pub enum EncodeStep {
    /// Set a boolean parameter.
    SetBool(BoolParam, bool),
    /// Switch to a simple progressive scan script.
    SimpleProgression,
    /// Set the quality (forcing baseline-compatible tables).
    SetQuality(i32),
}

/// How the pixels handed to the encoder are laid out.
#[derive(Debug, Clone, Copy, PartialEq, Eq, Structural)]
pub struct InputFormat {
    /// Bytes per pixel.
    pub components: i32,
    /// The colour space of the pixels.
    pub color_space: ColorSpace,
}

/// The input layout for a colour type: `n`-bit gray, RGB and RGBA are taken with
/// `n / 8` bytes per channel; other colour types cannot be encoded.
pub open spec fn spec_input_format(c: ColorType) -> Option<InputFormat> {
    match c {
        ColorType::Gray(n) => Some(InputFormat { components: (n / 8) as i32, color_space: ColorSpace::Grayscale }),
        ColorType::RGB(n) => Some(InputFormat { components: (n / 8 * 3) as i32, color_space: ColorSpace::Rgb }),
        ColorType::RGBA(n) => Some(InputFormat { components: (n / 8 * 4) as i32, color_space: ColorSpace::ExtRgba }),
        _ => None,
    }
}

/// The configuration steps for the given settings, in the order they are applied:
/// scan optimization (followed by a progressive script when it is on), the trellis
/// and deringing parameters, then the quality.
pub open spec fn spec_encode_steps(s: EncoderSettings) -> Seq<EncodeStep> {
    seq![EncodeStep::SetBool(BoolParam::OptimizeScans, s.jpgcrush)]
    + (if s.jpgcrush { seq![EncodeStep::SimpleProgression] } else { Seq::empty() })
    + seq![
        EncodeStep::SetBool(BoolParam::TrellisQuant, s.trellis),
        EncodeStep::SetBool(BoolParam::TrellisQuantDc, s.trellis_dc),
        EncodeStep::SetBool(BoolParam::TrellisEobOpt, s.trellis_eob_opt),
        EncodeStep::SetBool(BoolParam::TrellisQOpt, s.trellis_q_opt),
        EncodeStep::SetBool(BoolParam::UseScansInTrellis, s.trellis_scans),
        EncodeStep::SetBool(BoolParam::OvershootDeringing, s.deringing),
        EncodeStep::SetQuality(s.quality as i32),
    ]
}

/// The input layout for a colour type, or `None` where it cannot be encoded.
pub fn input_format(c: ColorType) -> (f: Option<InputFormat>)
    ensures
        f == spec_input_format(c),
{
    match c {
        ColorType::Gray(n) => Some(InputFormat { components: (n as i32) / 8, color_space: ColorSpace::Grayscale }),
        ColorType::RGB(n) => Some(InputFormat { components: (n as i32) / 8 * 3, color_space: ColorSpace::Rgb }),
        ColorType::RGBA(n) => Some(InputFormat { components: (n as i32) / 8 * 4, color_space: ColorSpace::ExtRgba }),
        _ => None,
    }
}

/// The configuration steps for the given settings.
pub fn encode_steps(s: &EncoderSettings) -> (steps: Vec<EncodeStep>)
    ensures
        steps@ == spec_encode_steps(*s),
{
    let mut steps: Vec<EncodeStep> = Vec::new();
    steps.push(EncodeStep::SetBool(BoolParam::OptimizeScans, s.jpgcrush));
    if s.jpgcrush {
        steps.push(EncodeStep::SimpleProgression);
    }
    steps.push(EncodeStep::SetBool(BoolParam::TrellisQuant, s.trellis));
    steps.push(EncodeStep::SetBool(BoolParam::TrellisQuantDc, s.trellis_dc));
    steps.push(EncodeStep::SetBool(BoolParam::TrellisEobOpt, s.trellis_eob_opt));
    steps.push(EncodeStep::SetBool(BoolParam::TrellisQOpt, s.trellis_q_opt));
    steps.push(EncodeStep::SetBool(BoolParam::UseScansInTrellis, s.trellis_scans));
    steps.push(EncodeStep::SetBool(BoolParam::OvershootDeringing, s.deringing));
    steps.push(EncodeStep::SetQuality(s.quality as i32));
    assert(steps@ =~= spec_encode_steps(*s));
    steps
}

/// Everything the compressor is told about an image before its scanlines are written.
#[derive(Debug)]
pub struct EncodePlan {
    pub image_width: u32,
    pub image_height: u32,
    pub format: InputFormat,
    pub steps: Vec<EncodeStep>,
}

/// The number of bytes in one input row: width times bytes per pixel.
pub open spec fn spec_stride(width: u32, format: InputFormat) -> int {
    width * format.components
}

/// Plans the encoding of a `width` by `height` image of colour type `c`, or returns
/// `None` when the colour type cannot be encoded.
pub fn plan_encode(settings: &EncoderSettings, width: u32, height: u32, c: ColorType) -> (plan: Option<EncodePlan>)
    ensures
        plan is None <==> spec_input_format(c) is None,
        plan matches Some(p) ==> {
            &&& p.image_width == width
            &&& p.image_height == height
            &&& Some(p.format) == spec_input_format(c)
            &&& p.steps@ == spec_encode_steps(*settings)
        },
{
    match input_format(c) {
        None => None,
        Some(format) => Some(EncodePlan {
            image_width: width,
            image_height: height,
            format,
            steps: encode_steps(settings),
        }),
    }
}

/// The number of bytes in one input row of a plan.
pub fn plan_stride(plan: &EncodePlan) -> (n: u64)
    requires
        plan.format.components >= 0,
    ensures
        n == spec_stride(plan.image_width, plan.format),
{
    assert(plan.image_width * plan.format.components <= 0xffff_ffff * 0x7fff_ffff) by (nonlinear_arith)
        requires
            plan.image_width <= 0xffff_ffff,
            0 <= plan.format.components <= 0x7fff_ffff,
    ;
    (plan.image_width as u64) * (plan.format.components as u64)
}

/// Whether `image_len` bytes hold `height` rows of `stride` bytes.
pub fn holds_rows(image_len: usize, stride: u64, height: u32) -> (b: bool)
    ensures
        b == (height * stride <= image_len),
{
    match stride.checked_mul(height as u64) {
        None => {
            assert(height * stride > u64::MAX) by (nonlinear_arith)
                requires
                    stride * height > u64::MAX,
            ;
            false
        },
        Some(total) => total <= image_len as u64,
    }
}

/// Row `row` of an image made of rows of `stride` bytes.
pub fn scanline<'a>(image: &'a [u8], stride: u64, row: u32) -> (line: &'a [u8])
    requires
        (row + 1) * stride <= image@.len(),
    ensures
        line@ == image@.subrange(row * stride, row * stride + stride),
{
    assert(row * stride + stride == (row + 1) * stride) by (nonlinear_arith);
    assert(0 <= row * stride) by (nonlinear_arith);
    let n = image.len();
    assert(n as int <= u64::MAX);
    let start = (row as u64) * stride;
    let end = start + stride;
    vstd::slice::slice_subrange(image, start as usize, end as usize)
}

/// The colour type that a decoder reports is gray exactly when it decodes into
/// grayscale, and it can always be encoded again, as pixels of the colour space the
/// decoder produced and with as many bytes per pixel as that colour space has channels.
pub proof fn lemma_decoded_color_type_reencodes(jpeg_color_space: ColorSpace)
    ensures
        (spec_decoded_color_type(jpeg_color_space) is Gray) <==> spec_output_color_space(
            jpeg_color_space,
        ) == ColorSpace::Grayscale,
        spec_input_format(spec_decoded_color_type(jpeg_color_space)) matches Some(f) && f.color_space
            == spec_output_color_space(jpeg_color_space) && f.components == output_channels(
            spec_output_color_space(jpeg_color_space),
        ),
{
}

/// Whether a step sets parameter `p`.
pub open spec fn sets_param(e: EncodeStep, p: BoolParam) -> bool {
    e matches EncodeStep::SetBool(q, _) && q == p
}

/// Progressive encoding is asked for exactly when scan optimization is on, the
/// quality comes last, and every boolean setting reaches its own compressor
/// parameter exactly once.
pub proof fn lemma_encode_steps_follow_settings(s: EncoderSettings, p: BoolParam)
    ensures
        spec_encode_steps(s).contains(EncodeStep::SimpleProgression) <==> s.jpgcrush,
        spec_encode_steps(s).last() == EncodeStep::SetQuality(s.quality as i32),
        spec_encode_steps(s).contains(EncodeStep::SetBool(p, setting_for(s, p))),
        forall|i: int, j: int|
            0 <= i < spec_encode_steps(s).len() && 0 <= j < spec_encode_steps(s).len()
                && sets_param(#[trigger] spec_encode_steps(s)[i], p) && sets_param(
                #[trigger] spec_encode_steps(s)[j],
                p,
            ) ==> i == j,
{
    let steps = spec_encode_steps(s);
    let rest = seq![
        EncodeStep::SetBool(BoolParam::TrellisQuant, s.trellis),
        EncodeStep::SetBool(BoolParam::TrellisQuantDc, s.trellis_dc),
        EncodeStep::SetBool(BoolParam::TrellisEobOpt, s.trellis_eob_opt),
        EncodeStep::SetBool(BoolParam::TrellisQOpt, s.trellis_q_opt),
        EncodeStep::SetBool(BoolParam::UseScansInTrellis, s.trellis_scans),
        EncodeStep::SetBool(BoolParam::OvershootDeringing, s.deringing),
        EncodeStep::SetQuality(s.quality as i32),
    ];
    let first = EncodeStep::SetBool(BoolParam::OptimizeScans, s.jpgcrush);
    let off: int = if s.jpgcrush { 2 } else { 1 };
    if s.jpgcrush {
        assert(steps =~= seq![first, EncodeStep::SimpleProgression] + rest);
    } else {
        assert(steps =~= seq![first] + rest);
    }
    assert(steps.len() == off + 7);
    assert(steps[0] == first);
    assert forall|k: int| 0 <= k < 7 implies #[trigger] steps[off + k] == rest[k] by {}
    if s.jpgcrush {
        assert(steps[1] == EncodeStep::SimpleProgression);
    } else {
        assert forall|k: int| 0 <= k < steps.len() implies #[trigger] steps[k] != EncodeStep::SimpleProgression by {
            if k > 0 {
                assert(steps[off + (k - off)] == rest[k - off]);
            }
        }
    }
    let k: int = match p {
        BoolParam::OptimizeScans => 0,
        BoolParam::TrellisQuant => off,
        BoolParam::TrellisQuantDc => off + 1,
        BoolParam::TrellisEobOpt => off + 2,
        BoolParam::TrellisQOpt => off + 3,
        BoolParam::UseScansInTrellis => off + 4,
        BoolParam::OvershootDeringing => off + 5,
    };
    if k > 0 {
        assert(steps[off + (k - off)] == rest[k - off]);
    }
    assert(steps[k] == EncodeStep::SetBool(p, setting_for(s, p)));
    assert forall|i: int| 0 <= i < steps.len() && sets_param(#[trigger] steps[i], p) implies i == k by {
        if i >= off {
            assert(steps[off + (i - off)] == rest[i - off]);
        }
    }
    assert(steps[off + 6] == rest[6]);
}

/// The value of the setting that controls parameter `p`.
pub open spec fn setting_for(s: EncoderSettings, p: BoolParam) -> bool {
    match p {
        BoolParam::OptimizeScans => s.jpgcrush,
        BoolParam::TrellisQuant => s.trellis,
        BoolParam::TrellisQuantDc => s.trellis_dc,
        BoolParam::TrellisEobOpt => s.trellis_eob_opt,
        BoolParam::TrellisQOpt => s.trellis_q_opt,
        BoolParam::UseScansInTrellis => s.trellis_scans,
        BoolParam::OvershootDeringing => s.deringing,
    }
}

// ---------------------------------------------------------------------------
// Laws relating the operations to what they are for
// ---------------------------------------------------------------------------

/// The bits of one pixel of a colour type: its channel depth times its channels.
pub open spec fn bits_per_pixel(c: ColorType) -> int {
    match c {
        ColorType::Gray(n) => n as int,
        ColorType::GrayA(n) => 2 * n,
        ColorType::RGB(n) => 3 * n,
        ColorType::Palette(n) => 3 * n,
        ColorType::RGBA(n) => 4 * n,
    }
}

/// The bits of one channel of a colour type.
pub open spec fn channel_bits(c: ColorType) -> int {
    match c {
        ColorType::Gray(n) => n as int,
        ColorType::GrayA(n) => n as int,
        ColorType::RGB(n) => n as int,
        ColorType::Palette(n) => n as int,
        ColorType::RGBA(n) => n as int,
    }
}

/// A decoded row holds the components of each pixel across the width: its length
/// does not depend on the height or the colour space, a header of no width has
/// empty rows, and one more pixel of width adds one pixel's components.
pub proof fn lemma_row_len_spans_the_width(a: HeaderInfo, b: HeaderInfo)
    ensures
        spec_row_len(a) >= 0,
        a.output_width == b.output_width && a.output_components == b.output_components
            ==> spec_row_len(a) == spec_row_len(b),
        a.output_width == 0 ==> spec_row_len(a) == 0,
        b.output_width == a.output_width + 1 && b.output_components == a.output_components
            ==> spec_row_len(b) == spec_row_len(a) + a.output_components,
{
    assert(a.output_width * a.output_components >= 0) by (nonlinear_arith);
    if b.output_width == a.output_width + 1 && b.output_components == a.output_components {
        assert(b.output_width * b.output_components == a.output_width * a.output_components
            + a.output_components) by (nonlinear_arith)
            requires
                b.output_width == a.output_width + 1,
                b.output_components == a.output_components,
        ;
    }
}

/// An input row of a plan holds `width` pixels of the colour type it was planned
/// for: where the channels are whole bytes, its length in bits is the width times
/// the colour type's bits per pixel, so one more pixel of width adds one pixel's bytes.
pub proof fn lemma_stride_holds_the_pixels(width: u32, c: ColorType)
    requires
        spec_input_format(c) is Some,
        channel_bits(c) % 8 == 0,
    ensures
        spec_stride(width, spec_input_format(c)->0) * 8 == width * bits_per_pixel(c),
        width < u32::MAX ==> spec_stride((width + 1) as u32, spec_input_format(c)->0) == spec_stride(
            width,
            spec_input_format(c)->0,
        ) + bits_per_pixel(c) / 8,
{
    let n = channel_bits(c);
    let q = n / 8;
    assert(q * 8 == n);
    let k: int = match c {
        ColorType::Gray(_) => 1,
        ColorType::RGB(_) => 3,
        ColorType::RGBA(_) => 4,
        _ => 0,
    };
    let f = spec_input_format(c)->0;
    assert(f.components == q * k);
    assert(bits_per_pixel(c) == k * n);
    assert(width * (q * k) * 8 == width * (k * n)) by (nonlinear_arith)
        requires
            q * 8 == n,
    ;
    assert(bits_per_pixel(c) / 8 == q * k) by (nonlinear_arith)
        requires
            bits_per_pixel(c) == k * n,
            q * 8 == n,
    ;
    assert((width + 1) * (q * k) == width * (q * k) + q * k) by (nonlinear_arith);
}

/// A decoded image has 8-bit channels whatever colour space the file stores
/// (libjpeg's samples are bytes): gray for a grayscale image, RGB for every other one.
pub proof fn lemma_decoded_color_type_is_8_bit(jpeg_color_space: ColorSpace)
    ensures
        channel_bits(spec_decoded_color_type(jpeg_color_space)) == 8,
        spec_decoded_color_type(jpeg_color_space) is Gray <==> jpeg_color_space == ColorSpace::Grayscale,
        spec_decoded_color_type(jpeg_color_space) is RGB <==> jpeg_color_space != ColorSpace::Grayscale,
{
}

/// Every saved marker is reported once, in order, with the kind its code carries and
/// its whole payload, whatever the payload's length; keeping one more marker adds
/// exactly that marker's segment at the end.
pub proof fn lemma_reported_segments_keep_whole_payloads(l: MarkerList, more: MarkerList, i: int, code: u8, data: Seq<u8>)
    ensures
        l.reported_segments().len() == l@.len(),
        0 <= i < l@.len() ==> l.reported_segments()[i].0 == marker_kind(l@[i].0)
            && l.reported_segments()[i].1 == l@[i].1 && l.reported_segments()[i].1.len()
            == l@[i].1.len(),
        more@ == l@.push((code, data)) ==> more.reported_segments() == l.reported_segments().push(
            (marker_kind(code), data),
        ),
{
    if more@ == l@.push((code, data)) {
        assert(more.reported_segments() =~= l.reported_segments().push((marker_kind(code), data)));
    }
}

/// A header is read by keeping each saved marker code once, with the full marker
/// length limit, before the header is read, and the header is read before
/// decompression starts, which comes last.
pub proof fn lemma_header_steps_keep_markers_first(i: int, j: int)
    ensures
        spec_header_steps().len() == saved_codes().len() + 2,
        spec_header_steps().last() == HeaderStep::StartDecompress,
        spec_header_steps()[spec_header_steps().len() - 2] == HeaderStep::ReadHeader,
        0 <= i < saved_codes().len() ==> spec_header_steps()[i] == HeaderStep::SaveMarkers(
            saved_codes()[i],
            MARKER_LENGTH_LIMIT,
        ),
        0 <= i < j < saved_codes().len() ==> saved_codes()[i] != saved_codes()[j],
{
    let s = spec_header_steps();
    let m = saved_codes().map_values(|c: u8| HeaderStep::SaveMarkers(c, MARKER_LENGTH_LIMIT));
    assert(m.len() == 4);
    assert(s[4] == HeaderStep::ReadHeader);
    assert(s[5] == HeaderStep::StartDecompress);
    if 0 <= i < saved_codes().len() {
        assert(s[i] == m[i]);
    }
}

/// The number of channels of the pixels a colour space holds.
pub open spec fn space_channels(space: ColorSpace) -> int {
    match space {
        ColorSpace::Grayscale => 1,
        ColorSpace::Rgb | ColorSpace::YCbCr | ColorSpace::ExtRgb | ColorSpace::ExtBgr
        | ColorSpace::Rgb565 => 3,
        _ => 4,
    }
}

/// The kinds follow the JPEG marker numbering: the comment marker carries comments,
/// and of the sixteen application markers APP0 to APP15, APP1 carries Exif or XMP,
/// APP2 an ICC profile and APP13 IPTC data, while the others carry nothing known.
pub proof fn lemma_marker_kinds_follow_app_numbers(n: u8, code: u8)
    ensures
        marker_kind(code) == MetadataType::Comment <==> code == 0xFEu8,
        n < 16 ==> (marker_kind((0xE0u8 + n) as u8) == MetadataType::ExifXmp <==> n == 1),
        n < 16 ==> (marker_kind((0xE0u8 + n) as u8) == MetadataType::Icc <==> n == 2),
        n < 16 ==> (marker_kind((0xE0u8 + n) as u8) == MetadataType::Iptc <==> n == 13),
        n < 16 && n != 1 && n != 2 && n != 13 ==> marker_kind((0xE0u8 + n) as u8) == MetadataType::Unknown,
{
}

/// The pixels handed to the encoder are laid out as the colour type says: as many
/// bytes per pixel as its channels take, in a colour space with that many channels
/// (gray in grayscale, RGB in RGB, RGBA in RGB with alpha).
pub proof fn lemma_input_format_matches_pixels(c: ColorType)
    ensures
        spec_input_format(c) matches Some(f) ==> f.components == (channel_bits(c) / 8) * space_channels(
            f.color_space,
        ) && (f.color_space == ColorSpace::Grayscale <==> c is Gray) && (f.color_space
            == ColorSpace::ExtRgba <==> c is RGBA),
        spec_input_format(c) is None <==> (c is Palette || c is GrayA),
{
}

/// Scan optimization is the first step, directly followed by the progressive
/// script when it is on.
pub proof fn lemma_encode_steps_start_with_scans(s: EncoderSettings)
    ensures
        spec_encode_steps(s)[0] == EncodeStep::SetBool(BoolParam::OptimizeScans, s.jpgcrush),
        s.jpgcrush ==> spec_encode_steps(s)[1] == EncodeStep::SimpleProgression,
        !s.jpgcrush ==> spec_encode_steps(s)[1] == EncodeStep::SetBool(BoolParam::TrellisQuant, s.trellis),
        spec_encode_steps(s).len() == if s.jpgcrush { 9int } else { 8int },
{
}

/// Rows of equal length flatten to their count times their length.
proof fn lemma_flatten_uniform_len(rows: Seq<Seq<u8>>, stride: nat)
    requires
        forall|i: int| 0 <= i < rows.len() ==> (#[trigger] rows[i]).len() == stride,
    ensures
        rows.flatten().len() == rows.len() * stride,
    decreases rows.len(),
{
    if rows.len() > 0 {
        let init = rows.drop_last();
        assert(init.push(rows.last()) =~= rows);
        init.lemma_flatten_push(rows.last());
        assert forall|i: int| 0 <= i < init.len() implies (#[trigger] init[i]).len() == stride by {
            assert(init[i] == rows[i]);
        }
        lemma_flatten_uniform_len(init, stride);
        assert(init.len() * stride + stride == rows.len() * stride) by (nonlinear_arith)
            requires
                init.len() + 1 == rows.len(),
        ;
    }
}

/// In rows of equal length, row `r` occupies the bytes from `r * stride` on.
proof fn lemma_flatten_uniform_row(rows: Seq<Seq<u8>>, stride: nat, r: int)
    requires
        forall|i: int| 0 <= i < rows.len() ==> (#[trigger] rows[i]).len() == stride,
        0 <= r < rows.len(),
    ensures
        rows.flatten().subrange(r * stride, r * stride + stride) == rows[r],
    decreases rows.len(),
{
    let init = rows.drop_last();
    assert(init.push(rows.last()) =~= rows);
    init.lemma_flatten_push(rows.last());
    assert forall|i: int| 0 <= i < init.len() implies (#[trigger] init[i]).len() == stride by {
        assert(init[i] == rows[i]);
    }
    lemma_flatten_uniform_len(init, stride);
    let flat = rows.flatten();
    if r == rows.len() - 1 {
        assert(r * stride == init.len() * stride);
        assert(flat.subrange(r * stride, r * stride + stride) =~= rows.last());
    } else {
        lemma_flatten_uniform_row(init, stride, r);
        assert(r * stride + stride <= init.len() * stride) by (nonlinear_arith)
            requires
                r + 1 <= init.len(),
                0 <= r,
        ;
        assert(0 <= r * stride) by (nonlinear_arith)
            requires
                0 <= r,
        ;
        assert(flat.subrange(r * stride, r * stride + stride) =~= init.flatten().subrange(
            r * stride,
            r * stride + stride,
        ));
    }
}

} // verus!
