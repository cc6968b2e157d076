use imagespells::jpeg::{
    decoded_color_type, header_steps, metadata_type_for_marker, HeaderStep, more_scanlines, output_color_space,
    saved_marker_codes, scanline_result, ColorSpace, ColorType, DecodeError, HeaderInfo,
    HeaderState, ScanlineBuffer, JPEG_APP0, JPEG_COM, MARKER_LENGTH_LIMIT,
};
use imagespells::meta::MetadataType;

#[test]
fn marker_codes_classify() {
    assert_eq!(metadata_type_for_marker(0xFE), MetadataType::Comment);
    assert_eq!(metadata_type_for_marker(0xE1), MetadataType::ExifXmp);
    assert_eq!(metadata_type_for_marker(0xE2), MetadataType::Icc);
    assert_eq!(metadata_type_for_marker(0xED), MetadataType::Iptc);
    assert_eq!(metadata_type_for_marker(0xE0), MetadataType::Unknown);
    assert_eq!(metadata_type_for_marker(0xE3), MetadataType::Unknown);
    assert_eq!(metadata_type_for_marker(0x00), MetadataType::Unknown);
}

#[test]
fn saved_markers_are_comment_exif_icc_iptc() {
    assert_eq!(JPEG_COM, 0xFE);
    assert_eq!(JPEG_APP0, 0xE0);
    assert_eq!(MARKER_LENGTH_LIMIT, 0xffff);
    assert_eq!(saved_marker_codes(), vec![0xFE, 0xE1, 0xE2, 0xED]);
    for code in saved_marker_codes() {
        assert_ne!(metadata_type_for_marker(code), MetadataType::Unknown);
    }
}

#[test]
fn grayscale_stays_grayscale_and_the_rest_becomes_rgb() {
    assert_eq!(output_color_space(ColorSpace::Grayscale), ColorSpace::Grayscale);
    assert_eq!(output_color_space(ColorSpace::YCbCr), ColorSpace::Rgb);
    assert_eq!(output_color_space(ColorSpace::Cmyk), ColorSpace::Rgb);
    assert_eq!(output_color_space(ColorSpace::Rgb), ColorSpace::Rgb);
    assert_eq!(decoded_color_type(ColorSpace::Grayscale), ColorType::Gray(8));
    assert_eq!(decoded_color_type(ColorSpace::YCbCr), ColorType::RGB(8));
    assert_eq!(decoded_color_type(ColorSpace::Ycck), ColorType::RGB(8));
}

#[test]
fn header_of_the_example_image() {
    let info = HeaderInfo {
        jpeg_color_space: ColorSpace::YCbCr,
        output_width: 4,
        output_height: 4,
        output_components: 3,
    };
    assert_eq!(info.dimensions(), (4, 4));
    assert_eq!(info.color_type(), ColorType::RGB(8));
    assert_eq!(info.row_len(), 4 * 3);
}

#[test]
fn header_is_read_once() {
    let mut state = HeaderState::new();
    assert!(state.needs_header());
    assert_eq!(state.record_header(ColorSpace::YCbCr), ColorSpace::Rgb);
    assert!(!state.needs_header());
    let mut gray = HeaderState::new();
    assert_eq!(gray.record_header(ColorSpace::Grayscale), ColorSpace::Grayscale);
    assert!(!gray.needs_header());
}

#[test]
fn scanline_outcomes() {
    assert_eq!(scanline_result(1, 3), Ok(3));
    assert_eq!(scanline_result(0, 3), Err(DecodeError::ImageEnd));
    assert_eq!(scanline_result(2, 3), Err(DecodeError::ImageEnd));
    assert!(more_scanlines(0, 4));
    assert!(more_scanlines(3, 4));
    assert!(!more_scanlines(4, 4));
}

#[test]
fn rows_are_assembled_in_order() {
    let mut buf = ScanlineBuffer::new(6);
    assert_eq!(buf.row_len(), 6);
    assert_eq!(buf.take_row(1, &[232, 193, 238, 1, 2, 3]), Ok(()));
    assert_eq!(buf.take_row(1, &[4, 5, 6, 7, 8, 9]), Ok(()));
    let pixels = buf.into_pixels();
    assert_eq!(pixels.len(), 12);
    assert_eq!(pixels[0..3], [232, 193, 238]);
    assert_eq!(pixels[6..12], [4, 5, 6, 7, 8, 9]);
}

#[test]
fn a_failed_scanline_ends_the_image() {
    let mut buf = ScanlineBuffer::new(3);
    assert_eq!(buf.take_row(1, &[1, 2, 3]), Ok(()));
    assert_eq!(buf.take_row(0, &[]), Err(DecodeError::ImageEnd));
    assert_eq!(buf.into_pixels(), vec![1, 2, 3]);
}

#[test]
fn header_is_read_after_keeping_the_markers() {
    assert_eq!(
        header_steps(),
        vec![
            HeaderStep::SaveMarkers(0xFE, 0xffff),
            HeaderStep::SaveMarkers(0xE1, 0xffff),
            HeaderStep::SaveMarkers(0xE2, 0xffff),
            HeaderStep::SaveMarkers(0xED, 0xffff),
            HeaderStep::ReadHeader,
            HeaderStep::StartDecompress,
        ]
    );
}

#[test]
fn reserved_buffer_assembles_rows() {
    let mut buf = ScanlineBuffer::with_capacity(2, 2);
    assert_eq!(buf.row_len(), 2);
    assert_eq!(buf.take_row(1, &[1, 2]), Ok(()));
    assert_eq!(buf.take_row(1, &[3, 4]), Ok(()));
    assert_eq!(buf.into_pixels(), vec![1, 2, 3, 4]);
}
