# imagespells

The verified core of a small image library built around MozJPEG.

- `src/meta.rs`: metadata segment kinds, and their interpretation (comments as
  text, Exif segments through `kamadak-exif`, the rest as bytes).
- `src/jpeg.rs`: the decisions a JPEG decoder and encoder take around libjpeg:
  which markers to keep and how to classify them, colour spaces and colour
  types, header bookkeeping, assembling decoded scanlines, and planning an
  encoding from the encoder settings.
- `src/srcs.rs`: the trait for decoders that read from memory.
- `app/`: the MozJPEG decoder and encoder themselves, which call libjpeg through
  `mozjpeg-sys` and hand plain values to the library.
