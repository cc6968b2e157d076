//! Verified core of an image library built around MozJPEG: classifying and
//! interpreting metadata segments, the decisions a JPEG decoder takes around
//! libjpeg, assembling decoded scanlines, and planning an encoding.
pub mod meta;
pub mod srcs;
pub mod jpeg;
