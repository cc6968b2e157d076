use vstd::prelude::*;

verus! {

/// A decoder that reads its image from a byte slice in memory.
pub trait DecoderFromMemory<'a>: Sized {
    /// A decoder for the image held in `r`.
    fn for_slice(r: &'a [u8]) -> Self;
}

} // verus!
