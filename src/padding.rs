//! The PADDING frame: a tag of 0x00 and no fields.
use crate::frame::{tag_bytes, EncodeSize, FrameType, GetFrameType, WriteFrame};
use crate::varint::{lemma_small_varint, put_varint};
use vstd::prelude::*;

verus! {

/// A PADDING frame, which carries nothing but its type.
#[derive(Clone, Copy, Debug, Default, PartialEq, Eq, Structural)]
pub struct PaddingFrame;

impl GetFrameType for PaddingFrame {
    open spec fn spec_frame_type(&self) -> FrameType {
        FrameType::Padding
    }

    fn frame_type(&self) -> (r: FrameType) {
        FrameType::Padding
    }
}

impl EncodeSize for PaddingFrame {
    open spec fn spec_encoding(&self) -> Seq<u8> {
        tag_bytes(FrameType::Padding)
    }

    open spec fn spec_max_encoding_size(&self) -> nat {
        1
    }

    proof fn lemma_encoding_within_max(&self) {
        lemma_small_varint(0);
    }

    fn max_encoding_size(&self) -> (r: usize) {
        1
    }

    fn encoding_size(&self) -> (r: usize) {
        proof {
            lemma_small_varint(0);
        }
        1
    }
}

/// Parses a PADDING frame from `input`, which starts just past its tag: there
/// is nothing more to read, so this always succeeds and consumes nothing.
pub fn be_padding_frame(input: &[u8]) -> (r: nom::IResult<&[u8], PaddingFrame>)
    ensures
        r matches Ok((rest, _)) && rest@ == input@,
{
    Ok((input, PaddingFrame))
}

impl WriteFrame<PaddingFrame> for Vec<u8> {
    fn put_frame(&mut self, frame: &PaddingFrame) {
        put_varint(self, &frame.frame_type().to_varint());
    }
}

} // verus!
