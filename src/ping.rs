//! The PING frame: a tag of 0x01 and no fields.
use crate::frame::{tag_bytes, EncodeSize, FrameType, GetFrameType, WriteFrame};
use crate::varint::{lemma_small_varint, put_varint};
use vstd::prelude::*;

verus! {

/// A PING frame, which carries nothing but its type.
#[derive(Clone, Copy, Debug, Default, PartialEq, Eq, Structural)]
pub struct PingFrame;

impl GetFrameType for PingFrame {
    open spec fn spec_frame_type(&self) -> FrameType {
        FrameType::Ping
    }

    fn frame_type(&self) -> (r: FrameType) {
        FrameType::Ping
    }
}

impl EncodeSize for PingFrame {
    open spec fn spec_encoding(&self) -> Seq<u8> {
        tag_bytes(FrameType::Ping)
    }

    open spec fn spec_max_encoding_size(&self) -> nat {
        1
    }

    proof fn lemma_encoding_within_max(&self) {
        lemma_small_varint(1);
    }

    fn max_encoding_size(&self) -> (r: usize) {
        1
    }

    fn encoding_size(&self) -> (r: usize) {
        proof {
            lemma_small_varint(1);
        }
        1
    }
}

/// Parses a PING frame from `input`, which starts just past its tag: there
/// is nothing more to read, so this always succeeds and consumes nothing.
pub fn be_ping_frame(input: &[u8]) -> (r: nom::IResult<&[u8], PingFrame>)
    ensures
        r matches Ok((rest, _)) && rest@ == input@,
{
    Ok((input, PingFrame))
}

impl WriteFrame<PingFrame> for Vec<u8> {
    fn put_frame(&mut self, frame: &PingFrame) {
        put_varint(self, &frame.frame_type().to_varint());
    }
}

} // verus!
