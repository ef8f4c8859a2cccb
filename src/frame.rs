//! Frame types, the operations each frame kind offers, and the dispatcher
//! that reads a type tag and parses the frame it announces.
use crate::padding::{be_padding_frame, PaddingFrame};
use crate::ping::{be_ping_frame, PingFrame};
use crate::varint::{
    be_varint, decode_varint, encode_varint, lemma_small_varint, varint_complete,
    varint_len_from_first, VarInt,
};
use vstd::prelude::*;

verus! {

/// The error of a `nom` parser.
#[verifier::external_type_specification]
#[verifier::external_body]
#[verifier::reject_recursive_types(F)]
#[verifier::reject_recursive_types(E)]
pub struct ExNomErr<F, E>(nom::Err<F, E>);

/// The default error payload of a `nom` parser.
#[verifier::external_type_specification]
#[verifier::external_body]
#[verifier::reject_recursive_types(I)]
pub struct ExNomError<I>(nom::error::Error<I>);

/// The type of a frame, as its leading tag gives it on the wire.
#[derive(Clone, Copy, Debug, PartialEq, Eq, Structural)]
pub enum FrameType {
    /// Tag 0x00.
    Padding,
    /// Tag 0x01.
    Ping,
}

/// Why a frame could not be parsed.
#[derive(Clone, Copy, Debug, PartialEq, Eq, Structural)]
pub enum FrameError {
    /// The input ends before the frame does.
    IncompleteInput,
    /// The tag read names no known frame type, or not the one that was expected.
    UnrecognizedFrameType(u64),
}

impl FrameType {
    /// The tag of this type.
    pub open spec fn spec_tag(self) -> nat {
        match self {
            FrameType::Padding => 0,
            FrameType::Ping => 1,
        }
    }

    /// The type that a tag names, if any.
    pub open spec fn spec_from_tag(v: nat) -> Option<FrameType> {
        if v == 0 {
            Some(FrameType::Padding)
        } else if v == 1 {
            Some(FrameType::Ping)
        } else {
            None
        }
    }

    /// The tag of this type, as a variable-length integer.
    pub fn to_varint(self) -> (r: VarInt)
        ensures
            r@ == self.spec_tag(),
    {
        match self {
            FrameType::Padding => VarInt::from_u8_small(0x00),
            FrameType::Ping => VarInt::from_u8_small(0x01),
        }
    }

    /// The type that the tag `v` names.
    pub fn from_varint(v: VarInt) -> (r: Result<FrameType, FrameError>)
        ensures
            r == (match FrameType::spec_from_tag(v@) {
                Some(t) => Ok(t),
                None => Err(FrameError::UnrecognizedFrameType(v@ as u64)),
            }),
    {
        let x = v.into_inner();
        if x == 0 {
            Ok(FrameType::Padding)
        } else if x == 1 {
            Ok(FrameType::Ping)
        } else {
            Err(FrameError::UnrecognizedFrameType(x))
        }
    }
}

/// The bytes of the tag of `t`.
pub open spec fn tag_bytes(t: FrameType) -> Seq<u8> {
    encode_varint(t.spec_tag())
}

/// Turning a type into its tag and back gives the type again; every tag fits
/// in the one-byte form of a variable-length integer.
pub proof fn lemma_tag_round_trip(t: FrameType)
    ensures
        FrameType::spec_from_tag(t.spec_tag()) == Some(t),
        t.spec_tag() < 0x40,
{
}

/// Tells the type of a frame.
pub trait GetFrameType {
    spec fn spec_frame_type(&self) -> FrameType;

    fn frame_type(&self) -> (r: FrameType)
        ensures
            r == self.spec_frame_type(),
    ;
}

/// Tells the size of a frame's encoding.
pub trait EncodeSize {
    /// The bytes that stand for the frame on the wire.
    spec fn spec_encoding(&self) -> Seq<u8>;

    /// A bound on the encoding's length that holds whatever the frame's fields.
    spec fn spec_max_encoding_size(&self) -> nat;

    /// The encoding never exceeds the bound.
    proof fn lemma_encoding_within_max(&self)
        ensures
            self.spec_encoding().len() <= self.spec_max_encoding_size(),
    ;

    fn max_encoding_size(&self) -> (r: usize)
        ensures
            r as nat == self.spec_max_encoding_size(),
    ;

    fn encoding_size(&self) -> (r: usize)
        ensures
            r as nat == self.spec_encoding().len(),
    ;
}

/// A byte sink that a frame of kind `F` can be written to.
pub trait WriteFrame<F: EncodeSize>: View<V = Seq<u8>> {
    /// Appends the encoding of `frame`.
    fn put_frame(&mut self, frame: &F)
        requires
            old(self)@.len() + frame.spec_encoding().len() <= isize::MAX,
        ensures
            final(self)@ == old(self)@ + frame.spec_encoding(),
    ;
}

/// A frame of any known kind.
#[derive(Clone, Copy, Debug, PartialEq, Eq, Structural)]
pub enum Frame {
    Padding(PaddingFrame),
    Ping(PingFrame),
}

/// The frame of type `t`, which carries nothing beyond its type.
pub open spec fn frame_of(t: FrameType) -> Frame {
    match t {
        FrameType::Padding => Frame::Padding(PaddingFrame),
        FrameType::Ping => Frame::Ping(PingFrame),
    }
}

impl GetFrameType for Frame {
    open spec fn spec_frame_type(&self) -> FrameType {
        match self {
            Frame::Padding(f) => f.spec_frame_type(),
            Frame::Ping(f) => f.spec_frame_type(),
        }
    }

    fn frame_type(&self) -> (r: FrameType) {
        match self {
            Frame::Padding(f) => f.frame_type(),
            Frame::Ping(f) => f.frame_type(),
        }
    }
}

impl EncodeSize for Frame {
    open spec fn spec_encoding(&self) -> Seq<u8> {
        match self {
            Frame::Padding(f) => f.spec_encoding(),
            Frame::Ping(f) => f.spec_encoding(),
        }
    }

    open spec fn spec_max_encoding_size(&self) -> nat {
        match self {
            Frame::Padding(f) => f.spec_max_encoding_size(),
            Frame::Ping(f) => f.spec_max_encoding_size(),
        }
    }

    proof fn lemma_encoding_within_max(&self) {
        match self {
            Frame::Padding(f) => f.lemma_encoding_within_max(),
            Frame::Ping(f) => f.lemma_encoding_within_max(),
        }
    }

    fn max_encoding_size(&self) -> (r: usize) {
        match self {
            Frame::Padding(f) => f.max_encoding_size(),
            Frame::Ping(f) => f.max_encoding_size(),
        }
    }

    fn encoding_size(&self) -> (r: usize) {
        match self {
            Frame::Padding(f) => f.encoding_size(),
            Frame::Ping(f) => f.encoding_size(),
        }
    }
}

impl WriteFrame<Frame> for Vec<u8> {
    fn put_frame(&mut self, frame: &Frame) {
        match frame {
            Frame::Padding(f) => self.put_frame(f),
            Frame::Ping(f) => self.put_frame(f),
        }
    }
}

/// What reading a type tag from the start of `s` gives: the type and the
/// length of its tag, or the error.
pub open spec fn spec_parse_frame_type(s: Seq<u8>) -> Result<(FrameType, nat), FrameError> {
    if !varint_complete(s) {
        Err(FrameError::IncompleteInput)
    } else {
        match FrameType::spec_from_tag(decode_varint(s)) {
            Some(t) => Ok((t, varint_len_from_first(s[0]))),
            None => Err(FrameError::UnrecognizedFrameType(decode_varint(s) as u64)),
        }
    }
}

/// What parsing a frame from the start of `s` gives: the frame and the number
/// of bytes it takes, or the error.
pub open spec fn spec_parse_frame(s: Seq<u8>) -> Result<(Frame, nat), FrameError> {
    match spec_parse_frame_type(s) {
        Ok((t, n)) => Ok((frame_of(t), n)),
        Err(e) => Err(e),
    }
}

/// What parsing a frame of type `expected` from the start of `s` gives.
pub open spec fn spec_parse_frame_of(expected: FrameType, s: Seq<u8>) -> Result<
    (Frame, nat),
    FrameError,
> {
    match spec_parse_frame_type(s) {
        Ok((t, n)) => if t == expected {
            Ok((frame_of(t), n))
        } else {
            Err(FrameError::UnrecognizedFrameType(t.spec_tag() as u64))
        },
        Err(e) => Err(e),
    }
}

/// Reads the type tag at the start of `input`.
pub fn be_frame_type(input: &[u8]) -> (r: Result<(&[u8], FrameType), FrameError>)
    ensures
        match spec_parse_frame_type(input@) {
            Ok((t, n)) => r matches Ok((rest, u)) && u == t && rest@ == input@.subrange(
                n as int,
                input@.len() as int,
            ),
            Err(e) => r == Err::<(&[u8], FrameType), FrameError>(e),
        },
{
    match be_varint(input) {
        None => Err(FrameError::IncompleteInput),
        Some((rest, v)) => match FrameType::from_varint(v) {
            Ok(t) => Ok((rest, t)),
            Err(e) => Err(e),
        },
    }
}

/// Parses the body of a frame of type `t` from `input`, which starts just
/// past the tag.
fn be_frame_body(t: FrameType, input: &[u8]) -> (r: Result<(&[u8], Frame), FrameError>)
    ensures
        r matches Ok((rest, f)) && f == frame_of(t) && rest@ == input@,
{
    match t {
        FrameType::Padding => match be_padding_frame(input) {
            Ok((rest, f)) => Ok((rest, Frame::Padding(f))),
            Err(_) => Err(FrameError::IncompleteInput),
        },
        FrameType::Ping => match be_ping_frame(input) {
            Ok((rest, f)) => Ok((rest, Frame::Ping(f))),
            Err(_) => Err(FrameError::IncompleteInput),
        },
    }
}

/// Reads a type tag from `input`, then the frame of that type.
pub fn be_frame(input: &[u8]) -> (r: Result<(&[u8], Frame), FrameError>)
    ensures
        match spec_parse_frame(input@) {
            Ok((f, n)) => r matches Ok((rest, g)) && g == f && rest@ == input@.subrange(
                n as int,
                input@.len() as int,
            ),
            Err(e) => r == Err::<(&[u8], Frame), FrameError>(e),
        },
{
    match be_frame_type(input) {
        Ok((rest, t)) => be_frame_body(t, rest),
        Err(e) => Err(e),
    }
}

/// Reads a type tag from `input` and, where it is `expected`, the frame of
/// that type; another known tag is refused as unrecognized here.
pub fn be_frame_of(expected: FrameType, input: &[u8]) -> (r: Result<(&[u8], Frame), FrameError>)
    ensures
        match spec_parse_frame_of(expected, input@) {
            Ok((f, n)) => r matches Ok((rest, g)) && g == f && rest@ == input@.subrange(
                n as int,
                input@.len() as int,
            ),
            Err(e) => r == Err::<(&[u8], Frame), FrameError>(e),
        },
{
    match be_frame_type(input) {
        Ok((rest, t)) => if t == expected {
            be_frame_body(t, rest)
        } else {
            Err(FrameError::UnrecognizedFrameType(t.to_varint().into_inner()))
        },
        Err(e) => Err(e),
    }
}

/// A frame's encoding is its type's tag, and no frame's size exceeds its bound.
pub proof fn lemma_encoding_size_within_max(f: Frame)
    ensures
        f.spec_encoding() == tag_bytes(f.spec_frame_type()),
        f.spec_encoding().len() <= f.spec_max_encoding_size(),
{
    f.lemma_encoding_within_max();
}

/// Parsing what writing a frame produced, followed by anything, gives the
/// frame back and stops right after its encoding.
pub proof fn lemma_write_parse_round_trip(f: Frame, rest: Seq<u8>)
    ensures
        spec_parse_frame(f.spec_encoding() + rest) == Ok::<(Frame, nat), FrameError>(
            (f, f.spec_encoding().len()),
        ),
        spec_parse_frame_of(f.spec_frame_type(), f.spec_encoding() + rest) == Ok::<
            (Frame, nat),
            FrameError,
        >((f, f.spec_encoding().len())),
{
    let t = f.spec_frame_type();
    let e = f.spec_encoding();
    lemma_small_varint(t.spec_tag());
    let s = e + rest;
    assert(s.subrange(0, 1) =~= e.subrange(0, 1));
    assert(s[0] == e[0]);
}

/// Parsing empty input fails for want of input, whatever frame is expected.
pub proof fn lemma_empty_input_incomplete(expected: FrameType)
    ensures
        spec_parse_frame(Seq::empty()) == Err::<(Frame, nat), FrameError>(
            FrameError::IncompleteInput,
        ),
        spec_parse_frame_of(expected, Seq::empty()) == Err::<(Frame, nat), FrameError>(
            FrameError::IncompleteInput,
        ),
{
}

/// Input that starts with a whole tag naming no known type is refused as
/// unrecognized, whatever frame is expected.
pub proof fn lemma_unknown_tag_unrecognized(expected: FrameType, s: Seq<u8>)
    requires
        varint_complete(s),
        FrameType::spec_from_tag(decode_varint(s)) is None,
    ensures
        spec_parse_frame(s) == Err::<(Frame, nat), FrameError>(
            FrameError::UnrecognizedFrameType(decode_varint(s) as u64),
        ),
        spec_parse_frame_of(expected, s) == Err::<(Frame, nat), FrameError>(
            FrameError::UnrecognizedFrameType(decode_varint(s) as u64),
        ),
{
}

} // verus!
