use nom::combinator::flat_map;
use nom::Parser;
use qframe::frame::{
    be_frame, be_frame_of, be_frame_type, EncodeSize, Frame, FrameError, FrameType,
    GetFrameType, WriteFrame,
};
use qframe::padding::{be_padding_frame, PaddingFrame};
use qframe::ping::{be_ping_frame, PingFrame};
use qframe::varint::{be_varint, put_varint, VarInt};

fn varint_parser(input: &[u8]) -> nom::IResult<&[u8], VarInt> {
    match be_varint(input) {
        Some((rest, v)) => Ok((rest, v)),
        None => Err(nom::Err::Incomplete(nom::Needed::new(1))),
    }
}

#[test]
fn test_padding_frame() {
    assert_eq!(PaddingFrame.frame_type(), FrameType::Padding);
    assert_eq!(PaddingFrame.max_encoding_size(), 1);
    assert_eq!(PaddingFrame.encoding_size(), 1);
}

#[test]
fn test_read_padding_frame() {
    let padding_frame_type = FrameType::Padding.to_varint();
    let buf = vec![padding_frame_type.into_inner() as u8];
    let (input, frame) = flat_map(varint_parser, |frame_type| {
        if frame_type == padding_frame_type {
            be_padding_frame
        } else {
            unreachable!("wrong frame type: {:?}", frame_type)
        }
    })
    .parse(buf.as_slice())
    .unwrap();
    assert!(input.is_empty());
    assert_eq!(frame, PaddingFrame);
}

#[test]
fn test_write_padding_frame() {
    let mut buf = Vec::new();
    buf.put_frame(&PaddingFrame);
    assert_eq!(buf, vec![FrameType::Padding.to_varint().into_inner() as u8]);
}

#[test]
fn test_ping_frame() {
    assert_eq!(PingFrame.frame_type(), FrameType::Ping);
    assert_eq!(PingFrame.max_encoding_size(), 1);
    assert_eq!(PingFrame.encoding_size(), 1);
}

#[test]
fn test_read_ping_frame() {
    let ping_frame_type = FrameType::Ping.to_varint();
    let buf = vec![ping_frame_type.into_inner() as u8];
    let (input, frame) = flat_map(varint_parser, |frame_type| {
        if frame_type == ping_frame_type {
            be_ping_frame
        } else {
            panic!("wrong frame type: {frame_type:?}")
        }
    })
    .parse(buf.as_slice())
    .unwrap();
    assert!(input.is_empty());
    assert_eq!(frame, PingFrame);
}

#[test]
fn test_write_ping_frame() {
    let mut buf = Vec::new();
    buf.put_frame(&PingFrame);
    assert_eq!(buf, vec![FrameType::Ping.to_varint().into_inner() as u8]);
}

#[test]
fn tag_round_trip_for_each_type() {
    for t in [FrameType::Padding, FrameType::Ping] {
        assert_eq!(FrameType::from_varint(t.to_varint()), Ok(t));
    }
    assert_eq!(FrameType::Padding.to_varint().into_inner(), 0);
    assert_eq!(FrameType::Ping.to_varint().into_inner(), 1);
}

#[test]
fn encoding_size_within_max_for_each_frame() {
    for f in [Frame::Padding(PaddingFrame), Frame::Ping(PingFrame)] {
        assert!(f.encoding_size() <= f.max_encoding_size());
        assert_eq!(f.encoding_size(), 1);
    }
}

#[test]
fn write_then_parse_gives_frame_back() {
    for f in [Frame::Padding(PaddingFrame), Frame::Ping(PingFrame)] {
        let mut buf = Vec::new();
        buf.put_frame(&f);
        assert_eq!(buf.len(), f.encoding_size());
        let (rest, g) = be_frame(buf.as_slice()).unwrap();
        assert!(rest.is_empty());
        assert_eq!(g, f);
        let (rest, g) = be_frame_of(f.frame_type(), buf.as_slice()).unwrap();
        assert!(rest.is_empty());
        assert_eq!(g, f);
    }
}

#[test]
fn write_appends_after_existing_bytes() {
    let mut buf = vec![0xAB];
    buf.put_frame(&PingFrame);
    buf.put_frame(&Frame::Padding(PaddingFrame));
    assert_eq!(buf, vec![0xAB, 0x01, 0x00]);
}

#[test]
fn parse_stops_after_frame() {
    let buf = [0x01, 0x00, 0x07];
    let (rest, f) = be_frame(&buf).unwrap();
    assert_eq!(f, Frame::Ping(PingFrame));
    assert_eq!(rest, &[0x00, 0x07]);
    let (rest, f) = be_frame(rest).unwrap();
    assert_eq!(f, Frame::Padding(PaddingFrame));
    assert_eq!(rest, &[0x07]);
}

#[test]
fn empty_input_is_incomplete() {
    assert_eq!(be_frame(&[]), Err(FrameError::IncompleteInput));
    assert_eq!(be_frame_type(&[]), Err(FrameError::IncompleteInput));
    assert_eq!(
        be_frame_of(FrameType::Padding, &[]),
        Err(FrameError::IncompleteInput)
    );
    assert_eq!(
        be_frame_of(FrameType::Ping, &[]),
        Err(FrameError::IncompleteInput)
    );
}

#[test]
fn truncated_tag_is_incomplete() {
    assert_eq!(be_frame(&[0x40]), Err(FrameError::IncompleteInput));
    assert_eq!(be_frame(&[0x80, 0x00, 0x00]), Err(FrameError::IncompleteInput));
}

#[test]
fn unknown_tag_is_unrecognized() {
    assert_eq!(
        be_frame(&[0x02]),
        Err(FrameError::UnrecognizedFrameType(2))
    );
    assert_eq!(
        be_frame(&[0x7b, 0xbd]),
        Err(FrameError::UnrecognizedFrameType(15293))
    );
    assert_eq!(
        be_frame_of(FrameType::Ping, &[0x3f]),
        Err(FrameError::UnrecognizedFrameType(63))
    );
}

#[test]
fn long_encoding_of_known_tag_is_accepted() {
    let (rest, f) = be_frame(&[0x40, 0x01, 0x09]).unwrap();
    assert_eq!(f, Frame::Ping(PingFrame));
    assert_eq!(rest, &[0x09]);
}

#[test]
fn encode_padding_frame_exactly() {
    let mut buf = Vec::new();
    buf.put_frame(&PaddingFrame);
    assert_eq!(buf, vec![0x00]);
    let (rest, f) = be_frame_of(FrameType::Padding, &[0x00]).unwrap();
    assert!(rest.is_empty());
    assert_eq!(f, Frame::Padding(PaddingFrame));
}

#[test]
fn encode_ping_frame_exactly() {
    let mut buf = Vec::new();
    buf.put_frame(&PingFrame);
    assert_eq!(buf, vec![0x01]);
    let (rest, f) = be_frame_of(FrameType::Ping, &[0x01]).unwrap();
    assert!(rest.is_empty());
    assert_eq!(f, Frame::Ping(PingFrame));
}

#[test]
fn ping_tag_refused_where_padding_expected() {
    assert_eq!(
        be_frame_of(FrameType::Padding, &[0x01, 0xFF]),
        Err(FrameError::UnrecognizedFrameType(1))
    );
}

#[test]
fn body_parsers_consume_nothing() {
    let buf = [0x05, 0x06];
    assert_eq!(be_padding_frame(&buf), Ok((&buf[..], PaddingFrame)));
    assert_eq!(be_ping_frame(&buf), Ok((&buf[..], PingFrame)));
}

#[test]
fn varint_decodes_each_length() {
    let cases: [(&[u8], u64); 4] = [
        (&[0x25], 37),
        (&[0x7b, 0xbd], 15293),
        (&[0x9d, 0x7f, 0x3e, 0x7d], 494878333),
        (&[0xc2, 0x19, 0x7c, 0x5e, 0xff, 0x14, 0xe8, 0x8c], 151288809941952652),
    ];
    for (bytes, value) in cases {
        let mut input = bytes.to_vec();
        input.push(0xEE);
        let (rest, v) = be_varint(&input).unwrap();
        assert_eq!(v.into_inner(), value);
        assert_eq!(rest, &[0xEE]);
        assert_eq!(v.encoding_size(), bytes.len());
        let mut out = vec![0x11];
        put_varint(&mut out, &v);
        assert_eq!(&out[1..], bytes);
        assert_eq!(out[0], 0x11);
    }
}

#[test]
fn varint_truncated_is_none() {
    assert!(be_varint(&[]).is_none());
    assert!(be_varint(&[0x7b]).is_none());
    assert!(be_varint(&[0x9d, 0x7f, 0x3e]).is_none());
    assert!(be_varint(&[0xc2, 0x19, 0x7c, 0x5e, 0xff, 0x14, 0xe8]).is_none());
}

#[test]
fn varint_largest_value() {
    let bytes = [0xff; 8];
    let (rest, v) = be_varint(&bytes).unwrap();
    assert!(rest.is_empty());
    assert_eq!(v.into_inner(), 0x3fff_ffff_ffff_ffff);
    let mut out = Vec::new();
    put_varint(&mut out, &v);
    assert_eq!(out, bytes.to_vec());
}

#[test]
fn varint_long_form_of_small_value() {
    let (_, v) = be_varint(&[0x40, 0x25]).unwrap();
    assert_eq!(v.into_inner(), 37);
    assert_eq!(v.encoding_size(), 1);
    let mut out = Vec::new();
    put_varint(&mut out, &v);
    assert_eq!(out, vec![0x25]);
}
