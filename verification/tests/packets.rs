use aedat_io::aedat4_decoder::{begin_packet, classify_packet, collect_step, Aedat4Decoder, CollectStep, PacketDecoding};
use aedat_io::codec::{CompressionType, Packet, VideoMetadata};
use aedat_io::error::{DecodeError, ErrorKind};
use aedat_io::flatbuf::PacketHeader;
use std::io::Write;

fn payload(tag: &[u8; 4], extra: &[u8]) -> Vec<u8> {
    let mut v = vec![0, 0, 0, 0, 0, 0, 0, 0];
    v.extend_from_slice(tag);
    v.extend_from_slice(extra);
    v
}

fn decoder(compression: CompressionType) -> Aedat4Decoder {
    Aedat4Decoder::new(0, Some(VideoMetadata { output_modules: vec![], compression }))
}

fn lz4_frame(data: &[u8]) -> Vec<u8> {
    let mut e = lz4::EncoderBuilder::new().build(Vec::new()).unwrap();
    e.write_all(data).unwrap();
    let (out, res) = e.finish();
    res.unwrap();
    out
}

#[test]
fn classify_each_identifier() {
    match classify_packet(3, payload(b"EVTS", &[9])) {
        Ok(Packet::EventPacket(c)) => {
            assert_eq!(c.id, 3);
            assert_eq!(c.buffer, payload(b"EVTS", &[9]));
        }
        _ => panic!("expected events"),
    }
    assert!(matches!(classify_packet(1, payload(b"FRME", &[])), Ok(Packet::FramePacket(_))));
    assert!(matches!(classify_packet(1, payload(b"IMUS", &[])), Ok(Packet::ImuPacket(_))));
    assert!(matches!(classify_packet(1, payload(b"TRIG", &[])), Ok(Packet::TriggerPacket(_))));
}

#[test]
fn classify_unknown_identifier() {
    match classify_packet(1, payload(b"evts", &[])) {
        Err(DecodeError::UnexpectedError(k, m)) => {
            assert_eq!(k, ErrorKind::Other);
            assert_eq!(m, "unknown identifier: evts");
        }
        _ => panic!("expected an error"),
    }
}

#[test]
fn classify_invalid_utf8_identifier() {
    match classify_packet(1, payload(&[0xff, b'A', b'B', b'C'], &[])) {
        Err(DecodeError::UnexpectedError(_, m)) => assert_eq!(m, "unknown identifier: \u{FFFD}ABC"),
        _ => panic!("expected an error"),
    }
}

#[test]
fn decompress_none_copies() {
    let d = decoder(CompressionType::NONE);
    assert_eq!(d.decompress(CompressionType::NONE, &[1, 2, 3]).unwrap(), vec![1, 2, 3]);
}

#[test]
fn decompress_lz4_frame() {
    let d = decoder(CompressionType::LZ4);
    let data: Vec<u8> = (0..5000u32).map(|i| (i % 7) as u8).collect();
    let frame = lz4_frame(&data);
    assert_ne!(frame, data);
    assert_eq!(d.decompress(CompressionType::LZ4, &frame).unwrap(), data);
}

#[test]
fn decompress_lz4_garbage_fails() {
    let d = decoder(CompressionType::LZ4);
    match d.decompress(CompressionType::LZ4, &[1, 2, 3, 4, 5, 6, 7, 8, 9, 10, 11, 12]) {
        Err(DecodeError::UnexpectedError(k, m)) => {
            assert_eq!(k, ErrorKind::Other);
            assert!(!m.is_empty());
        }
        Ok(_) => panic!("expected an error"),
    }
}

#[test]
fn decode_lz4_packet() {
    let d = decoder(CompressionType::LZ4);
    let body = payload(b"TRIG", &[7, 7, 7]);
    let frame = lz4_frame(&body);
    let header = PacketHeader { id: 5, size: frame.len() as i32 };
    match d.decode_packet(header, &frame) {
        Ok(PacketDecoding::Decoded(Packet::TriggerPacket(c))) => {
            assert_eq!(c.id, 5);
            assert_eq!(c.buffer, body);
        }
        _ => panic!("expected a trigger packet"),
    }
}

#[test]
fn decode_uncompressed_packet() {
    let d = decoder(CompressionType::NONE);
    let body = payload(b"IMUS", &[]);
    let header = PacketHeader { id: 0, size: body.len() as i32 };
    assert!(matches!(d.decode_packet(header, &body), Ok(PacketDecoding::Decoded(Packet::ImuPacket(_)))));
}

#[test]
fn decode_short_packet() {
    let d = decoder(CompressionType::NONE);
    let header = PacketHeader { id: 0, size: 5 };
    assert!(matches!(d.decode_packet(header, &[1, 2, 3, 4, 5]), Ok(PacketDecoding::ShortPayload(5))));
}

#[test]
fn decode_unknown_packet() {
    let d = decoder(CompressionType::NONE);
    let body = payload(b"XXXX", &[]);
    let header = PacketHeader { id: 0, size: 12 };
    assert!(matches!(d.decode_packet(header, &body), Err(DecodeError::UnexpectedError(ErrorKind::Other, _))));
}

#[test]
fn decoder_metadata_getter() {
    let d = decoder(CompressionType::LZ4);
    assert_eq!(d.metadata().compression, CompressionType::LZ4);
    assert!(d.metadata().output_modules.is_empty());
}

#[test]
fn begin_packet_at_end_of_stream() {
    assert!(matches!(begin_packet(&[]), Ok(None)));
}

#[test]
fn begin_packet_with_full_header() {
    match begin_packet(&[7, 0, 0, 0, 20, 0, 0, 0]) {
        Ok(Some(h)) => {
            assert_eq!(h.id, 7);
            assert_eq!(h.size, 20);
        }
        _ => panic!("expected a header"),
    }
}

#[test]
fn begin_packet_truncated_header() {
    match begin_packet(&[7, 0, 0]) {
        Err(DecodeError::UnexpectedError(k, m)) => {
            assert_eq!(k, ErrorKind::Other);
            assert_eq!(m, "early eof");
        }
        _ => panic!("expected an error"),
    }
}

#[test]
fn collect_steps() {
    let first = classify_packet(1, payload(b"EVTS", &[])).unwrap();
    let frames = match collect_step(Vec::new(), Ok(Some(first))) {
        CollectStep::Next(v) => v,
        _ => panic!("expected to go on"),
    };
    assert_eq!(frames.len(), 1);
    let second = classify_packet(2, payload(b"FRME", &[])).unwrap();
    let frames = match collect_step(frames, Ok(Some(second))) {
        CollectStep::Next(v) => v,
        _ => panic!("expected to go on"),
    };
    assert!(matches!(frames[1], Packet::FramePacket(_)));
    match collect_step(frames, Ok(None)) {
        CollectStep::Finished(v) => assert_eq!(v.len(), 2),
        _ => panic!("expected the end"),
    }
    let failed = collect_step(Vec::new(), Err(DecodeError::UnexpectedError(ErrorKind::Other, "x".to_string())));
    assert!(matches!(failed, CollectStep::Failed(DecodeError::UnexpectedError(ErrorKind::Other, m)) if m == "x"));
}
