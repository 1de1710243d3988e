use aedat_io::aedat4_decoder::{Aedat4, OpenState, OpenStep};
use aedat_io::codec::CompressionType;
use aedat_io::error::{ErrorKind, FileReadError};
use aedat_io::flatbuf::{decode_io_header, PacketHeader};
use flatbuffers::{FlatBufferBuilder, ForwardsUOffset, InvalidFlatbuffer, SkipSizePrefix, Verifiable, Verifier, VerifierOptions};

/// The checks that the schema's generated code runs on an `IOHeader` table.
struct IoHeaderTable;

impl Verifiable for IoHeaderTable {
    fn run_verifier(v: &mut Verifier, pos: usize) -> Result<(), InvalidFlatbuffer> {
        v.visit_table(pos)?
            .visit_field::<i32>("compression", 4, false)?
            .visit_field::<i64>("dataTableOffset", 6, false)?
            .visit_field::<ForwardsUOffset<&str>>("info", 8, false)?
            .finish();
        Ok(())
    }
}

fn flatbuffers_accepts(b: &[u8]) -> bool {
    let opts = VerifierOptions::default();
    let mut v = Verifier::new(&opts, b);
    <SkipSizePrefix<ForwardsUOffset<IoHeaderTable>>>::run_verifier(&mut v, 0).is_ok()
}

const MAGIC: &[u8] = b"#!AER-DAT4.0\r\n";

/// A size-prefixed IOHeader table; fields set to `None` are left out.
fn io_header(compression: Option<i32>, offset: Option<i64>, info: Option<&str>) -> Vec<u8> {
    let mut fbb = FlatBufferBuilder::new();
    let info = info.map(|s| fbb.create_string(s));
    let start = fbb.start_table();
    if let Some(o) = offset {
        fbb.push_slot_always::<i64>(6, o);
    }
    if let Some(i) = info {
        fbb.push_slot_always(8, i);
    }
    if let Some(c) = compression {
        fbb.push_slot_always::<i32>(4, c);
    }
    let table = fbb.end_table(start);
    fbb.finish_size_prefixed(table, Some("IOHE"));
    fbb.finished_data().to_vec()
}

#[test]
fn decode_header_with_all_fields() {
    let b = io_header(Some(1), Some(123456789012), Some("<dv/>"));
    let h = decode_io_header(&b).unwrap();
    assert_eq!(h.compression, CompressionType::LZ4);
    assert_eq!(h.data_table_offset, 123456789012);
    assert_eq!(h.info.as_deref(), Some("<dv/>"));
}

#[test]
fn decode_header_defaults() {
    let b = io_header(None, None, None);
    let h = decode_io_header(&b).unwrap();
    assert_eq!(h.compression, CompressionType::NONE);
    assert_eq!(h.data_table_offset, -1);
    assert_eq!(h.info, None);
}

#[test]
fn decode_header_negative_offset_and_unknown_compression() {
    let b = io_header(Some(7), Some(-5), None);
    let h = decode_io_header(&b).unwrap();
    assert_eq!(h.compression, CompressionType::Unknown(7));
    assert_eq!(h.data_table_offset, -5);
}

#[test]
fn decode_header_ignores_size_prefix() {
    let mut b = io_header(Some(3), Some(10), Some("x"));
    b[0] = 0;
    b[1] = 0;
    b[2] = 0;
    b[3] = 0;
    let h = decode_io_header(&b).unwrap();
    assert_eq!(h.compression, CompressionType::ZSTD);
    assert_eq!(h.info.as_deref(), Some("x"));
}

#[test]
fn decode_header_rejects_truncated() {
    let b = io_header(Some(1), Some(10), Some("some text"));
    assert!(decode_io_header(&b[..8]).is_none());
    for n in 0..b.len() {
        assert_eq!(decode_io_header(&b[..n]).is_some(), flatbuffers_accepts(&b[..n]), "prefix of length {}", n);
    }
}

#[test]
fn decode_header_agrees_with_flatbuffers_verifier() {
    let mut seed: u64 = 0x2545F4914F6CDD1D;
    let bases = [
        io_header(Some(1), Some(10), Some("some text")),
        io_header(None, Some(-3), None),
        io_header(Some(2), None, Some("é")),
        io_header(None, None, None),
    ];
    let mut accepted = 0;
    for base in bases.iter() {
        assert!(flatbuffers_accepts(base));
        for _ in 0..3000 {
            let mut b = base.clone();
            for _ in 0..2 {
                seed = seed.wrapping_mul(6364136223846793005).wrapping_add(1442695040888963407);
                let pos = ((seed >> 33) as usize) % b.len();
                let val = (seed >> 20) as u8;
                b[pos] = val;
            }
            let ours = decode_io_header(&b);
            assert_eq!(ours.is_some(), flatbuffers_accepts(&b), "{:?}", b);
            if ours.is_some() {
                accepted += 1;
            }
        }
    }
    assert!(accepted > 0);
}

#[test]
fn decode_header_rejects_bad_utf8() {
    let mut b = io_header(None, None, Some("abc"));
    let pos = b.windows(3).position(|w| w == b"abc").unwrap();
    b[pos] = 0xff;
    assert!(decode_io_header(&b).is_none());
}

#[test]
fn decode_header_rejects_missing_terminator() {
    let mut b = io_header(None, None, Some("abc"));
    let pos = b.windows(3).position(|w| w == b"abc").unwrap();
    b[pos + 3] = b'd';
    assert!(decode_io_header(&b).is_none());
}

#[test]
fn decode_header_rejects_root_out_of_bounds() {
    let mut b = io_header(Some(1), None, None);
    b[4] = 0xf0;
    b[5] = 0xff;
    assert!(decode_io_header(&b).is_none());
}

#[test]
fn packet_header_fields() {
    let h = PacketHeader::parse([2, 0, 0, 0, 0x10, 0x27, 0, 0]);
    assert_eq!(h.id, 2);
    assert_eq!(h.size, 10000);
    let h = PacketHeader::parse([0xff, 0xff, 0xff, 0xff, 0, 0, 0, 0x80]);
    assert_eq!(h.id, -1);
    assert_eq!(h.size, i32::MIN);
}

fn run_open(file: &[u8]) -> Result<OpenStep, FileReadError> {
    let (mut state, mut n) = Aedat4.open_start();
    let mut pos = 0;
    loop {
        let step = Aedat4.open_advance(state, &file[pos..pos + n])?;
        pos += n;
        match step {
            OpenStep::Read(s, m) => {
                state = s;
                n = m;
            }
            opened => return Ok(opened),
        }
    }
}

#[test]
fn open_reads_magic_size_and_header() {
    let (s, n) = Aedat4.open_start();
    assert!(matches!(s, OpenState::ReadMagic));
    assert_eq!(n, 14);
    let header = io_header(Some(0), Some(4242), None);
    let mut file = MAGIC.to_vec();
    file.extend_from_slice(&header);
    match run_open(&file) {
        Ok(OpenStep::Opened(d, tags)) => {
            assert_eq!(d.offset, 4242);
            assert_eq!(d.current_timestamp, 0);
            assert_eq!(d.current_frame, 1);
            assert!(d.metadata.is_none());
            assert!(tags.is_empty());
        }
        _ => panic!("not opened"),
    }
}

#[test]
fn open_header_size_step() {
    match Aedat4.open_advance(OpenState::ReadHeaderSize, &[0x10, 0x01, 0, 0]) {
        Ok(OpenStep::Read(OpenState::ReadHeader(272), 272)) => {}
        _ => panic!("unexpected step"),
    }
}

#[test]
fn open_rejects_bad_magic() {
    let mut file = b"#!AER-DAT2.0\r\n".to_vec();
    file.extend_from_slice(&io_header(None, None, None));
    assert!(matches!(run_open(&file), Err(FileReadError::InvalidMagicBytes)));
}

#[test]
fn open_rejects_malformed_header() {
    let mut file = MAGIC.to_vec();
    file.extend_from_slice(&[4, 0, 0, 0, 1, 2, 3, 4]);
    match run_open(&file) {
        Err(FileReadError::UnexpectedError(k, m)) => {
            assert_eq!(k, ErrorKind::InvalidData);
            assert_eq!(m, "IOHeader is malformed, expected a valid, size-prefixed flatbuffer.");
        }
        _ => panic!("expected an error"),
    }
}

#[test]
fn open_reads_metadata() {
    let xml = r#"<dv version="2.0"><node name="outInfo" path="/mainloop/Recorder/outInfo/"><node name="0" path="/mainloop/Recorder/outInfo/0/"><attr key="typeIdentifier" type="string">EVTS</attr><node name="info" path="/mainloop/Recorder/outInfo/0/info/"><attr key="sizeX" type="int">346</attr></node></node><node name="1" path="/mainloop/Recorder/outInfo/1/"><attr key="typeIdentifier" type="string">FRME</attr></node></node></dv>"#;
    let mut file = MAGIC.to_vec();
    file.extend_from_slice(&io_header(Some(1), Some(99), Some(xml)));
    match run_open(&file) {
        Ok(OpenStep::Opened(d, tags)) => {
            let m = d.metadata().clone();
            assert_eq!(m.compression, CompressionType::LZ4);
            assert_eq!(m.output_modules.len(), 2);
            assert_eq!(m.output_modules[0].output_name, "EVTS");
            assert_eq!(m.output_modules[0].output_info.size_x, Some(346));
            assert_eq!(m.output_modules[1].output_name, "FRME");
            assert!(tags.is_empty());
        }
        _ => panic!("not opened"),
    }
}

#[test]
fn open_reports_unexpected_tags() {
    let xml = r#"<dv><extra/><node path="/mainloop/Recorder/outInfo/0/"><attr key="typeIdentifier">EVTS</attr><note>x</note></node></dv>"#;
    let mut file = MAGIC.to_vec();
    file.extend_from_slice(&io_header(None, None, Some(xml)));
    match run_open(&file) {
        Ok(OpenStep::Opened(d, tags)) => {
            assert_eq!(tags, vec!["extra".to_string(), "note".to_string()]);
            assert_eq!(d.metadata().output_modules.len(), 1);
        }
        _ => panic!("not opened"),
    }
}

#[test]
fn open_succeeds_on_every_accepted_header() {
    for header in [
        io_header(None, None, None),
        io_header(Some(4), Some(i64::MIN), Some("")),
        io_header(Some(-1), None, Some("<dv/>")),
    ] {
        assert!(flatbuffers_accepts(&header));
        let mut file = MAGIC.to_vec();
        file.extend_from_slice(&header);
        assert!(matches!(run_open(&file), Ok(OpenStep::Opened(_, _))));
    }
}
