//! Decoder for the AEDAT4 file format described at
//! <https://docs.inivation.com/software/software-advanced-usage/file-formats/aedat-4.0.html>.
use vstd::prelude::*;
use vstd::utf8::{decode_utf8, valid_utf8};
use crate::codec::{Codec, CompressionType, Packet, PacketContent, VideoMetadata, VideoMetadataView};
use crate::error::{DecodeError, ErrorKind, FileReadError};
use crate::file::{aedat4_format, aedat4_magic, FileFormat};
use crate::flatbuf::{decode_io_header, decoded_io_header, flatbuffers_accepts_io_header, le_i32, le_u32, read_u32, IoHeaderView, PacketHeader};
use crate::metadata::{
    collect_output_modules, listed_modules, metadata_events, texts_view, unexpected_tags, unexpected_tags_of,
    xml_events,
};

verus! {

/// Struct representing the state of AEDAT4 codec.
pub struct Aedat4;

/// `p` is a prefix of `s`.
pub open spec fn is_byte_prefix(p: Seq<u8>, s: Seq<u8>) -> bool {
    p.len() <= s.len() && s.subrange(0, p.len() as int) == p
}

fn bytes_start_with(data: &[u8], p: &[u8]) -> (r: bool)
    ensures
        r == is_byte_prefix(p@, data@),
{
    if p.len() > data.len() {
        return false;
    }
    let mut i: usize = 0;
    while i < p.len()
        invariant
            p@.len() <= data@.len(),
            i <= p@.len(),
            forall|j: int| 0 <= j < i ==> data@[j] == p@[j],
        decreases p@.len() - i,
    {
        if data[i] != p[i] {
            assert(data@.subrange(0, p@.len() as int)[i as int] != p@[i as int]);
            return false;
        }
        i = i + 1;
    }
    assert(data@.subrange(0, p@.len() as int) =~= p@);
    true
}

impl Codec for Aedat4 {
    fn format(&self) -> (f: FileFormat)
        ensures
            f.magic_bytes matches Some(m) && m@ == aedat4_magic(),
            f.name@ == "AEDAT 4"@,
            f.extension@ == "aedat4"@,
    {
        aedat4_format()
    }

    fn validate(&self, data: &[u8]) -> (r: Result<(), FileReadError>)
        ensures
            r is Ok <==> is_byte_prefix(aedat4_magic(), data@),
            r is Err ==> r matches Err(FileReadError::InvalidMagicBytes),
    {
        let magic = match self.format().magic_bytes {
            Some(m) => m,
            None => return Err(FileReadError::InvalidMagicBytes),
        };
        if !bytes_start_with(data, magic) {
            return Err(FileReadError::InvalidMagicBytes);
        }
        Ok(())
    }
}

/// Validation reads only the magic bytes: once `data` holds as many bytes as they have,
/// whatever follows does not change whether `data` is accepted.
pub proof fn lemma_validate_reads_only_magic(data: Seq<u8>, more: Seq<u8>)
    requires
        data.len() >= aedat4_magic().len(),
    ensures
        is_byte_prefix(aedat4_magic(), data) == is_byte_prefix(aedat4_magic(), data + more),
{
    let n = aedat4_magic().len() as int;
    assert((data + more).subrange(0, n) =~= data.subrange(0, n));
}

/// Where opening a recording stands: what it reads next.
#[derive(Debug, Clone, Copy)]
pub enum OpenState {
    /// The magic bytes.
    ReadMagic,
    /// The size of the `IOHeader`.
    ReadHeaderSize,
    /// The `IOHeader`, of the given size.
    ReadHeader(u32),
}

impl OpenState {
    /// How many bytes are read in this state.
    pub open spec fn wanted(self) -> int {
        match self {
            OpenState::ReadMagic => aedat4_magic().len() as int,
            OpenState::ReadHeaderSize => 4,
            OpenState::ReadHeader(n) => n as int,
        }
    }
}

/// What opening a recording does after a read: read more, or start decoding.
pub enum OpenStep {
    /// Read the given number of bytes in the given state.
    Read(OpenState, usize),
    /// The header is read and packets follow; the names of the elements of the header's
    /// XML description that the module list does not expect come with it.
    Opened(Aedat4Decoder, Vec<String>),
}

/// The message of the error for a malformed `IOHeader`.
pub open spec fn malformed_header_message() -> Seq<char> {
    "IOHeader is malformed, expected a valid, size-prefixed flatbuffer."@
}

/// The metadata of a recording with the header `h`: none when the header has no XML
/// description, else the modules that the description lists.
pub open spec fn metadata_of(h: IoHeaderView) -> Option<VideoMetadataView> {
    match h.info {
        Some(info) => Some(
            VideoMetadataView { output_modules: listed_modules(xml_events(info)), compression: h.compression },
        ),
        None => None,
    }
}

/// The names of the elements of the XML description of the header `h` that the module
/// list does not expect.
pub open spec fn unexpected_tags_of_header(h: IoHeaderView) -> Seq<Seq<char>> {
    match h.info {
        Some(info) => unexpected_tags(xml_events(info)),
        None => Seq::empty(),
    }
}

/// The buffer that the `IOHeader` is decoded from: four zero bytes in place of a size
/// prefix, then the header bytes.
pub open spec fn header_buffer(bytes: Seq<u8>) -> Seq<u8> {
    seq![0u8, 0u8, 0u8, 0u8] + bytes
}

/// The view of an optional metadata.
pub open spec fn opt_metadata(m: Option<VideoMetadata>) -> Option<VideoMetadataView> {
    match m {
        Some(v) => Some(v@),
        None => None,
    }
}

impl Aedat4 {
    /// Opening a recording starts by reading its magic bytes.
    pub fn open_start(&self) -> (r: (OpenState, usize))
        ensures
            r.0 == OpenState::ReadMagic,
            r.1 == aedat4_magic().len(),
    {
        (OpenState::ReadMagic, 14)
    }

    /// The next step of opening a recording, after the bytes that `state` reads were read:
    /// the magic bytes are checked, then the header size read, then the `IOHeader` decoded
    /// and its XML description read into the metadata.
    pub fn open_advance(&self, state: OpenState, bytes: &[u8]) -> (r: Result<OpenStep, FileReadError>)
        requires
            bytes@.len() == state.wanted(),
        ensures
            state == OpenState::ReadMagic ==> {
                if is_byte_prefix(aedat4_magic(), bytes@) {
                    r matches Ok(OpenStep::Read(s, n)) && s == OpenState::ReadHeaderSize && n == 4
                } else {
                    r matches Err(FileReadError::InvalidMagicBytes)
                }
            },
            state == OpenState::ReadHeaderSize ==> (r matches Ok(OpenStep::Read(s, n)) && s
                == OpenState::ReadHeader(le_u32(bytes@, 0) as u32) && n == le_u32(bytes@, 0)),
            state is ReadHeader ==> (match decoded_io_header(header_buffer(bytes@)) {
                None => r matches Err(FileReadError::UnexpectedError(k, m)) && k == ErrorKind::InvalidData
                    && m@ == malformed_header_message(),
                Some(h) => r matches Ok(OpenStep::Opened(d, tags)) && d.offset == h.data_table_offset
                    && d.current_timestamp == 0 && d.current_frame == 1 && opt_metadata(d.metadata)
                    == metadata_of(h) && texts_view(tags@) == unexpected_tags_of_header(h),
            }),
            state is ReadHeader && flatbuffers_accepts_io_header(header_buffer(bytes@)) ==> (
            r matches Ok(OpenStep::Opened(_, _))),
    {
        match state {
            OpenState::ReadMagic => {
                self.validate(bytes)?;
                Ok(OpenStep::Read(OpenState::ReadHeaderSize, 4))
            },
            OpenState::ReadHeaderSize => {
                let size = read_u32(bytes, 0);
                Ok(OpenStep::Read(OpenState::ReadHeader(size), size as usize))
            },
            OpenState::ReadHeader(_) => {
                let mut buffer: Vec<u8> = vec![0u8, 0u8, 0u8, 0u8];
                let mut i: usize = 0;
                while i < bytes.len()
                    invariant
                        i <= bytes@.len(),
                        buffer@ == header_buffer(bytes@.take(i as int)),
                    decreases bytes@.len() - i,
                {
                    buffer.push(bytes[i]);
                    i = i + 1;
                    assert(buffer@ =~= header_buffer(bytes@.take(i as int)));
                }
                assert(bytes@.take(bytes@.len() as int) =~= bytes@);
                match decode_io_header(buffer.as_slice()) {
                    None => Err(
                        FileReadError::UnexpectedError(
                            ErrorKind::InvalidData,
                            String::from_str(
                                "IOHeader is malformed, expected a valid, size-prefixed flatbuffer.",
                            ),
                        ),
                    ),
                    Some(header) => {
                        let (metadata, tags) = match &header.info {
                            Some(info) => {
                                let events = metadata_events(info.as_str());
                                let modules = collect_output_modules(&events);
                                let tags = unexpected_tags_of(&events);
                                (
                                    Some(VideoMetadata { output_modules: modules, compression: header.compression }),
                                    tags,
                                )
                            },
                            None => {
                                let tags: Vec<String> = Vec::new();
                                assert(texts_view(tags@) =~= Seq::<Seq<char>>::empty());
                                (None, tags)
                            },
                        };
                        Ok(OpenStep::Opened(Aedat4Decoder::new(header.data_table_offset, metadata), tags))
                    },
                }
            },
        }
    }
}

/// State for the AEDAT4 decoder.
pub struct Aedat4Decoder {
    /// Where the table of packet positions starts in the file.
    pub offset: i64,
    /// The current timestamp in microseconds.
    pub current_timestamp: i64,
    /// The current frame number.
    pub current_frame: i64,
    /// The metadata for the video.
    pub metadata: Option<VideoMetadata>,
}

/// What `lz4::Decoder` gives for the input `data`: the bytes of the LZ4 frame it
/// decompresses, or the text of the error it reports.
pub uninterp spec fn lz4_decoded(data: Seq<u8>) -> Result<Seq<u8>, Seq<char>>;

/// Decompresses `data` with `lz4::Decoder`, read to its end. The outcome is a function
/// of `data` alone, left to the name `lz4_decoded`; an error is reported by its text.
/// The decoder's context is allocated first, and a failure to allocate it panics.
#[verifier::external_body]
fn lz4_decompress(data: &[u8]) -> (r: Result<Vec<u8>, String>)
    ensures
        match r {
            Ok(v) => lz4_decoded(data@) == Ok::<Seq<u8>, Seq<char>>(v@),
            Err(m) => lz4_decoded(data@) == Err::<Seq<u8>, Seq<char>>(m@),
        },
{
    let mut decoder = lz4::Decoder::new(std::io::Cursor::new(data)).expect("decoder failed to init");
    let mut decompressed = Vec::new();
    match std::io::Read::read_to_end(&mut decoder, &mut decompressed) {
        Ok(_) => Ok(decompressed),
        Err(e) => Err(e.to_string()),
    }
}

/// What `String::from_utf8_lossy` makes of `bytes`.
pub uninterp spec fn utf8_lossy(bytes: Seq<u8>) -> Seq<char>;

/// The text of `bytes` by `String::from_utf8_lossy`, which, as its documentation says,
/// decodes valid UTF-8 as is; how it replaces invalid sequences is left to the name
/// `utf8_lossy`.
#[verifier::external_body]
fn lossy_text(bytes: &[u8]) -> (r: String)
    ensures
        r@ == utf8_lossy(bytes@),
        valid_utf8(bytes@) ==> r@ == decode_utf8(bytes@),
{
    String::from_utf8_lossy(bytes).into_owned()
}

/// The kind of data that a packet carries.
#[derive(Debug, Clone, Copy, PartialEq, Eq, Structural)]
pub enum PacketKind {
    Event,
    Frame,
    Imu,
    Trigger,
}

/// The bytes that identify what a decompressed packet carries.
pub open spec fn packet_identifier(buffer: Seq<u8>) -> Seq<u8> {
    buffer.subrange(8, 12)
}

/// The kind named by the identifier `EVTS`, `FRME`, `IMUS` or `TRIG`.
pub open spec fn kind_of_identifier(tag: Seq<u8>) -> Option<PacketKind> {
    if tag == seq![0x45u8, 0x56, 0x54, 0x53] {
        Some(PacketKind::Event)
    } else if tag == seq![0x46u8, 0x52, 0x4d, 0x45] {
        Some(PacketKind::Frame)
    } else if tag == seq![0x49u8, 0x4d, 0x55, 0x53] {
        Some(PacketKind::Imu)
    } else if tag == seq![0x54u8, 0x52, 0x49, 0x47] {
        Some(PacketKind::Trigger)
    } else {
        None
    }
}

/// The kind of a packet.
pub open spec fn kind_of_packet(p: Packet) -> PacketKind {
    match p {
        Packet::EventPacket(_) => PacketKind::Event,
        Packet::FramePacket(_) => PacketKind::Frame,
        Packet::ImuPacket(_) => PacketKind::Imu,
        Packet::TriggerPacket(_) => PacketKind::Trigger,
    }
}

/// The content of a packet.
pub open spec fn content_of_packet(p: Packet) -> PacketContent {
    match p {
        Packet::EventPacket(c) => c,
        Packet::FramePacket(c) => c,
        Packet::ImuPacket(c) => c,
        Packet::TriggerPacket(c) => c,
    }
}

/// `r` is what classifying the decompressed packet `buffer` of the stream `id` gives.
pub open spec fn classified(id: i32, buffer: Seq<u8>, r: Result<Packet, DecodeError>) -> bool {
    match kind_of_identifier(packet_identifier(buffer)) {
        Some(k) => r matches Ok(p) && kind_of_packet(p) == k && content_of_packet(p).id == id
            && content_of_packet(p).buffer@ == buffer,
        None => r matches Err(DecodeError::UnexpectedError(e, m)) && e == ErrorKind::Other && m@
            == "unknown identifier: "@ + utf8_lossy(packet_identifier(buffer)),
    }
}

/// The decompressed packet `buffer` of the stream `id`, by the identifier at
/// `buffer[8..12]`.
pub fn classify_packet(id: i32, buffer: Vec<u8>) -> (r: Result<Packet, DecodeError>)
    requires
        buffer@.len() >= 12,
    ensures
        classified(id, buffer@, r),
{
    let t0 = buffer[8];
    let t1 = buffer[9];
    let t2 = buffer[10];
    let t3 = buffer[11];
    let ghost tag = packet_identifier(buffer@);
    assert(tag =~= seq![t0, t1, t2, t3]);
    let content = PacketContent { id, buffer };
    if t0 == 0x45 && t1 == 0x56 && t2 == 0x54 && t3 == 0x53 {
        Ok(Packet::EventPacket(content))
    } else if t0 == 0x46 && t1 == 0x52 && t2 == 0x4d && t3 == 0x45 {
        Ok(Packet::FramePacket(content))
    } else if t0 == 0x49 && t1 == 0x4d && t2 == 0x55 && t3 == 0x53 {
        Ok(Packet::ImuPacket(content))
    } else if t0 == 0x54 && t1 == 0x52 && t2 == 0x49 && t3 == 0x47 {
        Ok(Packet::TriggerPacket(content))
    } else {
        assert(tag != seq![0x45u8, 0x56, 0x54, 0x53]);
        assert(tag != seq![0x46u8, 0x52, 0x4d, 0x45]);
        assert(tag != seq![0x49u8, 0x4d, 0x55, 0x53]);
        assert(tag != seq![0x54u8, 0x52, 0x49, 0x47]);
        let identifier = lossy_text(&[t0, t1, t2, t3]);
        Err(
            DecodeError::UnexpectedError(
                ErrorKind::Other,
                String::from_str("unknown identifier: ").concat(identifier.as_str()),
            ),
        )
    }
}

/// What decompressing `data` compressed with `c` gives.
pub open spec fn decompressed(c: CompressionType, data: Seq<u8>) -> Result<Seq<u8>, Seq<char>> {
    if c == CompressionType::NONE {
        Ok(data)
    } else {
        lz4_decoded(data)
    }
}

/// Decompressing depends on nothing but the compression and the data: for the
/// compressions that the decoder handles, equal data decompress to equal results (the
/// decoder itself is only read).
pub proof fn lemma_decompress_depends_only_on_its_input(
    compression: CompressionType,
    data1: Seq<u8>,
    data2: Seq<u8>,
)
    requires
        compression == CompressionType::NONE || compression == CompressionType::LZ4,
        data1 == data2,
    ensures
        decompressed(compression, data1) == decompressed(compression, data2),
{
}

/// The outcome of decoding a packet whose decompressed bytes were read.
pub enum PacketDecoding {
    /// The packet.
    Decoded(Packet),
    /// The decompressed bytes, of the given length, are too short to hold an identifier.
    ShortPayload(usize),
}

impl Aedat4Decoder {
    /// A decoder for the packets that follow a header with the given data table offset
    /// and metadata.
    pub fn new(offset: i64, metadata: Option<VideoMetadata>) -> (d: Aedat4Decoder)
        ensures
            d.offset == offset,
            d.current_timestamp == 0,
            d.current_frame == 1,
            d.metadata == metadata,
    {
        Aedat4Decoder { offset, current_timestamp: 0, current_frame: 1, metadata }
    }

    /// Get metadata about the decoded video.
    pub fn metadata(&self) -> (m: &VideoMetadata)
        requires
            self.metadata is Some,
        ensures
            self.metadata == Some(*m),
    {
        self.metadata.as_ref().unwrap()
    }

    /// Decompresses the packet `data`: as it is when `compression` is `NONE`, with the
    /// LZ4 frame decoder when it is `LZ4`.
    pub fn decompress(&self, compression: CompressionType, data: &[u8]) -> (r: Result<Vec<u8>, DecodeError>)
        requires
            compression == CompressionType::NONE || compression == CompressionType::LZ4,
        ensures
            match decompressed(compression, data@) {
                Ok(d) => r matches Ok(v) && v@ == d,
                Err(m) => r matches Err(DecodeError::UnexpectedError(k, t)) && k == ErrorKind::Other
                    && t@ == m,
            },
    {
        if compression == CompressionType::NONE {
            Ok(vstd::slice::slice_to_vec(data))
        } else {
            match lz4_decompress(data) {
                Ok(v) => Ok(v),
                Err(m) => Err(DecodeError::UnexpectedError(ErrorKind::Other, m)),
            }
        }
    }

    /// Decodes the packet `body` that followed `header`: decompresses it with the
    /// compression of the recording, then tells its kind by its identifier.
    pub fn decode_packet(&self, header: PacketHeader, body: &[u8]) -> (r: Result<PacketDecoding, DecodeError>)
        requires
            self.metadata matches Some(m) && (m.compression == CompressionType::NONE || m.compression
                == CompressionType::LZ4),
        ensures
            match decompressed(self.metadata.unwrap().compression, body@) {
                Err(m) => r matches Err(DecodeError::UnexpectedError(k, t)) && k == ErrorKind::Other
                    && t@ == m,
                Ok(d) => if d.len() < 12 {
                    r matches Ok(PacketDecoding::ShortPayload(n)) && n == d.len()
                } else {
                    match r {
                        Ok(PacketDecoding::Decoded(p)) => classified(header.id, d, Ok(p)),
                        Ok(PacketDecoding::ShortPayload(_)) => false,
                        Err(e) => classified(header.id, d, Err(e)),
                    }
                },
            },
    {
        let compression = self.metadata().compression;
        let decompressed = self.decompress(compression, body)?;
        if decompressed.len() < 12 {
            return Ok(PacketDecoding::ShortPayload(decompressed.len()));
        }
        match classify_packet(header.id, decompressed) {
            Ok(p) => Ok(PacketDecoding::Decoded(p)),
            Err(e) => Err(e),
        }
    }
}

/// The message of the error for a stream that ends inside a packet header.
pub open spec fn truncated_header_message() -> Seq<char> {
    "early eof"@
}

/// The start of the next packet, from the bytes read where its header should be: the
/// stream ends cleanly when no byte is left (`Ok(None)`), a full header of 8 bytes opens
/// a packet, and a stream that ends inside the header is an error.
pub fn begin_packet(header: &[u8]) -> (r: Result<Option<PacketHeader>, DecodeError>)
    requires
        header@.len() <= 8,
    ensures
        header@.len() == 0 ==> r matches Ok(None),
        header@.len() == 8 ==> (r matches Ok(Some(h)) && h.id == le_i32(header@, 0) && h.size
            == le_i32(header@, 4)),
        0 < header@.len() < 8 ==> (r matches Err(DecodeError::UnexpectedError(k, m)) && k
            == ErrorKind::Other && m@ == truncated_header_message()),
{
    if header.len() == 0 {
        Ok(None)
    } else if header.len() < 8 {
        Err(DecodeError::UnexpectedError(ErrorKind::Other, String::from_str("early eof")))
    } else {
        let bytes: [u8; 8] = [
            header[0],
            header[1],
            header[2],
            header[3],
            header[4],
            header[5],
            header[6],
            header[7],
        ];
        assert(bytes@ =~= header@);
        Ok(Some(PacketHeader::parse(bytes)))
    }
}

/// What collecting all packets does after asking for the next one.
pub enum CollectStep {
    /// A packet came; it is kept and the next one is asked for.
    Next(Vec<Packet>),
    /// The stream ended; these are all its packets.
    Finished(Vec<Packet>),
    /// Decoding failed; collecting stops with the error.
    Failed(DecodeError),
}

/// One step of collecting all packets of a stream, after `frames` were collected and
/// the next packet was asked for with the outcome `outcome`.
pub fn collect_step(frames: Vec<Packet>, outcome: Result<Option<Packet>, DecodeError>) -> (r: CollectStep)
    ensures
        outcome matches Ok(Some(p)) ==> (r matches CollectStep::Next(v) && v@ == frames@.push(p)),
        outcome is Ok && outcome->Ok_0 is None ==> (r matches CollectStep::Finished(v) && v@ == frames@),
        outcome matches Err(e) ==> (r matches CollectStep::Failed(e2) && e2 == e),
{
    match outcome {
        Ok(Some(p)) => {
            let mut v = frames;
            v.push(p);
            CollectStep::Next(v)
        },
        Ok(None) => CollectStep::Finished(frames),
        Err(e) => CollectStep::Failed(e),
    }
}

/// Decompressing a packet stored without compression gives back exactly its bytes, for
/// packets of every length.
pub proof fn lemma_no_compression_keeps_bytes(data: Seq<u8>)
    ensures
        decompressed(CompressionType::NONE, data) == Ok::<Seq<u8>, Seq<char>>(data),
{
}

/// The kind of a packet depends on bytes 8..12 of its decompressed buffer alone: two
/// buffers that agree there are both classified or both refused, and as the same kind.
pub proof fn lemma_packet_kind_depends_on_identifier_bytes(
    id: i32,
    b1: Seq<u8>,
    b2: Seq<u8>,
    r1: Result<Packet, DecodeError>,
    r2: Result<Packet, DecodeError>,
)
    requires
        b1.len() >= 12,
        b2.len() >= 12,
        b1[8] == b2[8] && b1[9] == b2[9] && b1[10] == b2[10] && b1[11] == b2[11],
        classified(id, b1, r1),
        classified(id, b2, r2),
    ensures
        r1 is Ok <==> r2 is Ok,
        r1 is Ok ==> kind_of_packet(r1->Ok_0) == kind_of_packet(r2->Ok_0),
{
    assert(packet_identifier(b1) =~= packet_identifier(b2));
}

/// The identifiers at bytes 8..12 of a decompressed buffer: `EVTS` gives an event packet,
/// `FRME` a frame packet, `IMUS` an IMU packet, `TRIG` a trigger packet, each holding the
/// stream id and the whole buffer; any other bytes are refused.
pub proof fn lemma_packet_identifiers(id: i32, b: Seq<u8>, r: Result<Packet, DecodeError>)
    requires
        b.len() >= 12,
        classified(id, b, r),
    ensures
        b[8] == 0x45 && b[9] == 0x56 && b[10] == 0x54 && b[11] == 0x53 ==> (r matches Ok(
            Packet::EventPacket(c),
        ) && c.id == id && c.buffer@ == b),
        b[8] == 0x46 && b[9] == 0x52 && b[10] == 0x4d && b[11] == 0x45 ==> (r matches Ok(
            Packet::FramePacket(c),
        ) && c.id == id && c.buffer@ == b),
        b[8] == 0x49 && b[9] == 0x4d && b[10] == 0x55 && b[11] == 0x53 ==> (r matches Ok(
            Packet::ImuPacket(c),
        ) && c.id == id && c.buffer@ == b),
        b[8] == 0x54 && b[9] == 0x52 && b[10] == 0x49 && b[11] == 0x47 ==> (r matches Ok(
            Packet::TriggerPacket(c),
        ) && c.id == id && c.buffer@ == b),
        !(b[8] == 0x45 && b[9] == 0x56 && b[10] == 0x54 && b[11] == 0x53) && !(b[8] == 0x46 && b[9]
            == 0x52 && b[10] == 0x4d && b[11] == 0x45) && !(b[8] == 0x49 && b[9] == 0x4d && b[10]
            == 0x55 && b[11] == 0x53) && !(b[8] == 0x54 && b[9] == 0x52 && b[10] == 0x49 && b[11]
            == 0x47) ==> r is Err,
{
    let tag = packet_identifier(b);
    assert(tag =~= seq![b[8], b[9], b[10], b[11]]);
}

/// A header with an XML description opens with metadata, whatever its compression, and
/// one without opens without; the metadata carries the header's compression, and its
/// modules depend on the description alone.
pub proof fn lemma_metadata_follows_description(h1: IoHeaderView, h2: IoHeaderView)
    ensures
        metadata_of(h1) is Some <==> h1.info is Some,
        metadata_of(h1) matches Some(m) ==> m.compression == h1.compression,
        h1.info == h2.info && h1.info is Some ==> metadata_of(h1)->Some_0.output_modules
            == metadata_of(h2)->Some_0.output_modules,
{
}

} // verus!
