//! The binary layouts of the AEDAT 4 headers: the `IOHeader` table that follows the
//! magic bytes, and the fixed header that opens every packet. Both are FlatBuffers
//! layouts, little-endian.
use vstd::prelude::*;
use vstd::utf8::{decode_utf8, valid_utf8};
use crate::codec::{compression_of_code, CompressionType};
use crate::text::utf8_text;

verus! {

/// The unsigned 16-bit little-endian number at `b[p..p + 2]`.
pub open spec fn le_u16(b: Seq<u8>, p: int) -> int {
    b[p] + b[p + 1] * 256
}

/// The unsigned 32-bit little-endian number at `b[p..p + 4]`.
pub open spec fn le_u32(b: Seq<u8>, p: int) -> int {
    b[p] + b[p + 1] * 0x100 + b[p + 2] * 0x1_0000 + b[p + 3] * 0x100_0000
}

/// The 32-bit two's complement number whose bits read as `u`.
pub open spec fn as_i32(u: int) -> int {
    if u >= 0x8000_0000 {
        u - 0x1_0000_0000
    } else {
        u
    }
}

/// The signed 32-bit little-endian number at `b[p..p + 4]`.
pub open spec fn le_i32(b: Seq<u8>, p: int) -> int {
    as_i32(le_u32(b, p))
}

/// The signed 64-bit little-endian number at `b[p..p + 8]`.
pub open spec fn le_i64(b: Seq<u8>, p: int) -> int {
    le_i32(b, p + 4) * 0x1_0000_0000 + le_u32(b, p)
}

/// A value of `size` bytes fits at `p` in `b`.
pub open spec fn fits(b: Seq<u8>, p: int, size: int) -> bool {
    0 <= p && p + size <= b.len()
}

/// Where the root table of the size-prefixed buffer `b` starts.
pub open spec fn table_pos(b: Seq<u8>) -> int {
    4 + le_u32(b, 4)
}

/// Where the vtable of the root table starts: the table's first word is a signed
/// offset back to it.
pub open spec fn vtable_pos(b: Seq<u8>) -> int {
    table_pos(b) - le_i32(b, table_pos(b))
}

/// The size in bytes of the root table's vtable.
pub open spec fn vtable_len(b: Seq<u8>) -> int {
    le_u16(b, vtable_pos(b))
}

/// The root offset, the root table's first word and its vtable lie in `b`.
pub open spec fn table_readable(b: Seq<u8>) -> bool {
    let vt = vtable_pos(b);
    &&& fits(b, 4, 4)
    &&& fits(b, table_pos(b), 4)
    &&& fits(b, vt, 2)
    &&& vt + vtable_len(b) <= b.len()
}

/// Where the field with vtable slot `slot` of the root table lies, if it is present: its
/// vtable entry lies within the vtable and is not zero.
pub open spec fn field_pos(b: Seq<u8>, slot: int) -> Option<int> {
    let vt = vtable_pos(b);
    if slot + 2 <= vtable_len(b) && le_u16(b, vt + slot) > 0 {
        Some(table_pos(b) + le_u16(b, vt + slot))
    } else {
        None
    }
}

/// The vtable slot of the `compression` field.
pub open spec fn slot_compression() -> int {
    4
}

/// The vtable slot of the `data_table_offset` field.
pub open spec fn slot_data_table_offset() -> int {
    6
}

/// The vtable slot of the `info` field.
pub open spec fn slot_info() -> int {
    8
}

/// Where the string that the offset at `p` points to starts (its length word).
pub open spec fn string_pos(b: Seq<u8>, p: int) -> int {
    p + le_u32(b, p)
}

/// The length in bytes of the string that the offset at `p` points to.
pub open spec fn string_len(b: Seq<u8>, p: int) -> int {
    le_u32(b, string_pos(b, p))
}

/// The bytes of the string that the offset at `p` points to.
pub open spec fn string_bytes(b: Seq<u8>, p: int) -> Seq<u8> {
    let start = string_pos(b, p) + 4;
    b.subrange(start, start + string_len(b, p))
}

/// The offset at `p` points to a string that lies in `b` and is valid UTF-8.
pub open spec fn string_readable(b: Seq<u8>, p: int) -> bool {
    let sp = string_pos(b, p);
    &&& fits(b, p, 4)
    &&& fits(b, sp, 4)
    &&& sp + 4 + string_len(b, p) <= b.len()
    &&& valid_utf8(string_bytes(b, p))
}

/// Every field of the root table that is present lies in `b`.
pub open spec fn fields_readable(b: Seq<u8>) -> bool {
    &&& (field_pos(b, slot_compression()) matches Some(p) ==> fits(b, p, 4))
    &&& (field_pos(b, slot_data_table_offset()) matches Some(p) ==> fits(b, p, 8))
    &&& (field_pos(b, slot_info()) matches Some(p) ==> string_readable(b, p))
}

/// What the `IOHeader` of a recording holds.
pub struct IoHeaderView {
    pub compression: CompressionType,
    pub data_table_offset: i64,
    pub info: Option<Seq<char>>,
}

/// The value that `data_table_offset` has when the field is absent.
pub open spec fn default_data_table_offset() -> i64 {
    -1i64
}

/// The fields of the `IOHeader` table in the size-prefixed buffer `b`, read through its
/// vtable, if they lie in `b`; absent fields take their defaults.
pub open spec fn io_header_of(b: Seq<u8>) -> Option<IoHeaderView> {
    if table_readable(b) && fields_readable(b) {
        Some(IoHeaderView {
            compression: match field_pos(b, slot_compression()) {
                Some(p) => compression_of_code(le_i32(b, p) as i32),
                None => CompressionType::NONE,
            },
            data_table_offset: match field_pos(b, slot_data_table_offset()) {
                Some(p) => le_i64(b, p) as i64,
                None => default_data_table_offset(),
            },
            info: match field_pos(b, slot_info()) {
                Some(p) => Some(decode_utf8(string_bytes(b, p))),
                None => None,
            },
        })
    } else {
        None
    }
}

/// Whether the FlatBuffers verifier accepts `b` as a size-prefixed `IOHeader` buffer.
pub uninterp spec fn flatbuffers_accepts_io_header(b: Seq<u8>) -> bool;

/// The `IOHeader` that a size-prefixed buffer holds: none when the FlatBuffers verifier
/// rejects the buffer, else its fields.
pub open spec fn decoded_io_header(b: Seq<u8>) -> Option<IoHeaderView> {
    if flatbuffers_accepts_io_header(b) {
        io_header_of(b)
    } else {
        None
    }
}

/// `b1` and `b2` differ at most in their first four bytes, the size prefix.
pub open spec fn same_after_prefix(b1: Seq<u8>, b2: Seq<u8>) -> bool {
    b1.len() == b2.len() && forall|i: int| 4 <= i < b1.len() ==> b1[i] == b2[i]
}

proof fn lemma_same_numbers(b1: Seq<u8>, b2: Seq<u8>, p: int)
    requires
        same_after_prefix(b1, b2),
        4 <= p,
    ensures
        p + 2 <= b1.len() ==> le_u16(b1, p) == le_u16(b2, p),
        p + 4 <= b1.len() ==> le_u32(b1, p) == le_u32(b2, p) && le_i32(b1, p) == le_i32(b2, p),
        p + 8 <= b1.len() ==> le_i64(b1, p) == le_i64(b2, p),
{
}

proof fn lemma_same_string(b1: Seq<u8>, b2: Seq<u8>, p: int)
    requires
        same_after_prefix(b1, b2),
        4 <= p,
    ensures
        string_readable(b1, p) == string_readable(b2, p),
        string_readable(b1, p) ==> string_bytes(b1, p) == string_bytes(b2, p),
{
    if fits(b1, p, 4) {
        lemma_same_numbers(b1, b2, p);
        let sp = string_pos(b1, p);
        if fits(b1, sp, 4) {
            lemma_same_numbers(b1, b2, sp);
            if sp + 4 + string_len(b1, p) <= b1.len() {
                assert(string_bytes(b1, p) =~= string_bytes(b2, p));
            }
        }
    }
}

/// Reading the header never looks at the size prefix: two buffers that differ only there
/// give the same fields, unless the root table's vtable lies in the prefix.
pub proof fn lemma_size_prefix_not_read(b1: Seq<u8>, b2: Seq<u8>)
    requires
        same_after_prefix(b1, b2),
        fits(b1, 4, 4) && fits(b1, table_pos(b1), 4) ==> !(0 <= vtable_pos(b1) < 4),
    ensures
        io_header_of(b1) == io_header_of(b2),
{
    if fits(b1, 4, 4) {
        lemma_same_numbers(b1, b2, 4);
        let t = table_pos(b1);
        if fits(b1, t, 4) {
            lemma_same_numbers(b1, b2, t);
            let vt = vtable_pos(b1);
            if fits(b1, vt, 2) {
                lemma_same_numbers(b1, b2, vt);
                let vl = vtable_len(b1);
                if vt + vl <= b1.len() {
                    lemma_same_numbers(b1, b2, vt + 4);
                    lemma_same_numbers(b1, b2, vt + 6);
                    lemma_same_numbers(b1, b2, vt + 8);
                    assert(field_pos(b1, 4) == field_pos(b2, 4));
                    assert(field_pos(b1, 6) == field_pos(b2, 6));
                    assert(field_pos(b1, 8) == field_pos(b2, 8));
                    if let Some(p) = field_pos(b1, 4) {
                        lemma_same_numbers(b1, b2, p);
                    }
                    if let Some(p) = field_pos(b1, 6) {
                        lemma_same_numbers(b1, b2, p);
                    }
                    if let Some(p) = field_pos(b1, 8) {
                        lemma_same_string(b1, b2, p);
                    }
                }
            }
        }
    }
}

#[verifier::external_type_specification]
#[verifier::external_body]
pub struct ExVerifier<'opts, 'buf>(flatbuffers::Verifier<'opts, 'buf>);

#[verifier::external_type_specification]
#[verifier::external_body]
pub struct ExInvalidFlatbuffer(flatbuffers::InvalidFlatbuffer);

/// The `IOHeader` table as the schema describes it to the FlatBuffers verifier: a table
/// whose optional fields are an `i32` in slot 4, an `i64` in slot 6 and a string in slot 8.
pub struct IoHeaderSchema;

impl flatbuffers::Verifiable for IoHeaderSchema {
    /// Checks the table at `pos` and its fields with `Verifier::visit_table` and
    /// `visit_field`, as the code that `flatc` generates for the schema does. Nothing is
    /// stated of it; what the whole check concludes is named by
    /// `flatbuffers_accepts_io_header`.
    #[verifier::external_body]
    fn run_verifier(v: &mut flatbuffers::Verifier, pos: usize) -> Result<(), flatbuffers::InvalidFlatbuffer> {
        v.visit_table(pos)?
            .visit_field::<i32>("compression", 4, false)?
            .visit_field::<i64>("dataTableOffset", 6, false)?
            .visit_field::<flatbuffers::ForwardsUOffset<&str>>("info", 8, false)?
            .finish();
        Ok(())
    }
}

/// Runs the FlatBuffers verifier over `b` as a size-prefixed `IOHeader` buffer, as
/// `flatbuffers::size_prefixed_root` does (default options: alignment, bounds, vtable,
/// null-terminated UTF-8 strings, size limits). The verdict is a function of the bytes
/// alone, left to the name `flatbuffers_accepts_io_header`. What the source of the
/// verifier shows is stated of it: a buffer it accepts has its root offset, table,
/// vtable and present fields within bounds (`Verifier::in_buffer`, `range_in_buffer`,
/// `deref_soffset`, `visit_table`, `TableVerifier::deref`; a vtable's size is even, so an
/// entry below it lies in it), and its string field is valid UTF-8 (`core::str::from_utf8`
/// in the verifier of `&str`).
#[verifier::external_body]
fn verify_io_header(b: &[u8]) -> (r: bool)
    ensures
        r == flatbuffers_accepts_io_header(b@),
        r ==> table_readable(b@) && fields_readable(b@),
{
    let opts = flatbuffers::VerifierOptions::default();
    let mut v = flatbuffers::Verifier::new(&opts, b);
    <flatbuffers::SkipSizePrefix<flatbuffers::ForwardsUOffset<IoHeaderSchema>> as flatbuffers::Verifiable>::run_verifier(&mut v, 0).is_ok()
}

/// The `IOHeader` of a recording.
#[derive(Debug)]
pub struct IoHeader {
    /// The compression of every packet.
    pub compression: CompressionType,
    /// Where the table of packet positions starts in the file.
    pub data_table_offset: i64,
    /// The XML description of the recording.
    pub info: Option<String>,
}

impl View for IoHeader {
    type V = IoHeaderView;

    open spec fn view(&self) -> IoHeaderView {
        IoHeaderView {
            compression: self.compression,
            data_table_offset: self.data_table_offset,
            info: match self.info {
                Some(s) => Some(s@),
                None => None,
            },
        }
    }
}

fn read_u16(b: &[u8], p: usize) -> (r: u16)
    requires
        p + 2 <= b@.len(),
    ensures
        r == le_u16(b@, p as int),
{
    (b[p] as u16) + (b[p + 1] as u16) * 256
}

pub(crate) fn read_u32(b: &[u8], p: usize) -> (r: u32)
    requires
        p + 4 <= b@.len(),
    ensures
        r == le_u32(b@, p as int),
{
    (b[p] as u32) + (b[p + 1] as u32) * 0x100 + (b[p + 2] as u32) * 0x1_0000 + (b[p + 3] as u32)
        * 0x100_0000
}

fn read_i32(b: &[u8], p: usize) -> (r: i32)
    requires
        p + 4 <= b@.len(),
    ensures
        r == le_i32(b@, p as int),
{
    let u = read_u32(b, p);
    if u >= 0x8000_0000 {
        ((u as i64) - 0x1_0000_0000) as i32
    } else {
        u as i32
    }
}

fn read_i64(b: &[u8], p: usize) -> (r: i64)
    requires
        p + 8 <= b.len(),
    ensures
        r == le_i64(b@, p as int),
{
    let hi = read_i32(b, p + 4) as i64;
    let lo = read_u32(b, p) as i64;
    hi * 0x1_0000_0000 + lo
}

/// Where a present field of the root table lies, or `None` when it is absent.
/// `Err` when its position is past the end of `b`.
fn find_field(b: &[u8], t: usize, vt: usize, vl: usize, slot: usize) -> (r: Result<Option<usize>, ()>)
    requires
        table_readable(b@),
        t == table_pos(b@),
        vt == vtable_pos(b@),
        vl == vtable_len(b@),
        slot == 4 || slot == 6 || slot == 8,
    ensures
        match r {
            Ok(Some(p)) => field_pos(b@, slot as int) == Some(p as int),
            Ok(None) => field_pos(b@, slot as int) is None,
            Err(()) => field_pos(b@, slot as int) matches Some(p) && p > b@.len(),
        },
{
    proof {
        broadcast use vstd::slice::axiom_spec_len;
        assert(b@.len() == b.len());
    }
    if slot + 2 <= vl {
        let fo = read_u16(b, vt + slot) as usize;
        if fo == 0 {
            Ok(None)
        } else if fo > b.len() - t {
            Err(())
        } else {
            Ok(Some(t + fo))
        }
    } else {
        Ok(None)
    }
}

/// The text of the string that the offset at `p` points to, if `string_readable(b, p)`.
fn read_string(b: &[u8], p: usize) -> (r: Option<String>)
    ensures
        r is Some <==> string_readable(b@, p as int),
        r matches Some(s) ==> s@ == decode_utf8(string_bytes(b@, p as int)),
{
    let len = b.len();
    if len < 4 || p > len - 4 {
        return None;
    }
    let off = read_u32(b, p) as usize;
    if off > len - p {
        return None;
    }
    let sp = p + off;
    if len < 4 || sp > len - 4 {
        return None;
    }
    let n = read_u32(b, sp) as usize;
    let start = sp + 4;
    if n > len - start {
        return None;
    }
    let end = start + n;
    let mut bytes: Vec<u8> = Vec::new();
    let mut i: usize = start;
    while i < end
        invariant
            start <= i <= end <= b@.len(),
            bytes@ == b@.subrange(start as int, i as int),
        decreases end - i,
    {
        bytes.push(b[i]);
        i = i + 1;
        assert(bytes@ =~= b@.subrange(start as int, i as int));
    }
    assert(bytes@ == string_bytes(b@, p as int));
    utf8_text(bytes.as_slice())
}

/// Where the root table, its vtable and the vtable's size lie, if `table_readable(b)`.
fn locate_table(b: &[u8]) -> (r: Option<(usize, usize, usize)>)
    ensures
        r is Some <==> table_readable(b@),
        r matches Some((t, vt, vl)) ==> t == table_pos(b@) && vt == vtable_pos(b@) && vl
            == vtable_len(b@),
{
    let len = b.len();
    if len < 8 {
        return None;
    }
    let root = read_u32(b, 4) as usize;
    if root > len - 8 {
        return None;
    }
    let t = 4 + root;
    let so = read_i32(b, t);
    let vt: usize;
    if so > 0 {
        if (so as usize) > t {
            return None;
        }
        vt = t - so as usize;
    } else {
        let back = (-(so as i64)) as usize;
        if back >= len - t {
            return None;
        }
        vt = t + back;
    }
    if vt >= len || len - vt < 2 {
        return None;
    }
    let vl = read_u16(b, vt) as usize;
    if vl > len - vt {
        return None;
    }
    Some((t, vt, vl))
}

/// Decodes the `IOHeader` table of a size-prefixed FlatBuffers buffer, as
/// `size_prefixed_root` does: the buffer is checked by the FlatBuffers verifier, then
/// the fields are read through the table's vtable (the size prefix itself is not read).
pub fn decode_io_header(b: &[u8]) -> (r: Option<IoHeader>)
    ensures
        r is Some <==> flatbuffers_accepts_io_header(b@),
        match r {
            Some(h) => decoded_io_header(b@) == Some(h@),
            None => decoded_io_header(b@) is None,
        },
{
    if !verify_io_header(b) {
        return None;
    }
    let len = b.len();
    let (t, vt, vl) = match locate_table(b) {
        Some(x) => x,
        None => return None,
    };
    let compression_at = match find_field(b, t, vt, vl, 4) {
        Ok(x) => x,
        Err(()) => return None,
    };
    let offset_at = match find_field(b, t, vt, vl, 6) {
        Ok(x) => x,
        Err(()) => return None,
    };
    let info_at = match find_field(b, t, vt, vl, 8) {
        Ok(x) => x,
        Err(()) => return None,
    };
    let compression = match compression_at {
        Some(p) => {
            if p > len - 4 {
                return None;
            }
            CompressionType::from_code(read_i32(b, p))
        },
        None => CompressionType::NONE,
    };
    let data_table_offset = match offset_at {
        Some(p) => {
            if p > len - 8 {
                return None;
            }
            read_i64(b, p)
        },
        None => -1,
    };
    let info = match info_at {
        Some(p) => match read_string(b, p) {
            Some(s) => Some(s),
            None => return None,
        },
        None => None,
    };
    Some(IoHeader { compression, data_table_offset, info })
}

/// The fixed header that opens every packet.
#[derive(Debug, Clone, Copy)]
pub struct PacketHeader {
    /// The stream the packet belongs to.
    pub id: i32,
    /// The size in bytes of the (compressed) packet that follows.
    pub size: i32,
}

impl PacketHeader {
    /// Reads a packet header: the stream id, then the packet size, each a signed 32-bit
    /// little-endian number.
    pub fn parse(bytes: [u8; 8]) -> (h: PacketHeader)
        ensures
            h.id == le_i32(bytes@, 0),
            h.size == le_i32(bytes@, 4),
    {
        let b: &[u8] = &bytes;
        PacketHeader { id: read_i32(b, 0), size: read_i32(b, 4) }
    }
}

} // verus!
