use vstd::prelude::*;
use crate::error::FileReadError;
use crate::file::FileFormat;
use crate::text::{chars_equal, chars_of};

verus! {

/// Represents a codec which decodes / encodes a video file.
pub trait Codec {
    /// Returns the file format of the input file.
    fn format(&self) -> FileFormat;

    /// Validates the input data against the codec's file format.
    /// `data` should not be the entire file in bytes, but preferably just the header.
    fn validate(&self, data: &[u8]) -> Result<(), FileReadError>;
}

/// The compression applied to every packet of a recording.
#[allow(non_camel_case_types)]
#[derive(Debug, Clone, Copy, PartialEq, Eq, Structural)]
pub enum CompressionType {
    NONE,
    LZ4,
    LZ4_HIGH,
    ZSTD,
    ZSTD_HIGH,
    /// A code that names none of the known compressions.
    Unknown(i32),
}

/// The compression that the header code `code` stands for.
pub open spec fn compression_of_code(code: i32) -> CompressionType {
    if code == 0 {
        CompressionType::NONE
    } else if code == 1 {
        CompressionType::LZ4
    } else if code == 2 {
        CompressionType::LZ4_HIGH
    } else if code == 3 {
        CompressionType::ZSTD
    } else if code == 4 {
        CompressionType::ZSTD_HIGH
    } else {
        CompressionType::Unknown(code)
    }
}

/// `c` with an ASCII capital letter turned into its small letter.
pub open spec fn ascii_lower(c: char) -> char {
    if 'A' <= c && c <= 'Z' {
        ((c as int) + 32) as char
    } else {
        c
    }
}

/// `s` with every ASCII capital letter turned into its small letter.
pub open spec fn ascii_lowercase(s: Seq<char>) -> Seq<char> {
    s.map_values(|c: char| ascii_lower(c))
}

/// The compression named by `s`, whatever the case of its ASCII letters.
pub open spec fn compression_named(s: Seq<char>) -> Option<CompressionType> {
    let l = ascii_lowercase(s);
    if l == "none"@ {
        Some(CompressionType::NONE)
    } else if l == "lz4"@ {
        Some(CompressionType::LZ4)
    } else if l == "lz4_high"@ {
        Some(CompressionType::LZ4_HIGH)
    } else if l == "zstd"@ {
        Some(CompressionType::ZSTD)
    } else if l == "zstd_high"@ {
        Some(CompressionType::ZSTD_HIGH)
    } else {
        None
    }
}

fn lower_char(c: char) -> (r: char)
    ensures
        r == ascii_lower(c),
{
    if 'A' <= c && c <= 'Z' {
        let b = (c as u8) + 32;
        b as char
    } else {
        c
    }
}

fn lowercase_chars(s: &str) -> (r: Vec<char>)
    ensures
        r@ == ascii_lowercase(s@),
{
    let cs = chars_of(s);
    let mut out: Vec<char> = Vec::new();
    let mut i: usize = 0;
    while i < cs.len()
        invariant
            cs@ == s@,
            i <= cs@.len(),
            out@ == ascii_lowercase(cs@.take(i as int)),
        decreases cs@.len() - i,
    {
        out.push(lower_char(cs[i]));
        i = i + 1;
        assert(out@ =~= ascii_lowercase(cs@.take(i as int)));
    }
    assert(cs@.take(i as int) =~= cs@);
    out
}

impl CompressionType {
    /// The compression that the header code `code` stands for.
    pub fn from_code(code: i32) -> (c: CompressionType)
        ensures
            c == compression_of_code(code),
    {
        match code {
            0 => CompressionType::NONE,
            1 => CompressionType::LZ4,
            2 => CompressionType::LZ4_HIGH,
            3 => CompressionType::ZSTD,
            4 => CompressionType::ZSTD_HIGH,
            _ => CompressionType::Unknown(code),
        }
    }

    /// The compression named by `s` (`none`, `lz4`, `lz4_high`, `zstd` or `zstd_high`),
    /// whatever the case of its letters.
    pub fn from_name(s: &str) -> (r: Result<CompressionType, ()>)
        ensures
            r matches Ok(c) ==> compression_named(s@) == Some(c),
            r is Err ==> compression_named(s@) is None,
    {
        let l = lowercase_chars(s);
        if chars_equal(&l, &chars_of("none")) {
            Ok(CompressionType::NONE)
        } else if chars_equal(&l, &chars_of("lz4")) {
            Ok(CompressionType::LZ4)
        } else if chars_equal(&l, &chars_of("lz4_high")) {
            Ok(CompressionType::LZ4_HIGH)
        } else if chars_equal(&l, &chars_of("zstd")) {
            Ok(CompressionType::ZSTD)
        } else if chars_equal(&l, &chars_of("zstd_high")) {
            Ok(CompressionType::ZSTD_HIGH)
        } else {
            Err(())
        }
    }
}

impl core::str::FromStr for CompressionType {
    type Err = ();

    fn from_str(s: &str) -> (r: Result<Self, Self::Err>)
        ensures
            r matches Ok(c) ==> compression_named(s@) == Some(c),
            r is Err ==> compression_named(s@) is None,
    {
        CompressionType::from_name(s)
    }
}

/// Metadata about a recording.
#[derive(Debug, Clone)]
pub struct VideoMetadata {
    /// Information about the output modules.
    pub output_modules: Vec<ModuleInfo>,
    /// The compression type used for all streams.
    pub compression: CompressionType,
}

/// Information about an output of a module.
#[derive(Debug, Clone)]
pub struct OutputInfo {
    /// The width of the output in pixels (if applicable).
    pub size_x: Option<u32>,
    /// The height of the output in pixels (if applicable).
    pub size_y: Option<u32>,
    /// The source of the output, e.g. a specific camera name: DAVIS346_00000002.
    pub source: Option<String>,
    /// The timestamp offset of the output.
    pub ts_offset: Option<i64>,
}

/// Information about the module that generated an output, e.g. a module which records events.
#[derive(Debug, Clone)]
pub struct ModuleInfo {
    /// Name of the output produced by the module, e.g. events, IMU, frames.
    pub output_name: String,
    /// Description of the module, e.g. "a standard 8-bit image".
    pub description: String,
    /// Metadata about the output, e.g. its dimensions.
    pub output_info: OutputInfo,
}

/// The content of a packet: the stream it belongs to and its decompressed bytes.
#[derive(Debug, Clone)]
pub struct PacketContent {
    pub id: i32,
    pub buffer: Vec<u8>,
}

/// A decoded packet, by the kind of data it carries.
#[derive(Debug, Clone)]
pub enum Packet {
    EventPacket(PacketContent),
    FramePacket(PacketContent),
    ImuPacket(PacketContent),
    TriggerPacket(PacketContent),
}

/// What an [`OutputInfo`] holds, with its texts as character sequences.
pub struct OutputInfoView {
    pub size_x: Option<u32>,
    pub size_y: Option<u32>,
    pub source: Option<Seq<char>>,
    pub ts_offset: Option<i64>,
}

/// What a [`ModuleInfo`] holds, with its texts as character sequences.
pub struct ModuleInfoView {
    pub output_name: Seq<char>,
    pub description: Seq<char>,
    pub output_info: OutputInfoView,
}

/// What a [`VideoMetadata`] holds.
pub struct VideoMetadataView {
    pub output_modules: Seq<ModuleInfoView>,
    pub compression: CompressionType,
}

impl View for OutputInfo {
    type V = OutputInfoView;

    open spec fn view(&self) -> OutputInfoView {
        OutputInfoView {
            size_x: self.size_x,
            size_y: self.size_y,
            source: match self.source {
                Some(s) => Some(s@),
                None => None,
            },
            ts_offset: self.ts_offset,
        }
    }
}

impl View for ModuleInfo {
    type V = ModuleInfoView;

    open spec fn view(&self) -> ModuleInfoView {
        ModuleInfoView {
            output_name: self.output_name@,
            description: self.description@,
            output_info: self.output_info@,
        }
    }
}

/// The views of a sequence of modules.
pub open spec fn modules_view(modules: Seq<ModuleInfo>) -> Seq<ModuleInfoView> {
    modules.map_values(|m: ModuleInfo| m@)
}

impl View for VideoMetadata {
    type V = VideoMetadataView;

    open spec fn view(&self) -> VideoMetadataView {
        VideoMetadataView {
            output_modules: modules_view(self.output_modules@),
            compression: self.compression,
        }
    }
}

/// A module with no name, no description and nothing known of its output.
pub open spec fn empty_module() -> ModuleInfoView {
    ModuleInfoView {
        output_name: Seq::empty(),
        description: Seq::empty(),
        output_info: OutputInfoView { size_x: None, size_y: None, source: None, ts_offset: None },
    }
}

impl Default for ModuleInfo {
    fn default() -> (m: Self)
        ensures
            m@ == empty_module(),
    {
        ModuleInfo {
            description: String::new(),
            output_name: String::new(),
            output_info: OutputInfo { size_x: None, size_y: None, source: None, ts_offset: None },
        }
    }
}

/// Naming a compression does not depend on the case of the ASCII letters of the name.
pub proof fn lemma_compression_name_ignores_case(s: Seq<char>)
    ensures
        compression_named(s) == compression_named(ascii_lowercase(s)),
{
    assert(ascii_lowercase(ascii_lowercase(s)) =~= ascii_lowercase(s));
}

} // verus!
