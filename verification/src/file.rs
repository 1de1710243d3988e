use vstd::prelude::*;

verus! {

/// Describes a file format.
#[derive(Debug, Clone, Copy)]
pub struct FileFormat {
    /// Human-readable name of the file format.
    pub name: &'static str,
    /// Magic bytes used to validate the file.
    pub magic_bytes: Option<&'static [u8]>,
    /// File extension associated with the codec.
    pub extension: &'static str,
}

/// The magic bytes that open every AEDAT 4 file: `#!AER-DAT4.0\r\n`.
pub open spec fn aedat4_magic() -> Seq<u8> {
    seq![0x23u8, 0x21, 0x41, 0x45, 0x52, 0x2d, 0x44, 0x41, 0x54, 0x34, 0x2e, 0x30, 0x0d, 0x0a]
}

/// The AEDAT 4 file format.
pub fn aedat4_format() -> (f: FileFormat)
    ensures
        f.magic_bytes matches Some(m) && m@ == aedat4_magic(),
        f.name@ == "AEDAT 4"@,
        f.extension@ == "aedat4"@,
{
    let magic: &'static [u8] = &[0x23u8, 0x21, 0x41, 0x45, 0x52, 0x2d, 0x44, 0x41, 0x54, 0x34, 0x2e, 0x30, 0x0d, 0x0a];
    assert(magic@ == aedat4_magic());
    FileFormat { name: "AEDAT 4", magic_bytes: Some(magic), extension: "aedat4" }
}

} // verus!
