use vstd::prelude::*;

verus! {

/// The kind of failure carried by the decoder's errors.
#[derive(Debug, Clone, Copy, PartialEq, Eq, Structural)]
pub enum ErrorKind {
    /// The data read does not have the expected shape.
    InvalidData,
    /// Any other failure.
    Other,
}

/// Represents an error that occurred during file I/O.
#[derive(Debug)]
pub enum IOError {
    /// The file could not be found.
    FileNotFound,
    /// The file could not be read.
    FileReadError,
}

/// Represents an error that occurred during file reading.
#[derive(Debug)]
pub enum FileReadError {
    /// The file could not be parsed due to an unexpected end of file.
    UnexpectedEOF(String),
    /// The file could not be parsed due to an invalid magic bytes.
    InvalidMagicBytes,
    /// The file could not be parsed due to an unexpected error.
    UnexpectedError(ErrorKind, String),
}

/// Represents an error that occurred while decoding a packet.
#[derive(Debug)]
pub enum DecodeError {
    /// The packet could not be decoded due to an unexpected error.
    UnexpectedError(ErrorKind, String),
}

impl FileReadError {
    /// The error reported when reading the start of a file fails: an early end of
    /// the stream, or any other failure, described by `description`.
    pub fn from_read_failure(unexpected_eof: bool, description: &str) -> (e: FileReadError)
        ensures
            unexpected_eof ==> (e matches FileReadError::UnexpectedEOF(m)
                && m@ == "unexpected EOF: file ended before magic bytes ended"@),
            !unexpected_eof ==> (e matches FileReadError::UnexpectedError(k, m)
                && k == ErrorKind::Other && m@ == "unexpected I/O error: "@ + description@),
    {
        if unexpected_eof {
            FileReadError::UnexpectedEOF(
                String::from_str("unexpected EOF: file ended before magic bytes ended"),
            )
        } else {
            FileReadError::UnexpectedError(
                ErrorKind::Other,
                String::from_str("unexpected I/O error: ").concat(description),
            )
        }
    }
}

} // verus!
