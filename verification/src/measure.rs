//! The counting engine: one full pass over a source's bytes yields its
//! four measurements, or a decoding error when the bytes are not UTF-8.
use vstd::prelude::*;
use vstd::string::*;
use vstd::utf8::decode_utf8;
use vstd::utf8::valid_utf8;
use crate::decoding::count_chars;
use crate::lines::count_lines;
use crate::lines::line_count;
use crate::words::count_words;
use crate::words::word_count;

verus! {

/// The four measurements of one text source.
#[derive(Clone, Copy, Debug, PartialEq, Eq, Structural)]
pub struct FileInfo {
    pub num_lines: usize,
    pub num_words: usize,
    pub num_bytes: usize,
    pub num_chars: usize,
}

/// The engine's one intrinsic failure: the source's bytes are not a valid
/// UTF-8 encoding.
#[derive(Clone, Copy, Debug, PartialEq, Eq, Structural)]
pub struct DecodingError;

impl DecodingError {
    /// The diagnostic text for a decoding failure.
    pub fn message(&self) -> (r: String)
        ensures
            r@ == "stream did not contain valid UTF-8"@,
    {
        String::from_str("stream did not contain valid UTF-8")
    }
}

/// Measure one source: lines, separator-delimited words, raw bytes, and
/// decoded characters. Fails exactly when the bytes are not valid UTF-8.
pub fn count(input: &[u8]) -> (r: Result<FileInfo, DecodingError>)
    ensures
        r is Ok <==> valid_utf8(input@),
        r is Ok ==> r->Ok_0.num_lines == line_count(input@),
        r is Ok ==> r->Ok_0.num_words == word_count(input@),
        r is Ok ==> r->Ok_0.num_bytes == input@.len(),
        r is Ok ==> r->Ok_0.num_chars == decode_utf8(input@).len(),
{
    match count_chars(input) {
        None => Err(DecodingError),
        Some(num_chars) => {
            let num_lines = count_lines(input);
            let num_words = count_words(input);
            let num_bytes = input.len();
            Ok(FileInfo { num_lines, num_words, num_bytes, num_chars })
        },
    }
}

} // verus!
