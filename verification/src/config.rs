//! Configuration resolution: raw command-line flags become a validated
//! configuration, with the default triad of lines, words and bytes when no
//! measurement was requested and standard input when no source was named.
use vstd::prelude::*;
use vstd::string::*;

verus! {

/// A validated run configuration: the sources to read and the measurements
/// to show.
#[derive(Debug)]
pub struct Config {
    pub files: Vec<String>,
    pub lines: bool,
    pub words: bool,
    pub bytes: bool,
    pub chars: bool,
}

impl Config {
    /// A resolved configuration names at least one source, shows at least
    /// one measurement, and never shows both bytes and chars.
    pub open spec fn wf(&self) -> bool {
        &&& self.files@.len() > 0
        &&& (self.lines || self.words || self.bytes || self.chars)
        &&& !(self.bytes && self.chars)
    }
}

/// The configuration failure: the byte count and the character count are
/// mutually exclusive requests.
#[derive(Clone, Copy, Debug, PartialEq, Eq, Structural)]
pub enum ConfigError {
    ConflictingFlags,
}

/// Resolve raw command-line flags into a validated configuration.
/// Requesting both bytes and chars is rejected before any source is read;
/// with no flags at all the default triad lines, words and bytes is shown
/// (never chars); with no sources standard input is the one source.
pub fn resolve_config(files: Vec<String>, lines: bool, words: bool, bytes: bool, chars: bool) -> (r:
    Result<Config, ConfigError>)
    ensures
        r is Err <==> (bytes && chars),
        r is Err ==> r->Err_0 == ConfigError::ConflictingFlags,
        r is Ok ==> ({
            let c = r->Ok_0;
            let none_set = !lines && !words && !bytes && !chars;
            &&& c.wf()
            &&& c.files.deep_view() == (if files@.len() == 0 {
                seq![seq!['-']]
            } else {
                files.deep_view()
            })
            &&& c.lines == (lines || none_set)
            &&& c.words == (words || none_set)
            &&& c.bytes == (bytes || none_set)
            &&& c.chars == chars
        }),
{
    if bytes && chars {
        return Err(ConfigError::ConflictingFlags);
    }
    let none_set = !lines && !words && !bytes && !chars;
    let mut sources = files;
    if sources.len() == 0 {
        sources.push(String::from_str("-"));
        proof {
            reveal_strlit("-");
            assert("-"@ =~= seq!['-']);
            assert(sources.deep_view() =~= seq![seq!['-']]);
        }
    }
    Ok(
        Config {
            files: sources,
            lines: lines || none_set,
            words: words || none_set,
            bytes: bytes || none_set,
            chars,
        },
    )
}

} // verus!
