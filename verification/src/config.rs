//! The shape of a loaded configuration, and the choice of the
//! deserialization format by file extension. Reading the file and
//! running the chosen deserializer stay outside the library.

use vstd::prelude::*;

verus! {

/// An imaginary config file
#[derive(Debug)]
pub struct Config<'a> {
    pub port: u16,
    pub base_url: &'a str,
    pub s3_path: &'a str,
    pub database_url: &'a str,
}

/// The serialization format a configuration file is written in.
#[derive(Debug, Clone, Copy, PartialEq, Eq, Structural)]
pub enum ConfigFormat {
    Json,
    Yaml,
}

/// The format that belongs to a file extension: `json` means JSON,
/// `yaml` and `yml` mean YAML, and any other extension is unsupported.
pub open spec fn spec_format_for_extension(ext: Seq<char>) -> Option<ConfigFormat> {
    if ext == "json"@ {
        Some(ConfigFormat::Json)
    } else if ext == "yaml"@ || ext == "yml"@ {
        Some(ConfigFormat::Yaml)
    } else {
        None
    }
}

/// Decides whether two strings hold the same characters.
fn str_eq(a: &str, b: &str) -> (r: bool)
    ensures
        r == (a@ == b@),
{
    let alen = a.unicode_len();
    let blen = b.unicode_len();
    if alen != blen {
        return false;
    }
    let mut i: usize = 0;
    while i < alen
        invariant
            i <= alen,
            alen == a@.len(),
            alen == b@.len(),
            forall|k: int| 0 <= k < i ==> a@[k] == b@[k],
        decreases alen - i,
    {
        if a.get_char(i) != b.get_char(i) {
            return false;
        }
        i += 1;
    }
    proof {
        assert(a@ =~= b@);
    }
    true
}

/// Picks the deserialization format for a file extension, or signals
/// that the extension is unsupported.
pub fn format_for_extension(ext: &str) -> (r: Option<ConfigFormat>)
    ensures
        r == spec_format_for_extension(ext@),
{
    if str_eq(ext, "json") {
        Some(ConfigFormat::Json)
    } else if str_eq(ext, "yaml") {
        Some(ConfigFormat::Yaml)
    } else if str_eq(ext, "yml") {
        Some(ConfigFormat::Yaml)
    } else {
        None
    }
}

} // verus!

