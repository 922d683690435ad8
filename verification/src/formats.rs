//! The closed set of rendering backends a configuration can target.

use vstd::prelude::*;

use crate::text::str_eq;

verus! {

/// The target rendering backend for a configuration.
#[derive(Clone, Copy, Debug, PartialEq, Eq, Hash, Structural)]
pub enum OutputFormat {
    ByteStream,
    ArchLib,
}

/// The literal token a format serializes as.
pub open spec fn spec_format_token(f: OutputFormat) -> Seq<char> {
    match f {
        OutputFormat::ByteStream => "byte_stream"@,
        OutputFormat::ArchLib => "arch_lib"@,
    }
}

/// The format a literal token deserializes to, if any.
pub open spec fn spec_format_of_token(s: Seq<char>) -> Option<OutputFormat> {
    if s == "byte_stream"@ {
        Some(OutputFormat::ByteStream)
    } else if s == "arch_lib"@ {
        Some(OutputFormat::ArchLib)
    } else {
        None
    }
}

impl OutputFormat {
    /// The literal token this format serializes as.
    pub fn token(&self) -> (r: &'static str)
        ensures
            r@ == spec_format_token(*self),
    {
        match self {
            OutputFormat::ByteStream => "byte_stream",
            OutputFormat::ArchLib => "arch_lib",
        }
    }

    /// Reads a format from its literal token; any other text is rejected.
    pub fn from_token(s: &str) -> (r: Option<OutputFormat>)
        ensures
            r == spec_format_of_token(s@),
    {
        if str_eq(s, "byte_stream") {
            Some(OutputFormat::ByteStream)
        } else if str_eq(s, "arch_lib") {
            Some(OutputFormat::ArchLib)
        } else {
            None
        }
    }
}

/// Law: a format's token reads back as that format.
pub proof fn lemma_format_token_round_trip(f: OutputFormat)
    ensures
        spec_format_of_token(spec_format_token(f)) == Some(f),
{
    reveal_strlit("byte_stream");
    reveal_strlit("arch_lib");
    assert("byte_stream"@.len() == 11);
    assert("arch_lib"@.len() == 8);
}

} // verus!
