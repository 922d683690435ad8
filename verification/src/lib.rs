//! A validated, canonical representation for hexadecimal byte strings and a
//! declarative schema for binary instruction-encoding fields.
//!
//! The heart of the crate is [`bytes::ByteString`], an immutable lowercase
//! hex string that round-trips losslessly between hex text, raw bytes and
//! fixed-width integers.  On top of it, [`config`] defines the closed set of
//! field shapes (immediates, addresses, enumerators, opcodes) that drive an
//! external assembler/disassembler generator, and [`formats`] names the
//! rendering backend a configuration targets.

pub mod bytes;
pub mod config;
pub mod formats;
mod text;

pub use bytes::{ByteString, HexError, NumError};
pub use config::{AsmConfig, AsmField, AsmFieldMeta, EnumOption, FieldTag, ImmediateKind, OpCode};
pub use formats::OutputFormat;
