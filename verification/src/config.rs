//! The declarative field schema and the configuration aggregate.

use std::collections::HashMap;

use vstd::prelude::*;

use crate::bytes::ByteString;
use crate::formats::OutputFormat;
use crate::text::str_eq;

verus! {

/// Metadata shared by every field variant.
#[derive(Clone, Debug, PartialEq)]
pub struct AsmFieldMeta {
    pub name: String,
    pub size: u64,
    pub comment: Option<String>,
}

/// How the engine should interpret the raw bits of an immediate field.
#[derive(Clone, Copy, Debug, PartialEq, Eq, Hash, Structural)]
pub enum ImmediateKind {
    Bytes,
    SignedInt,
    UnsignedInt,
    SignedFloat,
    UnsignedFloat,
}

/// One labeled value of an enumerator field, keyed by its discriminator.
#[derive(Clone, Debug, PartialEq)]
pub struct EnumOption {
    pub discriminator: ByteString,
    pub aliases: Vec<String>,
    pub comment: Option<String>,
}

/// One instruction identity of an opcode field, keyed by its code.
#[derive(Clone, Debug, PartialEq)]
pub struct OpCode {
    pub code: ByteString,
    pub aliases: Vec<String>,
    pub comment: Option<String>,
}

/// A named, typed slice of an instruction encoding.
#[derive(Clone, Debug, PartialEq)]
pub enum AsmField {
    Immediate { meta: AsmFieldMeta, kind: ImmediateKind },
    Address { meta: AsmFieldMeta },
    Enumerator { meta: AsmFieldMeta, values: HashMap<ByteString, EnumOption> },
    Opcode { meta: AsmFieldMeta, values: HashMap<ByteString, OpCode> },
}

/// The aggregate root: an output format, a word size, and the fields by name.
#[derive(Clone, Debug)]
pub struct AsmConfig {
    pub output_format: OutputFormat,
    pub word_size: u64,
    pub fields: HashMap<String, AsmField>,
}

/// The variant a field document's tag resolves to.
#[derive(Clone, Copy, Debug, PartialEq, Eq, Structural)]
pub enum FieldTag {
    Immediate,
    Address,
    Enumerator,
    Opcode,
}

impl Default for ImmediateKind {
    /// An omitted interpretation kind means raw bytes.
    fn default() -> (r: ImmediateKind)
        ensures
            r == ImmediateKind::Bytes,
    {
        ImmediateKind::Bytes
    }
}

/// The variant a field document's tag names: each variant's canonical tag,
/// or any of its historically used aliases, resolves to that variant.
pub open spec fn spec_field_tag(s: Seq<char>) -> Option<FieldTag> {
    if s == "immediate"@ || s == "raw"@ || s == "imm"@ {
        Some(FieldTag::Immediate)
    } else if s == "address"@ || s == "addr"@ {
        Some(FieldTag::Address)
    } else if s == "enumerator"@ || s == "enum"@ {
        Some(FieldTag::Enumerator)
    } else if s == "opcode"@ || s == "opc"@ || s == "code"@ || s == "instruction"@ {
        Some(FieldTag::Opcode)
    } else {
        None
    }
}

/// Resolves a field document's tag, canonical or alias, to its variant;
/// an unrecognized tag resolves to nothing and fails deserialization.
pub fn field_tag(tag: &str) -> (r: Option<FieldTag>)
    ensures
        r == spec_field_tag(tag@),
{
    if str_eq(tag, "immediate") || str_eq(tag, "raw") || str_eq(tag, "imm") {
        Some(FieldTag::Immediate)
    } else if str_eq(tag, "address") || str_eq(tag, "addr") {
        Some(FieldTag::Address)
    } else if str_eq(tag, "enumerator") || str_eq(tag, "enum") {
        Some(FieldTag::Enumerator)
    } else if str_eq(tag, "opcode") || str_eq(tag, "opc") || str_eq(tag, "code") || str_eq(
        tag,
        "instruction",
    ) {
        Some(FieldTag::Opcode)
    } else {
        None
    }
}

/// Law: every alias of a variant tag resolves exactly as the canonical
/// spelling does, so a field document tagged with an alias deserializes
/// identically to one tagged with the canonical name.
pub proof fn lemma_tag_aliases()
    ensures
        spec_field_tag("immediate"@) == Some(FieldTag::Immediate),
        spec_field_tag("raw"@) == spec_field_tag("immediate"@),
        spec_field_tag("imm"@) == spec_field_tag("immediate"@),
        spec_field_tag("address"@) == Some(FieldTag::Address),
        spec_field_tag("addr"@) == spec_field_tag("address"@),
        spec_field_tag("enumerator"@) == Some(FieldTag::Enumerator),
        spec_field_tag("enum"@) == spec_field_tag("enumerator"@),
        spec_field_tag("opcode"@) == Some(FieldTag::Opcode),
        spec_field_tag("opc"@) == spec_field_tag("opcode"@),
        spec_field_tag("code"@) == spec_field_tag("opcode"@),
        spec_field_tag("instruction"@) == spec_field_tag("opcode"@),
{
    reveal_strlit("immediate");
    reveal_strlit("raw");
    reveal_strlit("imm");
    reveal_strlit("address");
    reveal_strlit("addr");
    reveal_strlit("enumerator");
    reveal_strlit("enum");
    reveal_strlit("opcode");
    reveal_strlit("opc");
    reveal_strlit("code");
    reveal_strlit("instruction");
    assert("immediate"@.len() == 9);
    assert("raw"@.len() == 3);
    assert("imm"@.len() == 3);
    assert("address"@.len() == 7);
    assert("addr"@.len() == 4);
    assert("enumerator"@.len() == 10);
    assert("enum"@.len() == 4);
    assert("opcode"@.len() == 6);
    assert("opc"@.len() == 3);
    assert("code"@.len() == 4);
    assert("instruction"@.len() == 11);
    assert("enum"@[0] == 'e' && "addr"@[0] == 'a');
    assert("code"@[0] == 'c');
    assert("opc"@[0] == 'o' && "raw"@[0] == 'r' && "imm"@[0] == 'i');
}

/// The interpretation kind an immediate field document declares: the given
/// one, or `Bytes` where the document omits the key.
pub open spec fn kind_or_default(kind: Option<ImmediateKind>) -> ImmediateKind {
    match kind {
        Some(k) => k,
        None => ImmediateKind::Bytes,
    }
}

impl AsmField {
    /// The shared metadata of this field, whatever its variant.
    pub open spec fn spec_meta(self) -> AsmFieldMeta {
        match self {
            AsmField::Immediate { meta, .. } => meta,
            AsmField::Address { meta } => meta,
            AsmField::Enumerator { meta, .. } => meta,
            AsmField::Opcode { meta, .. } => meta,
        }
    }

    /// Builds an immediate field; an omitted kind defaults to `Bytes`.
    pub fn immediate(meta: AsmFieldMeta, kind: Option<ImmediateKind>) -> (r: AsmField)
        ensures
            r == (AsmField::Immediate { meta, kind: kind_or_default(kind) }),
    {
        match kind {
            Some(k) => AsmField::Immediate { meta, kind: k },
            None => AsmField::Immediate { meta, kind: ImmediateKind::Bytes },
        }
    }

    /// Builds an address field, which carries metadata only.
    pub fn address(meta: AsmFieldMeta) -> (r: AsmField)
        ensures
            r == (AsmField::Address { meta }),
    {
        AsmField::Address { meta }
    }

    /// Builds an enumerator field from its discriminator-keyed options.
    pub fn enumerator(meta: AsmFieldMeta, values: HashMap<ByteString, EnumOption>) -> (r: AsmField)
        ensures
            r == (AsmField::Enumerator { meta, values }),
    {
        AsmField::Enumerator { meta, values }
    }

    /// Builds an opcode field from its code-keyed options.
    pub fn opcode(meta: AsmFieldMeta, values: HashMap<ByteString, OpCode>) -> (r: AsmField)
        ensures
            r == (AsmField::Opcode { meta, values }),
    {
        AsmField::Opcode { meta, values }
    }

    /// The shared metadata, cloned out of whichever variant holds it.
    pub fn meta(&self) -> (r: AsmFieldMeta)
        ensures
            r == self.spec_meta(),
    {
        match self {
            AsmField::Immediate { meta, .. } => clone_meta(meta),
            AsmField::Address { meta } => clone_meta(meta),
            AsmField::Enumerator { meta, .. } => clone_meta(meta),
            AsmField::Opcode { meta, .. } => clone_meta(meta),
        }
    }

    /// The field's name, unique within a configuration.
    pub fn name(&self) -> (r: String)
        ensures
            r == self.spec_meta().name,
    {
        self.meta().name
    }

    /// The field's declared width, in the unit the engine interprets.
    pub fn size(&self) -> (r: u64)
        ensures
            r == self.spec_meta().size,
    {
        self.meta().size
    }

    /// The field's optional human comment.
    pub fn comment(&self) -> (r: Option<String>)
        ensures
            r == self.spec_meta().comment,
    {
        self.meta().comment
    }
}

/// Copies field metadata without losing what it holds.
fn clone_meta(m: &AsmFieldMeta) -> (r: AsmFieldMeta)
    ensures
        r == *m,
{
    AsmFieldMeta {
        name: m.name.clone(),
        size: m.size,
        comment: match &m.comment {
            Some(c) => Some(c.clone()),
            None => None,
        },
    }
}

impl AsmConfig {
    /// Builds a configuration with no fields yet, as a document that omits
    /// the field mapping does.
    pub fn new(output_format: OutputFormat, word_size: u64) -> (r: AsmConfig)
        ensures
            r.output_format == output_format,
            r.word_size == word_size,
            r.fields@ == Map::<String, AsmField>::empty(),
    {
        AsmConfig { output_format, word_size, fields: HashMap::new() }
    }
}

} // verus!
