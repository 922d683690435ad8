use std::collections::HashMap;

use asm_schema::{
    AsmConfig, AsmField, AsmFieldMeta, ByteString, EnumOption, FieldTag, ImmediateKind, OpCode,
    OutputFormat,
};
use asm_schema::config::field_tag;

fn meta(name: &str, size: u64) -> AsmFieldMeta {
    AsmFieldMeta {
        name: name.to_string(),
        size,
        comment: None,
    }
}

#[test]
fn every_tag_spelling_resolves_to_its_variant() {
    assert_eq!(field_tag("immediate"), Some(FieldTag::Immediate));
    assert_eq!(field_tag("raw"), Some(FieldTag::Immediate));
    assert_eq!(field_tag("imm"), Some(FieldTag::Immediate));
    assert_eq!(field_tag("address"), Some(FieldTag::Address));
    assert_eq!(field_tag("addr"), Some(FieldTag::Address));
    assert_eq!(field_tag("enumerator"), Some(FieldTag::Enumerator));
    assert_eq!(field_tag("enum"), Some(FieldTag::Enumerator));
    assert_eq!(field_tag("opcode"), Some(FieldTag::Opcode));
    assert_eq!(field_tag("opc"), Some(FieldTag::Opcode));
    assert_eq!(field_tag("code"), Some(FieldTag::Opcode));
    assert_eq!(field_tag("instruction"), Some(FieldTag::Opcode));
}

#[test]
fn unknown_tags_are_rejected() {
    assert_eq!(field_tag("register"), None);
    assert_eq!(field_tag(""), None);
    assert_eq!(field_tag("Immediate"), None);
}

#[test]
fn imm_with_kind_omitted_defaults_to_bytes() {
    let f = AsmField::immediate(meta("disp", 16), None);
    match &f {
        AsmField::Immediate { kind, .. } => assert_eq!(*kind, ImmediateKind::Bytes),
        _ => panic!("expected an immediate field"),
    }
    assert_eq!(field_tag("imm"), Some(FieldTag::Immediate));
    assert_eq!(ImmediateKind::default(), ImmediateKind::Bytes);
}

#[test]
fn immediate_keeps_an_explicit_kind() {
    let f = AsmField::immediate(meta("disp", 16), Some(ImmediateKind::SignedInt));
    match &f {
        AsmField::Immediate { kind, .. } => assert_eq!(*kind, ImmediateKind::SignedInt),
        _ => panic!("expected an immediate field"),
    }
}

#[test]
fn instruction_tag_builds_the_same_field_as_opcode() {
    assert_eq!(field_tag("instruction"), field_tag("opcode"));

    let mut values: HashMap<ByteString, OpCode> = HashMap::new();
    values.insert(
        ByteString::from_hex("0f").unwrap(),
        OpCode {
            code: ByteString::from_hex("0f").unwrap(),
            aliases: vec!["nop".to_string()],
            comment: None,
        },
    );
    let from_instruction = AsmField::opcode(meta("op", 8), values.clone());
    let from_opcode = AsmField::opcode(meta("op", 8), values);
    assert_eq!(from_instruction, from_opcode);
}

#[test]
fn accessors_expose_shared_metadata_of_every_variant() {
    let m = AsmFieldMeta {
        name: "rd".to_string(),
        size: 5,
        comment: Some("destination register".to_string()),
    };

    let mut values: HashMap<ByteString, EnumOption> = HashMap::new();
    values.insert(
        ByteString::from_hex("01").unwrap(),
        EnumOption {
            discriminator: ByteString::from_hex("01").unwrap(),
            aliases: vec!["x1".to_string(), "ra".to_string()],
            comment: None,
        },
    );

    let fields = vec![
        AsmField::immediate(m.clone(), None),
        AsmField::address(m.clone()),
        AsmField::enumerator(m.clone(), values),
        AsmField::opcode(m.clone(), HashMap::new()),
    ];
    for f in fields {
        assert_eq!(f.name(), "rd");
        assert_eq!(f.size(), 5);
        assert_eq!(f.comment(), Some("destination register".to_string()));
        assert_eq!(f.meta(), m);
    }
}

#[test]
fn config_construction_defaults_to_no_fields() {
    let c = AsmConfig::new(OutputFormat::ByteStream, 32);
    assert_eq!(c.output_format, OutputFormat::ByteStream);
    assert_eq!(c.word_size, 32);
    assert!(c.fields.is_empty());
}

#[test]
fn config_indexes_fields_by_name() {
    let mut c = AsmConfig::new(OutputFormat::ArchLib, 16);
    c.fields
        .insert("op".to_string(), AsmField::address(meta("op", 8)));
    c.fields
        .insert("disp".to_string(), AsmField::immediate(meta("disp", 8), None));
    assert_eq!(c.fields.len(), 2);
    assert_eq!(c.fields.get("op").unwrap().size(), 8);
}

#[test]
fn byte_strings_serve_as_map_keys() {
    let mut values: HashMap<ByteString, EnumOption> = HashMap::new();
    let key = ByteString::from_hex("AB").unwrap();
    values.insert(
        key,
        EnumOption {
            discriminator: ByteString::from_hex("ab").unwrap(),
            aliases: vec![],
            comment: None,
        },
    );
    // Lookup goes by canonical text, whatever the spelling at insertion.
    let probe = ByteString::from_hex("ab").unwrap();
    assert!(values.contains_key(&probe));
}

#[test]
fn output_format_tokens_round_trip() {
    assert_eq!(OutputFormat::ByteStream.token(), "byte_stream");
    assert_eq!(OutputFormat::ArchLib.token(), "arch_lib");
    assert_eq!(
        OutputFormat::from_token("byte_stream"),
        Some(OutputFormat::ByteStream)
    );
    assert_eq!(
        OutputFormat::from_token("arch_lib"),
        Some(OutputFormat::ArchLib)
    );
    assert_eq!(OutputFormat::from_token("json"), None);
}
