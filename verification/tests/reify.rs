use bytes::Bytes;
use reifier::error::Error;
use reifier::ident::{NamespaceHierarchy, VariableIdentity};
use reifier::memory::MemoryGateway;
use reifier::ir::{SpecializedVariableIR, VariableIR};
use reifier::memory::StoredMemory;
use reifier::parse::VariableParser;
use reifier::scalar::{decode_scalar, SupportedScalar, ENC_BOOLEAN, ENC_SIGNED, ENC_UNSIGNED};
use reifier::select::{Operation, SelectPlan};
use reifier::types::{
    ArrayType, ComplexType, EvaluationContext, ScalarType, StructureMember, TypeDeclaration,
    TypeIdentity,
};

fn ns(segments: &[&str]) -> NamespaceHierarchy {
    NamespaceHierarchy {
        segments: segments.iter().map(|s| s.to_string()).collect(),
    }
}

fn scalar_decl(name: &str, encoding: u8, byte_size: u64) -> TypeDeclaration {
    TypeDeclaration::Scalar(ScalarType {
        name: Some(name.to_string()),
        encoding: Some(encoding),
        byte_size: Some(byte_size),
    })
}

fn member(name: &str, ty: usize, offset: u64) -> StructureMember {
    StructureMember {
        name: Some(name.to_string()),
        type_ref: Some(TypeIdentity(ty)),
        offset: Some(offset),
    }
}

fn named(name: &str) -> VariableIdentity {
    VariableIdentity::no_namespace(Some(name.to_string()))
}

fn put_u64(buf: &mut [u8], offset: usize, value: u64) {
    buf[offset..offset + 8].copy_from_slice(&value.to_le_bytes());
}

fn put_u32(buf: &mut [u8], offset: usize, value: u32) {
    buf[offset..offset + 4].copy_from_slice(&value.to_le_bytes());
}

fn empty_memory() -> StoredMemory {
    StoredMemory::new(0, Vec::new())
}

fn ctx() -> EvaluationContext {
    EvaluationContext { pid: 0 }
}

#[test]
fn decoder_integers_all_sizes() {
    let cases: Vec<(u64, Vec<u8>)> = vec![
        (1, vec![0xfe]),
        (2, vec![0xfe, 0xff]),
        (4, vec![0xfe, 0xff, 0xff, 0xff]),
        (8, vec![0xfe, 0xff, 0xff, 0xff, 0xff, 0xff, 0xff, 0xff]),
        (16, vec![0xfe; 16]),
    ];
    for (size, bytes) in &cases {
        let signed = decode_scalar(Some(ENC_SIGNED), Some(*size), Some(bytes));
        let unsigned = decode_scalar(Some(ENC_UNSIGNED), Some(*size), Some(bytes));
        assert!(signed.is_some());
        assert!(unsigned.is_some());
    }
    assert!(matches!(
        decode_scalar(Some(ENC_SIGNED), Some(1), Some(&vec![0xfe])),
        Some(SupportedScalar::I8(-2))
    ));
    assert!(matches!(
        decode_scalar(Some(ENC_SIGNED), Some(2), Some(&vec![0x00, 0x80])),
        Some(SupportedScalar::I16(-32768))
    ));
    assert!(matches!(
        decode_scalar(Some(ENC_UNSIGNED), Some(4), Some(&vec![0x2a, 0, 0, 0])),
        Some(SupportedScalar::U32(42))
    ));
    assert!(matches!(
        decode_scalar(Some(ENC_UNSIGNED), Some(8), Some(&vec![1, 0, 0, 0, 0, 0, 0, 0])),
        Some(SupportedScalar::U64(1))
    ));
    assert!(matches!(
        decode_scalar(Some(ENC_SIGNED), Some(0), None),
        Some(SupportedScalar::Empty)
    ));
    // Combinations outside the table decode to nothing.
    assert!(decode_scalar(Some(ENC_SIGNED), Some(3), Some(&vec![0, 0, 0])).is_none());
    assert!(decode_scalar(Some(0x7f), Some(4), Some(&vec![0, 0, 0, 0])).is_none());
    assert!(decode_scalar(None, Some(4), Some(&vec![0, 0, 0, 0])).is_none());
    // A boolean is a single byte; zero is false.
    assert!(matches!(
        decode_scalar(Some(ENC_BOOLEAN), Some(1), Some(&vec![1])),
        Some(SupportedScalar::Bool(true))
    ));
    assert!(matches!(
        decode_scalar(Some(ENC_BOOLEAN), Some(1), Some(&vec![0])),
        Some(SupportedScalar::Bool(false))
    ));
}

#[test]
fn array_items_and_index_names() {
    // [lo, hi) = [2, 5): three u16 elements named by absolute index.
    let graph = ComplexType {
        types: vec![
            TypeDeclaration::Array(ArrayType {
                element_type: Some(TypeIdentity(1)),
                bounds: Some((2, 5)),
            }),
            scalar_decl("u16", ENC_UNSIGNED, 2),
        ],
        root: TypeIdentity(0),
    };
    let parser = VariableParser::new(&graph);
    let mut gw = empty_memory();
    let bytes = vec![10, 0, 20, 0, 30, 0];
    let ir = parser.parse(&mut gw, &ctx(), named("arr"), Some(Bytes::from(bytes)));
    match &ir {
        VariableIR::Array(a) => {
            let items = a.items.as_ref().expect("items");
            assert_eq!(items.len(), 3);
            let names: Vec<String> = items
                .iter()
                .map(|i| i.identity().name.as_deref().unwrap().to_string())
                .collect();
            assert_eq!(names, vec!["2", "3", "4"]);
            assert_eq!(items[0].display_value(), "10");
            assert_eq!(items[2].display_value(), "30");
        }
        _ => panic!("expected an array node"),
    }
}

#[test]
fn pointer_capture_issues_no_read() {
    let graph = ComplexType {
        types: vec![
            TypeDeclaration::Pointer {
                name: None,
                target_type: Some(TypeIdentity(1)),
            },
            scalar_decl("u64", ENC_UNSIGNED, 8),
        ],
        root: TypeIdentity(0),
    };
    let parser = VariableParser::new(&graph);
    // The gateway image is empty: a parse-time read would fail, and the
    // read counter shows none was issued.
    let mut gw = empty_memory();
    let mut addr_bytes = vec![0u8; 8];
    put_u64(&mut addr_bytes, 0, 0xdead_beef);
    let ir = parser.parse(&mut gw, &ctx(), named("p"), Some(Bytes::from(addr_bytes)));
    match &ir {
        VariableIR::Pointer(p) => {
            assert_eq!(p.value, Some(0xdead_beef));
            assert_eq!(p.type_display_name.as_deref(), Some("*u64"));
        }
        _ => panic!("expected a pointer node"),
    }
}

#[test]
fn vector_reification() {
    // Vec<u32> with len=3, cap=8, pointer=P; P..P+12 = 1,2,3 little-endian.
    let graph = ComplexType {
        types: vec![
            TypeDeclaration::Structure {
                name: Some("Vec<u32>".to_string()),
                namespaces: ns(&["alloc", "vec"]),
                byte_size: Some(24),
                members: vec![member("len", 1, 0), member("cap", 1, 8), member("pointer", 2, 16)],
                type_params: vec![("T".to_string(), Some(TypeIdentity(3)))],
            },
            scalar_decl("usize", 0x01, 8),
            TypeDeclaration::Pointer {
                name: None,
                target_type: Some(TypeIdentity(3)),
            },
            scalar_decl("u32", ENC_UNSIGNED, 4),
        ],
        root: TypeIdentity(0),
    };
    let p: u64 = 0x1000;
    let mut image = vec![0u8; 12];
    put_u32(&mut image, 0, 1);
    put_u32(&mut image, 4, 2);
    put_u32(&mut image, 8, 3);
    let mut gw = StoredMemory::new(p, image);
    let mut raw = vec![0u8; 24];
    put_u64(&mut raw, 0, 3);
    put_u64(&mut raw, 8, 8);
    put_u64(&mut raw, 16, p);
    let parser = VariableParser::new(&graph);
    let ir = parser.parse(&mut gw, &ctx(), named("v"), Some(Bytes::from(raw)));
    match &ir {
        VariableIR::Specialized(SpecializedVariableIR::Vector { vec, original }) => {
            assert_eq!(original.identity.name.as_deref(), Some("v"));
            let v = vec.as_ref().expect("vector payload");
            assert_eq!(v.structure.members.len(), 2);
            match &v.structure.members[0] {
                VariableIR::Array(buf) => {
                    assert_eq!(buf.identity.name.as_deref(), Some("buf"));
                    let items = buf.items.as_ref().expect("buf items");
                    assert_eq!(items.len(), 3);
                    let rendered: Vec<String> =
                        items.iter().map(|i| i.display_value()).collect();
                    assert_eq!(rendered, vec!["1", "2", "3"]);
                }
                _ => panic!("expected the synthetic buffer array"),
            }
            match &v.structure.members[1] {
                VariableIR::Scalar(c) => {
                    assert!(matches!(c.value, Some(SupportedScalar::Usize(8))));
                }
                _ => panic!("expected the capacity scalar"),
            }
        }
        _ => panic!("expected a materialized vector"),
    }
}

#[test]
fn string_reification() {
    // String { len=5, pointer=P } with P..P+5 = "hello".
    let graph = ComplexType {
        types: vec![
            TypeDeclaration::Structure {
                name: Some("String".to_string()),
                namespaces: ns(&["alloc", "string"]),
                byte_size: Some(16),
                members: vec![member("len", 1, 0), member("pointer", 2, 8)],
                type_params: Vec::new(),
            },
            scalar_decl("usize", 0x01, 8),
            TypeDeclaration::Pointer {
                name: None,
                target_type: Some(TypeIdentity(3)),
            },
            scalar_decl("u8", ENC_UNSIGNED, 1),
        ],
        root: TypeIdentity(0),
    };
    let p: u64 = 0x2000;
    let mut gw = StoredMemory::new(p, b"hello".to_vec());
    let mut raw = vec![0u8; 16];
    put_u64(&mut raw, 0, 5);
    put_u64(&mut raw, 8, p);
    let parser = VariableParser::new(&graph);
    let ir = parser.parse(&mut gw, &ctx(), named("s"), Some(Bytes::from(raw)));
    match &ir {
        VariableIR::Specialized(SpecializedVariableIR::String { string, original }) => {
            assert_eq!(original.identity.name.as_deref(), Some("s"));
            let sv = string.as_ref().expect("string payload");
            assert_eq!(sv.value, "hello");
            assert_eq!(ir.display_value(), "hello");
        }
        _ => panic!("expected a materialized string"),
    }
}

#[test]
fn string_reification_invalid_utf8_downgrades() {
    let graph = ComplexType {
        types: vec![
            TypeDeclaration::Structure {
                name: Some("String".to_string()),
                namespaces: ns(&["alloc", "string"]),
                byte_size: Some(16),
                members: vec![member("len", 1, 0), member("pointer", 2, 8)],
                type_params: Vec::new(),
            },
            scalar_decl("usize", 0x01, 8),
            TypeDeclaration::Pointer {
                name: None,
                target_type: Some(TypeIdentity(3)),
            },
            scalar_decl("u8", ENC_UNSIGNED, 1),
        ],
        root: TypeIdentity(0),
    };
    let p: u64 = 0x2000;
    let mut gw = StoredMemory::new(p, vec![0xff, 0xfe, 0x61]);
    let mut raw = vec![0u8; 16];
    put_u64(&mut raw, 0, 3);
    put_u64(&mut raw, 8, p);
    let parser = VariableParser::new(&graph);
    let ir = parser.parse(&mut gw, &ctx(), named("s"), Some(Bytes::from(raw)));
    match &ir {
        VariableIR::Specialized(SpecializedVariableIR::String { string, original }) => {
            // The payload is absent but the raw structure is preserved.
            assert!(string.is_none());
            assert_eq!(original.members.len(), 2);
        }
        _ => panic!("expected a specialized node with an absent payload"),
    }
}

#[test]
fn tagged_enum_discriminant() {
    // Enumerators {Some(0): variant_A, None: variant_default}; discriminant 0.
    let graph = ComplexType {
        types: vec![
            TypeDeclaration::RustEnum {
                name: Some("Choice".to_string()),
                byte_size: Some(2),
                discr_type: Some(Box::new(member("discr", 1, 0))),
                enumerators: vec![
                    (Some(0), member("variant_A", 1, 1)),
                    (None, member("variant_default", 1, 1)),
                ],
            },
            scalar_decl("u8", ENC_UNSIGNED, 1),
        ],
        root: TypeIdentity(0),
    };
    let parser = VariableParser::new(&graph);
    let mut gw = empty_memory();
    let ir = parser.parse(&mut gw, &ctx(), named("e"), Some(Bytes::from(vec![0u8, 42u8])));
    match &ir {
        VariableIR::RustEnum(e) => {
            let active = e.value.as_ref().expect("active variant");
            assert_eq!(active.identity().name.as_deref(), Some("variant_A"));
            assert_eq!(active.display_value(), "42");
        }
        _ => panic!("expected a tagged enum node"),
    }
}

#[test]
fn tagged_enum_unknown_discriminant_falls_back() {
    let graph = ComplexType {
        types: vec![
            TypeDeclaration::RustEnum {
                name: Some("Choice".to_string()),
                byte_size: Some(2),
                discr_type: Some(Box::new(member("discr", 1, 0))),
                enumerators: vec![
                    (Some(0), member("variant_A", 1, 1)),
                    (None, member("variant_default", 1, 1)),
                ],
            },
            scalar_decl("u8", ENC_UNSIGNED, 1),
        ],
        root: TypeIdentity(0),
    };
    let parser = VariableParser::new(&graph);
    let mut gw = empty_memory();
    let ir = parser.parse(&mut gw, &ctx(), named("e"), Some(Bytes::from(vec![9u8, 7u8])));
    match &ir {
        VariableIR::RustEnum(e) => {
            let active = e.value.as_ref().expect("default variant");
            assert_eq!(active.identity().name.as_deref(), Some("variant_default"));
        }
        _ => panic!("expected a tagged enum node"),
    }
}

#[test]
fn pointer_deref_via_selection() {
    // Pointer { address: A, target_type: u64 }; memory at A holds 42.
    let graph = ComplexType {
        types: vec![
            TypeDeclaration::Pointer {
                name: None,
                target_type: Some(TypeIdentity(1)),
            },
            scalar_decl("u64", ENC_UNSIGNED, 8),
        ],
        root: TypeIdentity(0),
    };
    let a: u64 = 0x3000;
    let mut image = vec![0u8; 8];
    put_u64(&mut image, 0, 42);
    let mut gw = StoredMemory::new(a, image);
    let mut raw = vec![0u8; 8];
    put_u64(&mut raw, 0, a);
    let parser = VariableParser::new(&graph);
    let ir = parser.parse(&mut gw, &ctx(), named("p"), Some(Bytes::from(raw)));
    let plan = SelectPlan { plan: vec![Operation::Deref] };
    let result = ir
        .apply_select_plan(&mut gw, &ctx(), &parser, &plan)
        .expect("selection result");
    match &result {
        VariableIR::Scalar(s) => {
            assert!(matches!(s.value, Some(SupportedScalar::U64(42))));
            assert_eq!(s.identity.name.as_deref(), Some("*p"));
        }
        _ => panic!("expected the dereferenced scalar"),
    }
}

#[test]
fn hashmap_string_key_lookup() {
    // Entries {"alpha": 1u32, "beta": 2u32}; plan [Field("beta")] yields 2.
    let graph = ComplexType {
        types: vec![
            // 0: the map itself
            TypeDeclaration::Structure {
                name: Some("HashMap<String, u32>".to_string()),
                namespaces: ns(&["std", "collections", "hash", "map"]),
                byte_size: Some(16),
                members: vec![member("table", 1, 0)],
                type_params: Vec::new(),
            },
            // 1: the raw table with the control-byte pointer and mask
            TypeDeclaration::Structure {
                name: Some("RawTable<(String, u32)>".to_string()),
                namespaces: ns(&["hashbrown", "raw"]),
                byte_size: Some(16),
                members: vec![member("bucket_mask", 2, 0), member("pointer", 3, 8)],
                type_params: vec![("T".to_string(), Some(TypeIdentity(4)))],
            },
            // 2: usize
            scalar_decl("usize", 0x01, 8),
            // 3: the control-byte pointer
            TypeDeclaration::Pointer {
                name: None,
                target_type: Some(TypeIdentity(7)),
            },
            // 4: the key-value tuple
            TypeDeclaration::Structure {
                name: Some("(String, u32)".to_string()),
                namespaces: ns(&[]),
                byte_size: Some(24),
                members: vec![member("__0", 5, 0), member("__1", 6, 16)],
                type_params: Vec::new(),
            },
            // 5: the key string
            TypeDeclaration::Structure {
                name: Some("String".to_string()),
                namespaces: ns(&["alloc", "string"]),
                byte_size: Some(16),
                members: vec![member("len", 2, 0), member("pointer", 3, 8)],
                type_params: Vec::new(),
            },
            // 6: the value
            scalar_decl("u32", ENC_UNSIGNED, 4),
            // 7: a byte
            scalar_decl("u8", ENC_UNSIGNED, 1),
        ],
        root: TypeIdentity(0),
    };
    // One image holds the key bytes, both buckets and the control bytes.
    let base: u64 = 0x1000;
    let ctrl: u64 = 0x1100;
    let mut image = vec![0x80u8; 0x102];
    image[0..5].copy_from_slice(b"alpha");
    image[8..12].copy_from_slice(b"beta");
    // Bucket 0 sits 24 bytes below the control array, bucket 1 below it.
    let b0 = (ctrl - base) as usize - 24;
    put_u64(&mut image, b0, 5);
    put_u64(&mut image, b0 + 8, base);
    put_u32(&mut image, b0 + 16, 1);
    let b1 = (ctrl - base) as usize - 48;
    put_u64(&mut image, b1, 4);
    put_u64(&mut image, b1 + 8, base + 8);
    put_u32(&mut image, b1 + 16, 2);
    // Two buckets, both occupied: the top control bit is clear.
    let c = (ctrl - base) as usize;
    image[c] = 0x00;
    image[c + 1] = 0x00;
    let mut gw = StoredMemory::new(base, image);
    let mut raw = vec![0u8; 16];
    put_u64(&mut raw, 0, 1); // bucket_mask
    put_u64(&mut raw, 8, ctrl);
    let parser = VariableParser::new(&graph);
    let ir = parser.parse(&mut gw, &ctx(), named("m"), Some(Bytes::from(raw)));
    match &ir {
        VariableIR::Specialized(SpecializedVariableIR::HashMap { map, .. }) => {
            let m = map.as_ref().expect("map payload");
            assert_eq!(m.kv_items.len(), 2);
        }
        _ => panic!("expected a materialized hash map"),
    }
    let plan = SelectPlan {
        plan: vec![Operation::GetField("beta".to_string())],
    };
    let result = ir
        .apply_select_plan(&mut gw, &ctx(), &parser, &plan)
        .expect("lookup result");
    match &result {
        VariableIR::Scalar(s) => {
            assert!(matches!(s.value, Some(SupportedScalar::U32(2))));
        }
        _ => panic!("expected the value scalar"),
    }
}

#[test]
fn empty_selection_plan_is_identity() {
    let graph = ComplexType {
        types: vec![scalar_decl("u8", ENC_UNSIGNED, 1)],
        root: TypeIdentity(0),
    };
    let parser = VariableParser::new(&graph);
    let mut gw = empty_memory();
    let ir = parser.parse(&mut gw, &ctx(), named("x"), Some(Bytes::from(vec![7u8])));
    let before_name = ir.display_name();
    let before_value = ir.display_value();
    let plan = SelectPlan { plan: Vec::new() };
    let after = ir
        .apply_select_plan(&mut gw, &ctx(), &parser, &plan)
        .expect("identity result");
    assert_eq!(after.display_name(), before_name);
    assert_eq!(after.display_value(), before_value);
}

#[test]
fn landmark_errors() {
    let lone = VariableIR::Scalar(reifier::ir::ScalarVariable {
        identity: named("x"),
        type_display_name: None,
        value: Some(SupportedScalar::Bool(true)),
    });
    assert!(matches!(
        lone.assume_field_as_scalar_number("missing"),
        Err(Error::FieldNotFound("missing"))
    ));
    // The node is found but a boolean does not promote to a number.
    assert!(matches!(
        lone.assume_field_as_scalar_number("x"),
        Err(Error::FieldNotANumber("x"))
    ));
    assert!(matches!(
        lone.assume_field_as_pointer("x"),
        Err(Error::IncompleteInterp("pointer"))
    ));
    assert!(matches!(
        lone.assume_field_as_struct("x"),
        Err(Error::IncompleteInterp("structure"))
    ));
}

#[test]
fn gateway_rejects_out_of_image_reads() {
    let mut gw = StoredMemory::new(0x100, vec![1, 2, 3, 4]);
    assert!(matches!(gw.read(0, 0x100, 4), Ok(v) if v == vec![1, 2, 3, 4]));
    assert!(matches!(gw.read(0, 0x100, 2), Ok(v) if v == vec![1, 2]));
    assert!(matches!(gw.read(0, 0xff, 2), Err(Error::Memory)));
    assert!(matches!(gw.read(0, 0x103, 2), Err(Error::Memory)));
}

#[test]
fn number_promotion_wraps_large_unsigned() {
    let scalar = |value| reifier::ir::ScalarVariable {
        identity: named("n"),
        type_display_name: None,
        value: Some(value),
    };
    assert_eq!(scalar(SupportedScalar::U64(u64::MAX)).try_as_number(), Some(-1));
    // The promotion is defined for every integer tag; 128-bit values keep
    // their low 64 bits.
    assert_eq!(scalar(SupportedScalar::U128(u128::MAX)).try_as_number(), Some(-1));
    assert_eq!(
        scalar(SupportedScalar::U128((1u128 << 64) + 5)).try_as_number(),
        Some(5)
    );
    assert_eq!(scalar(SupportedScalar::I128(-1)).try_as_number(), Some(-1));
    assert_eq!(scalar(SupportedScalar::I128(i128::MIN)).try_as_number(), Some(0));
    assert_eq!(scalar(SupportedScalar::I128(7)).try_as_number(), Some(7));
    assert_eq!(scalar(SupportedScalar::F64Bits(0)).try_as_number(), None);
    assert_eq!(scalar(SupportedScalar::Bool(true)).try_as_number(), None);
}

#[test]
fn c_style_enum_resolution() {
    let graph = ComplexType {
        types: vec![
            TypeDeclaration::CStyleEnum {
                name: Some("Power".to_string()),
                byte_size: Some(1),
                discr_type: Some(TypeIdentity(1)),
                enumerators: vec![(1, "On".to_string()), (2, "Off".to_string())],
            },
            scalar_decl("u8", ENC_UNSIGNED, 1),
        ],
        root: TypeIdentity(0),
    };
    let parser = VariableParser::new(&graph);
    let mut gw = empty_memory();
    let ir = parser.parse(&mut gw, &ctx(), named("pw"), Some(Bytes::from(vec![2u8])));
    match &ir {
        VariableIR::CEnum(e) => {
            assert_eq!(e.value.as_deref(), Some("Off"));
            assert_eq!(ir.display_value(), "Off");
        }
        _ => panic!("expected a C-style enum node"),
    }
    // An unregistered discriminant resolves to nothing.
    let ir2 = parser.parse(&mut gw, &ctx(), named("pw"), Some(Bytes::from(vec![9u8])));
    match &ir2 {
        VariableIR::CEnum(e) => assert!(e.value.is_none()),
        _ => panic!("expected a C-style enum node"),
    }
}

#[test]
fn union_parses_as_struct() {
    let graph = ComplexType {
        types: vec![
            TypeDeclaration::Union {
                name: Some("Raw".to_string()),
                byte_size: Some(4),
                members: vec![
                    member("as_u32", 1, 0),
                    member("as_u16", 2, 0),
                    StructureMember {
                        name: Some("untyped".to_string()),
                        type_ref: None,
                        offset: Some(0),
                    },
                ],
            },
            scalar_decl("u32", ENC_UNSIGNED, 4),
            scalar_decl("u16", ENC_UNSIGNED, 2),
        ],
        root: TypeIdentity(0),
    };
    let parser = VariableParser::new(&graph);
    let mut gw = empty_memory();
    let ir = parser.parse(&mut gw, &ctx(), named("u"), Some(Bytes::from(vec![1, 0, 0, 0])));
    match &ir {
        VariableIR::Struct(s) => {
            // The member without a type reference is skipped.
            assert_eq!(s.members.len(), 2);
            assert_eq!(s.members[0].display_value(), "1");
            assert_eq!(s.members[1].display_value(), "1");
        }
        _ => panic!("expected a structure node"),
    }
}

#[test]
fn hashset_keeps_keys_in_bucket_order() {
    let graph = ComplexType {
        types: vec![
            TypeDeclaration::Structure {
                name: Some("HashSet<u32>".to_string()),
                namespaces: ns(&["std", "collections", "hash", "set"]),
                byte_size: Some(16),
                members: vec![member("table", 1, 0)],
                type_params: Vec::new(),
            },
            TypeDeclaration::Structure {
                name: Some("RawTable<(u32, ())>".to_string()),
                namespaces: ns(&["hashbrown", "raw"]),
                byte_size: Some(16),
                members: vec![member("bucket_mask", 2, 0), member("pointer", 3, 8)],
                type_params: vec![("T".to_string(), Some(TypeIdentity(4)))],
            },
            scalar_decl("usize", 0x01, 8),
            TypeDeclaration::Pointer {
                name: None,
                target_type: Some(TypeIdentity(6)),
            },
            TypeDeclaration::Structure {
                name: Some("(u32, ())".to_string()),
                namespaces: ns(&[]),
                byte_size: Some(8),
                members: vec![member("__0", 5, 0), member("__1", 5, 4)],
                type_params: Vec::new(),
            },
            scalar_decl("u32", ENC_UNSIGNED, 4),
            scalar_decl("u8", ENC_UNSIGNED, 1),
        ],
        root: TypeIdentity(0),
    };
    let base: u64 = 0x1000;
    let ctrl: u64 = 0x1040;
    // Four buckets; buckets 1 and 3 occupied, holding 7 and 9.
    let mut image = vec![0x80u8; 0x44];
    let c = (ctrl - base) as usize;
    image[c + 1] = 0x00;
    image[c + 3] = 0x00;
    let b1 = c - 2 * 8;
    put_u32(&mut image, b1, 7);
    let b3 = c - 4 * 8;
    put_u32(&mut image, b3, 9);
    let mut gw = StoredMemory::new(base, image);
    let mut raw = vec![0u8; 16];
    put_u64(&mut raw, 0, 3); // bucket_mask
    put_u64(&mut raw, 8, ctrl);
    let parser = VariableParser::new(&graph);
    let ir = parser.parse(&mut gw, &ctx(), named("s"), Some(Bytes::from(raw)));
    match &ir {
        VariableIR::Specialized(SpecializedVariableIR::HashSet { set, .. }) => {
            let s = set.as_ref().expect("set payload");
            assert_eq!(s.items.len(), 2);
            assert_eq!(s.items[0].display_value(), "7");
            assert_eq!(s.items[1].display_value(), "9");
        }
        _ => panic!("expected a materialized hash set"),
    }
}
