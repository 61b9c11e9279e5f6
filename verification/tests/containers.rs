use bytes::Bytes;
use reifier::ident::{NamespaceHierarchy, VariableIdentity};
use reifier::ir::{SpecializedVariableIR, VariableIR};
use reifier::memory::StoredMemory;
use reifier::parse::VariableParser;
use reifier::scalar::{decode_scalar, SupportedScalar, ENC_FLOAT, ENC_UNSIGNED, ENC_UTF};
use reifier::select::{Operation, SelectPlan};
use reifier::types::{
    ComplexType, EvaluationContext, ScalarType, StructureMember, TypeDeclaration, TypeIdentity,
};

fn ns(segments: &[&str]) -> NamespaceHierarchy {
    NamespaceHierarchy {
        segments: segments.iter().map(|s| s.to_string()).collect(),
    }
}

fn scalar_decl(name: &str, encoding: u8, byte_size: u64) -> TypeDeclaration {
    TypeDeclaration::Scalar(ScalarType {
        name: Some(name.to_string()),
        encoding: Some(encoding),
        byte_size: Some(byte_size),
    })
}

fn member(name: &str, ty: usize, offset: u64) -> StructureMember {
    StructureMember {
        name: Some(name.to_string()),
        type_ref: Some(TypeIdentity(ty)),
        offset: Some(offset),
    }
}

fn ctx() -> EvaluationContext {
    EvaluationContext { pid: 0 }
}

#[test]
fn decoder_floats_and_chars() {
    let one_f32 = 1.0f32.to_bits().to_le_bytes().to_vec();
    assert!(matches!(
        decode_scalar(Some(ENC_FLOAT), Some(4), Some(&one_f32)),
        Some(SupportedScalar::F32Bits(0x3f80_0000))
    ));
    let half_f64 = 0.5f64.to_bits().to_le_bytes().to_vec();
    assert!(matches!(
        decode_scalar(Some(ENC_FLOAT), Some(8), Some(&half_f64)),
        Some(SupportedScalar::F64Bits(0x3fe0_0000_0000_0000))
    ));
    // No 2-byte float row in the table.
    assert!(decode_scalar(Some(ENC_FLOAT), Some(2), Some(&vec![0, 0])).is_none());
    let a = vec![65, 0, 0, 0];
    assert!(matches!(
        decode_scalar(Some(ENC_UTF), Some(4), Some(&a)),
        Some(SupportedScalar::Char('A'))
    ));
    // A surrogate code point is not a character.
    let bad = vec![0x00, 0xd8, 0x00, 0x00];
    assert!(decode_scalar(Some(ENC_UTF), Some(4), Some(&bad)).is_none());
}

#[test]
fn thread_local_reification() {
    let graph = ComplexType {
        types: vec![
            // 0: the thread-local wrapper
            TypeDeclaration::Structure {
                name: Some("Wrapper".to_string()),
                namespaces: ns(&["std", "thread", "local", "fast"]),
                byte_size: Some(2),
                members: vec![member("inner", 1, 0)],
                type_params: vec![("T".to_string(), Some(TypeIdentity(5)))],
            },
            // 1: the inner holder
            TypeDeclaration::Structure {
                name: Some("Inner".to_string()),
                namespaces: ns(&[]),
                byte_size: Some(2),
                members: vec![member("value", 2, 0)],
                type_params: Vec::new(),
            },
            // 2: the option the slot stores
            TypeDeclaration::RustEnum {
                name: Some("Option<u8>".to_string()),
                byte_size: Some(2),
                discr_type: Some(Box::new(member("discr", 5, 0))),
                enumerators: vec![
                    (Some(0), member("None", 3, 1)),
                    (Some(1), member("Some", 4, 1)),
                ],
            },
            // 3: the uninitialized variant
            TypeDeclaration::Structure {
                name: Some("None".to_string()),
                namespaces: ns(&[]),
                byte_size: Some(0),
                members: Vec::new(),
                type_params: Vec::new(),
            },
            // 4: the initialized variant
            TypeDeclaration::Structure {
                name: Some("Some".to_string()),
                namespaces: ns(&[]),
                byte_size: Some(1),
                members: vec![member("0", 5, 0)],
                type_params: Vec::new(),
            },
            // 5: the stored byte
            scalar_decl("u8", ENC_UNSIGNED, 1),
        ],
        root: TypeIdentity(0),
    };
    let parser = VariableParser::new(&graph);
    let mut gw = StoredMemory::new(0, Vec::new());
    let identity = VariableIdentity::new(
        ns(&["demo", "COUNTER", "__getit"]),
        Some("slot".to_string()),
    );
    let ir = parser.parse(&mut gw, &ctx(), identity, Some(Bytes::from(vec![1u8, 42u8])));
    match &ir {
        VariableIR::Specialized(SpecializedVariableIR::Tls { tls_var, .. }) => {
            let t = tls_var.as_ref().expect("thread-local payload");
            assert_eq!(t.identity.name.as_deref(), Some("COUNTER"));
            assert_eq!(t.inner_type.as_deref(), Some("u8"));
            let inner = t.inner_value.as_ref().expect("initialized slot");
            assert_eq!(inner.identity().name.as_deref(), Some("0"));
            assert_eq!(inner.display_value(), "42");
        }
        _ => panic!("expected a thread-local node"),
    }
}

#[test]
fn thread_local_uninitialized_slot() {
    let graph = ComplexType {
        types: vec![
            TypeDeclaration::Structure {
                name: Some("Wrapper".to_string()),
                namespaces: ns(&["std", "thread", "local", "fast"]),
                byte_size: Some(2),
                members: vec![member("inner", 1, 0)],
                type_params: vec![("T".to_string(), Some(TypeIdentity(5)))],
            },
            TypeDeclaration::Structure {
                name: Some("Inner".to_string()),
                namespaces: ns(&[]),
                byte_size: Some(2),
                members: vec![member("value", 2, 0)],
                type_params: Vec::new(),
            },
            TypeDeclaration::RustEnum {
                name: Some("Option<u8>".to_string()),
                byte_size: Some(2),
                discr_type: Some(Box::new(member("discr", 5, 0))),
                enumerators: vec![
                    (Some(0), member("None", 3, 1)),
                    (Some(1), member("Some", 4, 1)),
                ],
            },
            TypeDeclaration::Structure {
                name: Some("None".to_string()),
                namespaces: ns(&[]),
                byte_size: Some(0),
                members: Vec::new(),
                type_params: Vec::new(),
            },
            TypeDeclaration::Structure {
                name: Some("Some".to_string()),
                namespaces: ns(&[]),
                byte_size: Some(1),
                members: vec![member("0", 5, 0)],
                type_params: Vec::new(),
            },
            scalar_decl("u8", ENC_UNSIGNED, 1),
        ],
        root: TypeIdentity(0),
    };
    let parser = VariableParser::new(&graph);
    let mut gw = StoredMemory::new(0, Vec::new());
    let identity = VariableIdentity::new(
        ns(&["demo", "COUNTER", "__getit"]),
        Some("slot".to_string()),
    );
    let ir = parser.parse(&mut gw, &ctx(), identity, Some(Bytes::from(vec![0u8, 0u8])));
    match &ir {
        VariableIR::Specialized(SpecializedVariableIR::Tls { tls_var, .. }) => {
            let t = tls_var.as_ref().expect("thread-local payload");
            assert!(t.inner_value.is_none());
        }
        _ => panic!("expected a thread-local node"),
    }
}

#[test]
fn cell_unwraps_inner_value() {
    let graph = ComplexType {
        types: vec![
            TypeDeclaration::Structure {
                name: Some("Cell<u8>".to_string()),
                namespaces: ns(&["core", "cell"]),
                byte_size: Some(1),
                members: vec![member("value", 1, 0)],
                type_params: Vec::new(),
            },
            TypeDeclaration::Structure {
                name: Some("UnsafeCell<u8>".to_string()),
                namespaces: ns(&["core", "cell"]),
                byte_size: Some(1),
                members: vec![member("value", 2, 0)],
                type_params: Vec::new(),
            },
            scalar_decl("u8", ENC_UNSIGNED, 1),
        ],
        root: TypeIdentity(0),
    };
    let parser = VariableParser::new(&graph);
    let mut gw = StoredMemory::new(0, Vec::new());
    let ir = parser.parse(
        &mut gw,
        &ctx(),
        VariableIdentity::no_namespace(Some("c".to_string())),
        Some(Bytes::from(vec![7u8])),
    );
    match &ir {
        VariableIR::Specialized(SpecializedVariableIR::Cell { value, original }) => {
            assert_eq!(original.identity.name.as_deref(), Some("c"));
            let inner = value.as_ref().expect("cell payload");
            assert_eq!(inner.display_value(), "7");
        }
        _ => panic!("expected a cell node"),
    }
}

#[test]
fn slice_reads_a_run_of_targets() {
    let graph = ComplexType {
        types: vec![
            TypeDeclaration::Pointer {
                name: None,
                target_type: Some(TypeIdentity(1)),
            },
            scalar_decl("u32", ENC_UNSIGNED, 4),
        ],
        root: TypeIdentity(0),
    };
    let a: u64 = 0x4000;
    let mut image = vec![0u8; 8];
    image[0..4].copy_from_slice(&1u32.to_le_bytes());
    image[4..8].copy_from_slice(&2u32.to_le_bytes());
    let mut gw = StoredMemory::new(a, image);
    let parser = VariableParser::new(&graph);
    let ir = parser.parse(
        &mut gw,
        &ctx(),
        VariableIdentity::no_namespace(Some("p".to_string())),
        Some(Bytes::from(a.to_le_bytes().to_vec())),
    );
    let plan = SelectPlan { plan: vec![Operation::Slice(2)] };
    let result = ir
        .apply_select_plan(&mut gw, &ctx(), &parser, &plan)
        .expect("slice result");
    match &result {
        VariableIR::Array(av) => {
            assert_eq!(av.identity.name.as_deref(), Some("[*p]"));
            let items = av.items.as_ref().expect("slice items");
            assert_eq!(items.len(), 2);
            assert_eq!(items[0].display_value(), "1");
            assert_eq!(items[1].display_value(), "2");
        }
        _ => panic!("expected a sliced array"),
    }
}

#[test]
fn rendering_of_values() {
    let graph = ComplexType {
        types: vec![scalar_decl("i16", 0x05, 2)],
        root: TypeIdentity(0),
    };
    let parser = VariableParser::new(&graph);
    let mut gw = StoredMemory::new(0, Vec::new());
    let ir = parser.parse(
        &mut gw,
        &ctx(),
        VariableIdentity::no_namespace(Some("n".to_string())),
        Some(Bytes::from(vec![0xfeu8, 0xffu8])),
    );
    assert_eq!(ir.display_name(), "n");
    assert_eq!(ir.display_type(), "i16");
    assert_eq!(ir.display_value(), "-2");
    let absent = parser.parse(&mut gw, &ctx(), VariableIdentity::no_namespace(None), None);
    assert_eq!(absent.display_name(), "unknown");
    assert_eq!(absent.display_value(), "?");
    // Scalar renderings, kind by kind.
    assert_eq!(reifier::render::scalar_repr(&SupportedScalar::Char('A')), "A");
    assert_eq!(
        reifier::render::scalar_repr(&SupportedScalar::F32Bits(0x3f80_0000)),
        "0x3f800000"
    );
    assert_eq!(reifier::render::scalar_repr(&SupportedScalar::Bool(true)), "true");
    assert_eq!(reifier::render::scalar_repr(&SupportedScalar::I64(-70)), "-70");
    assert_eq!(
        reifier::render::scalar_repr(&SupportedScalar::U128(340_282_366_920_938_463_463_374_607_431_768_211_455)),
        "340282366920938463463374607431768211455"
    );
    assert_eq!(reifier::render::scalar_repr(&SupportedScalar::Empty), "()");
}

#[test]
fn vec_deque_reification() {
    // A ring of four u16 slots; tail=3, head=1: two live elements, the
    // one in the last slot first.
    let graph = ComplexType {
        types: vec![
            TypeDeclaration::Structure {
                name: Some("VecDeque<u16>".to_string()),
                namespaces: ns(&["alloc", "collections", "vec_deque"]),
                byte_size: Some(32),
                members: vec![
                    member("head", 1, 0),
                    member("tail", 1, 8),
                    member("cap", 1, 16),
                    member("pointer", 2, 24),
                ],
                type_params: vec![("T".to_string(), Some(TypeIdentity(3)))],
            },
            scalar_decl("usize", 0x01, 8),
            TypeDeclaration::Pointer {
                name: None,
                target_type: Some(TypeIdentity(3)),
            },
            scalar_decl("u16", ENC_UNSIGNED, 2),
        ],
        root: TypeIdentity(0),
    };
    let p: u64 = 0x5000;
    let mut image = vec![0u8; 8];
    image[0..2].copy_from_slice(&20u16.to_le_bytes());
    image[2..4].copy_from_slice(&99u16.to_le_bytes());
    image[4..6].copy_from_slice(&99u16.to_le_bytes());
    image[6..8].copy_from_slice(&10u16.to_le_bytes());
    let mut gw = StoredMemory::new(p, image);
    let mut raw = vec![0u8; 32];
    raw[0..8].copy_from_slice(&1u64.to_le_bytes());
    raw[8..16].copy_from_slice(&3u64.to_le_bytes());
    raw[16..24].copy_from_slice(&4u64.to_le_bytes());
    raw[24..32].copy_from_slice(&p.to_le_bytes());
    let parser = VariableParser::new(&graph);
    let ir = parser.parse(
        &mut gw,
        &ctx(),
        VariableIdentity::no_namespace(Some("q".to_string())),
        Some(Bytes::from(raw)),
    );
    match &ir {
        VariableIR::Specialized(SpecializedVariableIR::VecDeque { vec, .. }) => {
            let v = vec.as_ref().expect("queue payload");
            match &v.structure.members[0] {
                VariableIR::Array(buf) => {
                    let items = buf.items.as_ref().expect("ring items");
                    assert_eq!(items.len(), 2);
                    assert_eq!(items[0].display_value(), "10");
                    assert_eq!(items[1].display_value(), "20");
                }
                _ => panic!("expected the synthetic buffer array"),
            }
        }
        _ => panic!("expected a materialized queue"),
    }
}

#[test]
fn slice_delegates_through_tagged_enum() {
    // A tagged enum whose active variant is a pointer: a slice step
    // delegates the slice itself to that pointer.
    let graph = ComplexType {
        types: vec![
            TypeDeclaration::RustEnum {
                name: Some("Held".to_string()),
                byte_size: Some(9),
                discr_type: Some(Box::new(member("discr", 3, 0))),
                enumerators: vec![(Some(0), member("ptr", 1, 1))],
            },
            TypeDeclaration::Pointer {
                name: None,
                target_type: Some(TypeIdentity(2)),
            },
            scalar_decl("u16", ENC_UNSIGNED, 2),
            scalar_decl("u8", ENC_UNSIGNED, 1),
        ],
        root: TypeIdentity(0),
    };
    let a: u64 = 0x6000;
    let mut image = vec![0u8; 4];
    image[0..2].copy_from_slice(&7u16.to_le_bytes());
    image[2..4].copy_from_slice(&9u16.to_le_bytes());
    let mut gw = StoredMemory::new(a, image);
    let mut raw = vec![0u8; 9];
    raw[1..9].copy_from_slice(&a.to_le_bytes());
    let parser = VariableParser::new(&graph);
    let ir = parser.parse(
        &mut gw,
        &ctx(),
        VariableIdentity::no_namespace(Some("h".to_string())),
        Some(Bytes::from(raw)),
    );
    let plan = SelectPlan { plan: vec![Operation::Slice(2)] };
    let result = ir
        .apply_select_plan(&mut gw, &ctx(), &parser, &plan)
        .expect("delegated slice");
    match &result {
        VariableIR::Array(av) => {
            assert_eq!(av.identity.name.as_deref(), Some("[*ptr]"));
            let items = av.items.as_ref().expect("slice items");
            assert_eq!(items.len(), 2);
            assert_eq!(items[0].display_value(), "7");
            assert_eq!(items[1].display_value(), "9");
        }
        _ => panic!("expected the sliced array"),
    }
}
