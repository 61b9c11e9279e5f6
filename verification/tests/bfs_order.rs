use reifier::ident::VariableIdentity;
use reifier::ir::{
    ArrayVariable, PointerVariable, RustEnumVariable, ScalarVariable, StructVariable, VariableIR,
};

fn named(name: &str) -> VariableIdentity {
    VariableIdentity::no_namespace(Some(name.to_string()))
}

fn scalar(name: &str) -> VariableIR {
    VariableIR::Scalar(ScalarVariable {
        identity: named(name),
        type_display_name: None,
        value: None,
    })
}

fn bfs_names(root: &VariableIR) -> Vec<String> {
    root.bfs_collect()
        .into_iter()
        .map(|node| node.identity().name.as_deref().unwrap().to_string())
        .collect()
}

#[test]
fn test_bfs_iterator() {
    let variable = VariableIR::Struct(StructVariable {
        identity: named("struct_1"),
        type_display_name: None,
        members: vec![
            VariableIR::Array(ArrayVariable {
                identity: named("array_1"),
                type_display_name: None,
                items: Some(vec![scalar("scalar_1"), scalar("scalar_2")]),
            }),
            VariableIR::Array(ArrayVariable {
                identity: named("array_2"),
                type_display_name: None,
                items: Some(vec![scalar("scalar_3"), scalar("scalar_4")]),
            }),
        ],
        type_params: Vec::new(),
    });
    let expected_order = vec![
        "struct_1", "array_1", "array_2", "scalar_1", "scalar_2", "scalar_3", "scalar_4",
    ];
    assert_eq!(expected_order, bfs_names(&variable));
}

#[test]
fn mod_test_bfs_iterator() {
    let variable = VariableIR::Struct(StructVariable {
        identity: named("struct_1"),
        type_display_name: None,
        members: vec![
            VariableIR::Struct(StructVariable {
                identity: named("struct_2"),
                type_display_name: None,
                members: vec![
                    scalar("scalar_1"),
                    VariableIR::RustEnum(RustEnumVariable {
                        identity: named("enum_1"),
                        type_display_name: None,
                        value: Some(Box::new(scalar("scalar_2"))),
                    }),
                    scalar("scalar_3"),
                ],
                type_params: Vec::new(),
            }),
            VariableIR::Pointer(PointerVariable {
                identity: named("pointer_1"),
                type_display_name: None,
                value: None,
                target_type: None,
            }),
        ],
        type_params: Vec::new(),
    });
    let expected_order = vec![
        "struct_1", "struct_2", "pointer_1", "scalar_1", "enum_1", "scalar_3", "scalar_2",
    ];
    assert_eq!(expected_order, bfs_names(&variable));
}
