use apigen::schema::{SchemaLiteral, SchemaObject, SchemaOrRef, SchemaType, SchemaTypeSet};
use apigen::normalize::normalize;
use apigen::types::{AlgType, AnnotatedObj, IAST, Primitive};

fn scalar(t: SchemaType) -> SchemaObject {
    SchemaObject { schema_type: Some(SchemaTypeSet::Single(t)), ..SchemaObject::empty() }
}

fn obj(s: SchemaObject) -> SchemaOrRef {
    SchemaOrRef::Object(Box::new(s))
}

fn prim(value: Primitive, nullable: bool, optional: bool) -> IAST {
    IAST::Primitive(AnnotatedObj {
        nullable,
        optional,
        is_deprecated: false,
        description: None,
        title: None,
        value,
    })
}

#[test]
fn scalar_string_not_nullable() {
    let r = normalize(&scalar(SchemaType::String), false);
    assert_eq!(r, prim(Primitive::String, false, false));
}

#[test]
fn scalar_number_not_nullable() {
    let r = normalize(&scalar(SchemaType::Number), false);
    assert_eq!(r, prim(Primitive::Number, false, false));
}

#[test]
fn scalar_integer_not_nullable() {
    let r = normalize(&scalar(SchemaType::Integer), false);
    assert_eq!(r, prim(Primitive::Integer, false, false));
}

#[test]
fn scalar_boolean_not_nullable() {
    let r = normalize(&scalar(SchemaType::Boolean), false);
    assert_eq!(r, prim(Primitive::Boolean, false, false));
}

#[test]
fn scalar_with_null_type_is_nullable() {
    let s = SchemaObject {
        schema_type: Some(SchemaTypeSet::Multiple(vec![SchemaType::String, SchemaType::Null])),
        ..SchemaObject::empty()
    };
    let r = normalize(&s, false);
    assert_eq!(r, prim(Primitive::String, true, false));
}

#[test]
fn scalar_null_first_in_type_set() {
    let s = SchemaObject {
        schema_type: Some(SchemaTypeSet::Multiple(vec![SchemaType::Null, SchemaType::Integer])),
        ..SchemaObject::empty()
    };
    let r = normalize(&s, false);
    assert_eq!(r, prim(Primitive::Integer, true, false));
}

#[test]
fn only_null_type_becomes_never() {
    let s = SchemaObject {
        schema_type: Some(SchemaTypeSet::Multiple(vec![SchemaType::Null])),
        ..SchemaObject::empty()
    };
    let r = normalize(&s, false);
    assert_eq!(r, prim(Primitive::Never, true, false));
}

#[test]
fn const_string_becomes_singleton_enum() {
    let s = SchemaObject {
        const_value: Some(SchemaLiteral { value: "on".to_string(), is_string: true }),
        ..SchemaObject::empty()
    };
    let r = normalize(&s, false);
    assert_eq!(r, prim(Primitive::Enum(vec![("on".to_string(), true)]), false, false));
}

#[test]
fn const_number_becomes_singleton_enum() {
    let s = SchemaObject {
        const_value: Some(SchemaLiteral { value: "5".to_string(), is_string: false }),
        ..SchemaObject::empty()
    };
    let r = normalize(&s, false);
    assert_eq!(r, prim(Primitive::Enum(vec![("5".to_string(), false)]), false, false));
}

#[test]
fn enum_values_kept_in_order() {
    let s = SchemaObject {
        enum_values: vec![
            SchemaLiteral { value: "a".to_string(), is_string: true },
            SchemaLiteral { value: "7".to_string(), is_string: false },
        ],
        ..SchemaObject::empty()
    };
    let r = normalize(&s, false);
    assert_eq!(
        r,
        prim(
            Primitive::Enum(vec![("a".to_string(), true), ("7".to_string(), false)]),
            false,
            false
        )
    );
}

#[test]
fn extensible_enum_appends_unspecified() {
    let s = SchemaObject {
        enum_values: vec![SchemaLiteral { value: "a".to_string(), is_string: true }],
        extensible_enum: true,
        ..SchemaObject::empty()
    };
    let r = normalize(&s, false);
    assert_eq!(
        r,
        prim(
            Primitive::Enum(vec![("a".to_string(), true), ("unspecified".to_string(), false)]),
            false,
            false
        )
    );
}

#[test]
fn binary_format_takes_precedence_over_const() {
    let s = SchemaObject {
        is_binary_format: true,
        const_value: Some(SchemaLiteral { value: "x".to_string(), is_string: true }),
        schema_type: Some(SchemaTypeSet::Single(SchemaType::String)),
        ..SchemaObject::empty()
    };
    let r = normalize(&s, false);
    assert_eq!(r, prim(Primitive::Binary, false, false));
}

#[test]
fn array_with_items_becomes_list() {
    let s = SchemaObject {
        schema_type: Some(SchemaTypeSet::Single(SchemaType::Array)),
        items: Some(Box::new(obj(scalar(SchemaType::String)))),
        ..SchemaObject::empty()
    };
    let r = normalize(&s, false);
    assert_eq!(
        r,
        prim(Primitive::List(Box::new(prim(Primitive::String, false, false))), false, false)
    );
}

#[test]
fn array_without_items_degrades_to_dynamic() {
    let s = SchemaObject {
        schema_type: Some(SchemaTypeSet::Single(SchemaType::Array)),
        ..SchemaObject::empty()
    };
    let r = normalize(&s, false);
    assert_eq!(r, prim(Primitive::Dynamic, false, false));
}

#[test]
fn object_without_properties_becomes_map_of_unit() {
    let s = SchemaObject {
        schema_type: Some(SchemaTypeSet::Single(SchemaType::Object)),
        ..SchemaObject::empty()
    };
    let r = normalize(&s, false);
    let inner = IAST::Object(AnnotatedObj {
        nullable: false,
        optional: false,
        is_deprecated: false,
        description: None,
        title: None,
        value: AlgType::Product(vec![]),
    });
    assert_eq!(r, prim(Primitive::Mapping(Box::new(inner)), false, false));
}

#[test]
fn required_field_not_optional_absent_field_optional() {
    let s = SchemaObject {
        schema_type: Some(SchemaTypeSet::Single(SchemaType::Object)),
        properties: vec![
            ("b".to_string(), obj(scalar(SchemaType::String))),
            ("a".to_string(), obj(scalar(SchemaType::Integer))),
        ],
        required: vec!["a".to_string()],
        ..SchemaObject::empty()
    };
    let r = normalize(&s, false);
    // fields come out sorted by name; "a" is required, "b" is not
    let expected = IAST::Object(AnnotatedObj {
        nullable: false,
        optional: false,
        is_deprecated: false,
        description: None,
        title: None,
        value: AlgType::Product(vec![
            ("a".to_string(), prim(Primitive::Integer, false, false)),
            ("b".to_string(), prim(Primitive::String, false, true)),
        ]),
    });
    assert_eq!(r, expected);
}

#[test]
fn anyof_with_null_member_is_nullable_sum() {
    let s = SchemaObject {
        any_of: vec![
            SchemaOrRef::Ref("#/components/schemas/A".to_string()),
            obj(scalar(SchemaType::Null)),
        ],
        ..SchemaObject::empty()
    };
    let r = normalize(&s, false);
    let expected = IAST::Object(AnnotatedObj {
        nullable: true,
        optional: false,
        is_deprecated: false,
        description: None,
        title: None,
        value: AlgType::Sum(vec![(
            "0".to_string(),
            IAST::Reference(apigen::types::AnnotatedReference {
                path: "#/components/schemas/A".to_string(),
                optional: false,
                nullable: false,
            }),
        )]),
    });
    assert_eq!(r, expected);
}

#[test]
fn anyof_without_null_member_is_not_nullable() {
    let s = SchemaObject {
        any_of: vec![SchemaOrRef::Ref("#/components/schemas/A".to_string())],
        ..SchemaObject::empty()
    };
    let r = normalize(&s, false);
    match r {
        IAST::Object(a) => {
            assert!(!a.nullable);
            assert!(matches!(a.value, AlgType::Sum(_)));
        }
        _ => panic!("expected a sum"),
    }
}

#[test]
fn oneof_used_when_anyof_empty() {
    let s = SchemaObject {
        one_of: vec![obj(scalar(SchemaType::String)), obj(scalar(SchemaType::Integer))],
        ..SchemaObject::empty()
    };
    let r = normalize(&s, false);
    let expected = IAST::Object(AnnotatedObj {
        nullable: false,
        optional: false,
        is_deprecated: false,
        description: None,
        title: None,
        value: AlgType::Sum(vec![
            ("0".to_string(), prim(Primitive::String, false, false)),
            ("1".to_string(), prim(Primitive::Integer, false, false)),
        ]),
    });
    assert_eq!(r, expected);
}

#[test]
fn discriminator_mapping_names_matching_variant() {
    let s = SchemaObject {
        any_of: vec![
            SchemaOrRef::Ref("#/components/schemas/Cat".to_string()),
            SchemaOrRef::Ref("#/components/schemas/Dog".to_string()),
        ],
        discriminator_mapping: vec![(
            "cat".to_string(),
            "#/components/schemas/Cat".to_string(),
        )],
        ..SchemaObject::empty()
    };
    let r = normalize(&s, false);
    match r {
        IAST::Object(a) => match a.value {
            AlgType::Sum(entries) => {
                assert_eq!(entries[0].0, "cat");
                assert_eq!(entries[1].0, "1");
            }
            _ => panic!("expected a sum"),
        },
        _ => panic!("expected an object"),
    }
}

#[test]
fn allof_nullable_reference_shortcut() {
    let s = SchemaObject {
        all_of: vec![
            SchemaOrRef::Ref("#/components/schemas/X".to_string()),
            obj(SchemaObject::empty()),
        ],
        ..SchemaObject::empty()
    };
    let r = normalize(&s, false);
    assert_eq!(
        r,
        IAST::Reference(apigen::types::AnnotatedReference {
            path: "#/components/schemas/X".to_string(),
            optional: false,
            nullable: true,
        })
    );
}

#[test]
fn allof_with_two_refs_is_not_the_shortcut() {
    let s = SchemaObject {
        all_of: vec![
            SchemaOrRef::Ref("#/components/schemas/X".to_string()),
            SchemaOrRef::Ref("#/components/schemas/Y".to_string()),
        ],
        ..SchemaObject::empty()
    };
    let r = normalize(&s, false);
    match r {
        IAST::Primitive(a) => {
            assert!(matches!(a.value, Primitive::Never));
            assert!(a.nullable);
        }
        _ => panic!("expected the fallback"),
    }
}

#[test]
fn unrecognized_shape_degrades_to_never() {
    let r = normalize(&SchemaObject::empty(), false);
    assert_eq!(
        r,
        IAST::Primitive(AnnotatedObj {
            nullable: true,
            optional: false,
            is_deprecated: false,
            description: Some("Couldn't parse Object".to_string()),
            title: None,
            value: Primitive::Never,
        })
    );
}

#[test]
fn fallback_keeps_existing_description() {
    let s = SchemaObject { description: Some("a thing".to_string()), ..SchemaObject::empty() };
    let r = normalize(&s, false);
    match r {
        IAST::Primitive(a) => assert_eq!(a.description, Some("a thing".to_string())),
        _ => panic!("expected the fallback"),
    }
}

#[test]
fn optional_flag_attached_from_context() {
    let r = normalize(&scalar(SchemaType::String), true);
    assert_eq!(r, prim(Primitive::String, false, true));
}

#[test]
fn deprecated_and_docs_carried_over() {
    let s = SchemaObject {
        schema_type: Some(SchemaTypeSet::Single(SchemaType::String)),
        deprecated: true,
        description: Some("d".to_string()),
        title: Some("t".to_string()),
        ..SchemaObject::empty()
    };
    let r = normalize(&s, false);
    assert_eq!(
        r,
        IAST::Primitive(AnnotatedObj {
            nullable: false,
            optional: false,
            is_deprecated: true,
            description: Some("d".to_string()),
            title: Some("t".to_string()),
            value: Primitive::String,
        })
    );
}
