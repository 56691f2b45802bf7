use classreader::error::Error;
use classreader::signature::BaseType;
use classreader::signature::ClassSignature;
use classreader::signature::ClassTypeSignature;
use classreader::signature::MethodSignature;
use classreader::signature::ReferenceTypeSignature;
use classreader::signature::SigResult;
use classreader::signature::SimpleClassTypeSignature;
use classreader::signature::TypeArgument;
use classreader::signature::TypeParameter;
use classreader::signature::TypeSignature;
use classreader::signature::TypeVariableSignature;
use classreader::signature::parse_class_signature;
use classreader::signature::parse_field_signature;
use classreader::signature::parse_method_signature;
use classreader::signature::parse_type_signature;

#[test]
fn test_java_type_signature() {
    let test_cases = [
        ("B", TypeSignature::Base(BaseType::Byte)),
        (
            "Ljava/lang/String;",
            TypeSignature::Reference(ReferenceTypeSignature::Class(ClassTypeSignature {
                package_specifier: Some("java.lang".to_string()),
                simple_class_type_signature: SimpleClassTypeSignature {
                    identifier: "String".to_string(),
                    type_arguments: None,
                },
                class_type_signature_suffixes: vec![],
            })),
        ),
        (
            "Ljava/util/List<Ljava/lang/String;>;",
            TypeSignature::Reference(ReferenceTypeSignature::Class(ClassTypeSignature {
                package_specifier: Some("java.util".to_string()),
                simple_class_type_signature: SimpleClassTypeSignature {
                    identifier: "List".to_string(),
                    type_arguments: Some(vec![TypeArgument::ReferenceType(
                        None,
                        ReferenceTypeSignature::Class(ClassTypeSignature {
                            package_specifier: Some("java.lang".to_string()),
                            simple_class_type_signature: SimpleClassTypeSignature {
                                identifier: "String".to_string(),
                                type_arguments: None,
                            },
                            class_type_signature_suffixes: vec![],
                        }),
                    )]),
                },
                class_type_signature_suffixes: vec![],
            })),
        ),
    ];

    for (input, expect) in test_cases.iter() {
        let (_, actual) = parse_type_signature(input).unwrap();
        assert_eq!(actual, *expect);
    }
}

#[test]
fn test_class_signature() {
    let test_cases = [(
        "<T:Ljava/lang/Object;>Ljava/lang/Object;",
        ClassSignature {
            type_parameters: Some(vec![TypeParameter {
                identifier: "T".to_string(),
                class_bound: Some(ReferenceTypeSignature::Class(ClassTypeSignature {
                    package_specifier: Some("java.lang".to_string()),
                    simple_class_type_signature: SimpleClassTypeSignature {
                        identifier: "Object".to_string(),
                        type_arguments: None,
                    },
                    class_type_signature_suffixes: vec![],
                })),
                interface_bounds: vec![],
            }]),
            superclass_signature: ClassTypeSignature {
                package_specifier: Some("java.lang".to_string()),
                simple_class_type_signature: SimpleClassTypeSignature {
                    identifier: "Object".to_string(),
                    type_arguments: None,
                },
                class_type_signature_suffixes: vec![],
            },
            superinterface_signatures: vec![],
        },
    )];

    for (input, expect) in test_cases.iter() {
        let (_, actual) = parse_class_signature(input).unwrap();
        assert_eq!(actual, *expect);
    }
}

#[test]
fn test_method_signature() {
    let test_cases = [
        (
            "<T:Ljava/lang/Object;>(Ljava/lang/Object;)TT;",
            MethodSignature {
                type_parameters: Some(vec![TypeParameter {
                    identifier: "T".to_string(),
                    class_bound: Some(ReferenceTypeSignature::Class(ClassTypeSignature {
                        package_specifier: Some("java.lang".to_string()),
                        simple_class_type_signature: SimpleClassTypeSignature {
                            identifier: "Object".to_string(),
                            type_arguments: None,
                        },
                        class_type_signature_suffixes: vec![],
                    })),
                    interface_bounds: vec![],
                }]),
                parameters: vec![TypeSignature::Reference(ReferenceTypeSignature::Class(
                    ClassTypeSignature {
                        package_specifier: Some("java.lang".to_string()),
                        simple_class_type_signature: SimpleClassTypeSignature {
                            identifier: "Object".to_string(),
                            type_arguments: None,
                        },
                        class_type_signature_suffixes: vec![],
                    },
                ))],
                result: SigResult::JavaTypeSignature(TypeSignature::Reference(
                    ReferenceTypeSignature::TypeVariable(TypeVariableSignature {
                        identifier: "T".to_string(),
                    }),
                )),
                throws_signatures: vec![],
            },
        ),
        (
            "(Ljava/lang/Object;)Ljava/lang/Object;",
            MethodSignature {
                type_parameters: None,
                parameters: vec![TypeSignature::Reference(ReferenceTypeSignature::Class(
                    ClassTypeSignature {
                        package_specifier: Some("java.lang".to_string()),
                        simple_class_type_signature: SimpleClassTypeSignature {
                            identifier: "Object".to_string(),
                            type_arguments: None,
                        },
                        class_type_signature_suffixes: vec![],
                    },
                ))],
                result: SigResult::JavaTypeSignature(TypeSignature::Reference(
                    ReferenceTypeSignature::Class(ClassTypeSignature {
                        package_specifier: Some("java.lang".to_string()),
                        simple_class_type_signature: SimpleClassTypeSignature {
                            identifier: "Object".to_string(),
                            type_arguments: None,
                        },
                        class_type_signature_suffixes: vec![],
                    }),
                )),
                throws_signatures: vec![],
            },
        ),
    ];

    for (input, expect) in test_cases.iter() {
        let (_, actual) = parse_method_signature(input).unwrap();
        assert_eq!(actual, *expect);
    }
}

#[test]
fn signature_leaves_rest_unconsumed() {
    let (rest, _) = parse_type_signature("IJunk").unwrap();
    assert_eq!(rest, "Junk");
}

#[test]
fn bad_signature_is_rejected() {
    assert!(matches!(
        parse_field_signature("123"),
        Err(Error::BadSignature { .. })
    ));
    assert!(matches!(
        parse_method_signature("no-parens"),
        Err(Error::BadSignature { .. })
    ));
}

#[test]
fn wildcard_type_arguments() {
    let (rest, actual) = parse_type_signature("Ljava/util/List<*>;").unwrap();
    assert_eq!(rest, "");
    match actual {
        TypeSignature::Reference(ReferenceTypeSignature::Class(c)) => {
            assert_eq!(
                c.simple_class_type_signature.type_arguments,
                Some(vec![TypeArgument::Any])
            );
        }
        other => panic!("unexpected parse: {:?}", other),
    }
}
