use classreader::descriptor::ArrayTy;
use classreader::descriptor::BaseTy;
use classreader::descriptor::FieldDescriptor;
use classreader::descriptor::FieldTy;
use classreader::descriptor::MethodDescriptor;
use classreader::descriptor::ObjTy;
use classreader::descriptor::ReturnDescriptor;
use classreader::descriptor::parse_field_descriptor;
use classreader::descriptor::parse_method_descriptor;
use classreader::error::Error;

#[test]
fn test_field_descriptor() {
    let test_cases = ["I", "Ljava/lang/Object;", "[[[D"];
    let expected = [
        FieldDescriptor {
            descriptor: "I".to_string(),
            ty: FieldTy::Base(BaseTy::Int),
        },
        FieldDescriptor {
            descriptor: "Ljava/lang/Object;".to_string(),
            ty: FieldTy::Obj(ObjTy {
                class_name: "java/lang/Object".to_string(),
            }),
        },
        FieldDescriptor {
            descriptor: "[[[D".to_string(),
            ty: FieldTy::Array(ArrayTy {
                ty: Box::new(FieldTy::Base(BaseTy::Double)),
                dims: 3,
            }),
        },
    ];

    for (i, test_case) in test_cases.iter().enumerate() {
        let actual = parse_field_descriptor(test_case).unwrap();
        assert_eq!(actual.descriptor, expected[i].descriptor);
        assert_eq!(actual.ty, expected[i].ty);
    }
}

#[test]
fn test_method_descriptor() {
    let test_cases = ["(IDLjava/lang/Thread;)Ljava/lang/Object;"];
    let expected = [MethodDescriptor {
        descriptor: "(IDLjava/lang/Thread;)Ljava/lang/Object;".to_string(),
        param_descs: vec![
            FieldDescriptor {
                descriptor: "I".to_string(),
                ty: FieldTy::Base(BaseTy::Int),
            },
            FieldDescriptor {
                descriptor: "D".to_string(),
                ty: FieldTy::Base(BaseTy::Double),
            },
            FieldDescriptor {
                descriptor: "Ljava/lang/Thread;".to_string(),
                ty: FieldTy::Obj(ObjTy {
                    class_name: "java/lang/Thread".to_string(),
                }),
            },
        ],
        ret_desc: ReturnDescriptor::TyDesc(FieldDescriptor {
            descriptor: "Ljava/lang/Object;".to_string(),
            ty: FieldTy::Obj(ObjTy {
                class_name: "java/lang/Object".to_string(),
            }),
        }),
    }];

    for (i, test_case) in test_cases.iter().enumerate() {
        let actual = parse_method_descriptor(test_case).unwrap();
        assert_eq!(actual.descriptor, expected[i].descriptor);
        assert_eq!(actual.param_descs, expected[i].param_descs);
        assert_eq!(actual.ret_desc, expected[i].ret_desc);
    }
}

#[test]
fn field_descriptor_consumes_prefix_only() {
    let actual = parse_field_descriptor("IJunk").unwrap();
    assert_eq!(actual.descriptor, "I".to_string());
    assert_eq!(actual.ty, FieldTy::Base(BaseTy::Int));
}

#[test]
fn bad_field_descriptor_is_rejected() {
    assert_eq!(parse_field_descriptor("Q"), Err(Error::BadDescriptor));
    assert_eq!(parse_field_descriptor(""), Err(Error::BadDescriptor));
    assert_eq!(parse_field_descriptor("Ljava/lang/Object"), Err(Error::BadDescriptor));
    assert_eq!(parse_field_descriptor("["), Err(Error::BadDescriptor));
}

#[test]
fn bad_method_descriptor_is_rejected() {
    assert_eq!(parse_method_descriptor("I"), Err(Error::BadDescriptor));
    assert_eq!(parse_method_descriptor("(I"), Err(Error::BadDescriptor));
    assert_eq!(parse_method_descriptor("(I)Vx"), Err(Error::BadDescriptor));
}

#[test]
fn void_method_descriptor() {
    let actual = parse_method_descriptor("()V").unwrap();
    assert_eq!(actual.param_descs.len(), 0);
    assert_eq!(actual.ret_desc, ReturnDescriptor::Void);
}
