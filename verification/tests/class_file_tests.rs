use classreader::class::ClassBuilder;
use classreader::class_file::ConstantPoolInfo;
use classreader::class_file::parse_class_file;
use classreader::component::AccessModifier;
use classreader::component::Component;
use classreader::component::ComponentKind;
use classreader::component::ExtractorContext;
use classreader::component::PrimTy;
use classreader::component::Ty;
use classreader::component::extract_component;
use classreader::error::Error;
use classreader::error::TagSite;

/// A tiny constant-pool builder for hand-made class files.
struct PoolBuilder {
    data: Vec<u8>,
    count: u16,
}

impl PoolBuilder {
    fn new() -> Self {
        PoolBuilder { data: Vec::new(), count: 1 }
    }

    fn utf8(&mut self, s: &str) -> u16 {
        self.data.push(1);
        self.data.extend_from_slice(&(s.len() as u16).to_be_bytes());
        self.data.extend_from_slice(s.as_bytes());
        let idx = self.count;
        self.count += 1;
        idx
    }

    fn utf8_bytes(&mut self, bytes: &[u8]) -> u16 {
        self.data.push(1);
        self.data.extend_from_slice(&(bytes.len() as u16).to_be_bytes());
        self.data.extend_from_slice(bytes);
        let idx = self.count;
        self.count += 1;
        idx
    }

    fn class(&mut self, name_index: u16) -> u16 {
        self.data.push(7);
        self.data.extend_from_slice(&name_index.to_be_bytes());
        let idx = self.count;
        self.count += 1;
        idx
    }

    fn module_ref(&mut self, name_index: u16) -> u16 {
        self.data.push(19);
        self.data.extend_from_slice(&name_index.to_be_bytes());
        let idx = self.count;
        self.count += 1;
        idx
    }

    fn long(&mut self, hi: u32, lo: u32) -> u16 {
        self.data.push(5);
        self.data.extend_from_slice(&hi.to_be_bytes());
        self.data.extend_from_slice(&lo.to_be_bytes());
        let idx = self.count;
        self.count += 2;
        idx
    }
}

struct FileBuilder {
    pool: PoolBuilder,
    access_flags: u16,
    this_class: u16,
    super_class: u16,
    fields: Vec<u8>,
    fields_count: u16,
    methods: Vec<u8>,
    methods_count: u16,
    attributes: Vec<u8>,
    attributes_count: u16,
}

impl FileBuilder {
    fn new() -> Self {
        FileBuilder {
            pool: PoolBuilder::new(),
            access_flags: 0x0021,
            this_class: 0,
            super_class: 0,
            fields: Vec::new(),
            fields_count: 0,
            methods: Vec::new(),
            methods_count: 0,
            attributes: Vec::new(),
            attributes_count: 0,
        }
    }

    fn add_field(&mut self, flags: u16, name: u16, desc: u16) {
        self.fields.extend_from_slice(&flags.to_be_bytes());
        self.fields.extend_from_slice(&name.to_be_bytes());
        self.fields.extend_from_slice(&desc.to_be_bytes());
        self.fields.extend_from_slice(&0u16.to_be_bytes());
        self.fields_count += 1;
    }

    fn add_method(&mut self, flags: u16, name: u16, desc: u16, attrs: &[u8], n_attrs: u16) {
        self.methods.extend_from_slice(&flags.to_be_bytes());
        self.methods.extend_from_slice(&name.to_be_bytes());
        self.methods.extend_from_slice(&desc.to_be_bytes());
        self.methods.extend_from_slice(&n_attrs.to_be_bytes());
        self.methods.extend_from_slice(attrs);
        self.methods_count += 1;
    }

    fn add_attribute(&mut self, name_index: u16, payload: &[u8]) {
        self.attributes.extend_from_slice(&attribute_bytes(name_index, payload));
        self.attributes_count += 1;
    }

    fn build(&self) -> Vec<u8> {
        let mut out: Vec<u8> = vec![0xCA, 0xFE, 0xBA, 0xBE];
        out.extend_from_slice(&0u16.to_be_bytes());
        out.extend_from_slice(&52u16.to_be_bytes());
        out.extend_from_slice(&self.pool.count.to_be_bytes());
        out.extend_from_slice(&self.pool.data);
        out.extend_from_slice(&self.access_flags.to_be_bytes());
        out.extend_from_slice(&self.this_class.to_be_bytes());
        out.extend_from_slice(&self.super_class.to_be_bytes());
        out.extend_from_slice(&0u16.to_be_bytes());
        out.extend_from_slice(&self.fields_count.to_be_bytes());
        out.extend_from_slice(&self.fields);
        out.extend_from_slice(&self.methods_count.to_be_bytes());
        out.extend_from_slice(&self.methods);
        out.extend_from_slice(&self.attributes_count.to_be_bytes());
        out.extend_from_slice(&self.attributes);
        out
    }
}

fn attribute_bytes(name_index: u16, payload: &[u8]) -> Vec<u8> {
    let mut out = Vec::new();
    out.extend_from_slice(&name_index.to_be_bytes());
    out.extend_from_slice(&(payload.len() as u32).to_be_bytes());
    out.extend_from_slice(payload);
    out
}

fn extract(bytes: &[u8]) -> Result<Component, Error> {
    let cf = parse_class_file(bytes)?;
    extract_component(
        &cf,
        &ExtractorContext { target_access_modifiers: AccessModifier::empty() },
    )
}

/// A class `Demo` extending `java/lang/Object` with a `SourceFile` attribute.
fn demo_builder() -> FileBuilder {
    let mut b = FileBuilder::new();
    let sf = b.pool.utf8("SourceFile");
    let sf_name = b.pool.utf8("Demo.java");
    let demo_name = b.pool.utf8("Demo");
    let this = b.pool.class(demo_name);
    let obj_name = b.pool.utf8("java/lang/Object");
    let sup = b.pool.class(obj_name);
    b.this_class = this;
    b.super_class = sup;
    let payload = sf_name.to_be_bytes();
    b.add_attribute(sf, &payload);
    b
}

#[test]
fn source_file_attribute_names_the_component() {
    let bytes = demo_builder().build();
    let comp = extract(&bytes).unwrap();
    assert_eq!(comp.class_file_name, "Demo.java".to_string());
    match comp.kind {
        ComponentKind::Class(c) => {
            assert_eq!(c.qualified_name, "Demo".to_string());
            assert_eq!(c.super_class, None);
            assert!(c.interfaces.is_empty());
            assert!(c.methods.is_empty());
            assert!(c.fields.is_empty());
        }
        other => panic!("expected a class, got {:?}", other),
    }
}

#[test]
fn bad_magic_is_fatal() {
    let mut bytes = demo_builder().build();
    bytes[0] = 0xCB;
    assert_eq!(parse_class_file(&bytes), Err(Error::BadMagic));
}

#[test]
fn trailing_bytes_are_fatal() {
    let mut bytes = demo_builder().build();
    bytes.push(0);
    assert_eq!(parse_class_file(&bytes), Err(Error::Trailing));
}

#[test]
fn truncated_input_is_fatal() {
    let bytes = demo_builder().build();
    assert_eq!(parse_class_file(&bytes[..bytes.len() - 1]), Err(Error::Truncated));
    assert_eq!(parse_class_file(&bytes[..3]), Err(Error::Truncated));
}

#[test]
fn unknown_constant_tag_is_fatal() {
    let mut b = FileBuilder::new();
    let name = b.pool.utf8("X");
    let this = b.pool.class(name);
    b.this_class = this;
    let mut bytes = b.build();
    // The first pool entry starts right after the 10-byte header.
    bytes[10] = 99;
    assert_eq!(
        parse_class_file(&bytes),
        Err(Error::BadTag { site: TagSite::ConstantPool, value: 99 })
    );
}

#[test]
fn object_itself_has_no_superclass() {
    let mut b = FileBuilder::new();
    let obj_name = b.pool.utf8("java/lang/Object");
    let this = b.pool.class(obj_name);
    b.this_class = this;
    b.super_class = 0;
    let comp = extract(&b.build()).unwrap();
    assert_eq!(comp.class_file_name, "".to_string());
    match comp.kind {
        ComponentKind::Class(c) => {
            assert_eq!(c.qualified_name, "java.lang.Object".to_string());
            assert_eq!(c.super_class, None);
        }
        other => panic!("expected a class, got {:?}", other),
    }
}

#[test]
fn superclass_zero_elsewhere_is_a_structure_error() {
    let mut b = FileBuilder::new();
    let name = b.pool.utf8("NotObject");
    let this = b.pool.class(name);
    b.this_class = this;
    b.super_class = 0;
    assert_eq!(extract(&b.build()), Err(Error::BadStructure));
}

#[test]
fn annotation_interface_extraction() {
    let mut b = FileBuilder::new();
    let ann_name = b.pool.utf8("MyAnn");
    let this = b.pool.class(ann_name);
    let obj_name = b.pool.utf8("java/lang/Object");
    let sup = b.pool.class(obj_name);
    b.this_class = this;
    b.super_class = sup;
    b.access_flags = 0x2600;
    let comp = extract(&b.build()).unwrap();
    match comp.kind {
        ComponentKind::Interface(i) => {
            assert!(i.is_annotation);
            assert_eq!(i.qualified_name, "MyAnn".to_string());
            assert!(i.interfaces.is_empty());
        }
        other => panic!("expected an interface, got {:?}", other),
    }
}

#[test]
fn array_field_descriptor_keeps_dimensions() {
    let mut b = demo_builder();
    let fname = b.pool.utf8("arr");
    let fdesc = b.pool.utf8("[[[D");
    b.add_field(0x0001, fname, fdesc);
    let comp = extract(&b.build()).unwrap();
    match comp.kind {
        ComponentKind::Class(c) => {
            assert_eq!(c.fields.len(), 1);
            assert_eq!(c.fields[0].name, "arr".to_string());
            assert_eq!(
                c.fields[0].ty,
                Ty::Array(Box::new(Ty::Prim(PrimTy::Double)), 3)
            );
        }
        other => panic!("expected a class, got {:?}", other),
    }
}

#[test]
fn method_types_come_from_the_descriptor_without_a_signature() {
    let mut b = demo_builder();
    let mname = b.pool.utf8("foo");
    let mdesc = b.pool.utf8("(ID)V");
    b.add_method(0x0001, mname, mdesc, &[], 0);
    let comp = extract(&b.build()).unwrap();
    match comp.kind {
        ComponentKind::Class(c) => {
            assert_eq!(c.methods.len(), 1);
            let m = &c.methods[0];
            assert_eq!(m.name, "foo".to_string());
            assert_eq!(m.param_tys, vec![Ty::Prim(PrimTy::Int), Ty::Prim(PrimTy::Double)]);
            assert_eq!(m.ret_ty, Ty::Void);
            assert!(m.type_params.is_empty());
            assert!(m.signature.is_none());
        }
        other => panic!("expected a class, got {:?}", other),
    }
}

#[test]
fn method_types_come_from_the_signature_when_present() {
    let mut b = demo_builder();
    let mname = b.pool.utf8("id");
    let mdesc = b.pool.utf8("(Ljava/lang/Object;)Ljava/lang/Object;");
    let sig_attr = b.pool.utf8("Signature");
    let sig_text = b.pool.utf8("<T:Ljava/lang/Object;>(TT;)TT;");
    let attr = attribute_bytes(sig_attr, &sig_text.to_be_bytes());
    b.add_method(0x0001, mname, mdesc, &attr, 1);
    let comp = extract(&b.build()).unwrap();
    match comp.kind {
        ComponentKind::Class(c) => {
            let m = &c.methods[0];
            assert_eq!(m.param_tys, vec![Ty::TyVar("T".to_string())]);
            assert_eq!(m.ret_ty, Ty::TyVar("T".to_string()));
            assert_eq!(m.type_params, vec!["T".to_string()]);
            assert!(m.signature.is_some());
        }
        other => panic!("expected a class, got {:?}", other),
    }
}

#[test]
fn public_filter_keeps_only_public_members() {
    let mut b = demo_builder();
    let foo = b.pool.utf8("foo");
    let bar = b.pool.utf8("bar");
    let vdesc = b.pool.utf8("()V");
    b.add_method(0x0001, foo, vdesc, &[], 0);
    b.add_method(0x0002, bar, vdesc, &[], 0);
    let bytes = b.build();
    let cf = parse_class_file(&bytes).unwrap();
    let comp = extract_component(
        &cf,
        &ExtractorContext {
            target_access_modifiers: AccessModifier { bits: AccessModifier::PUBLIC },
        },
    )
    .unwrap();
    match comp.kind {
        ComponentKind::Class(c) => {
            assert_eq!(c.methods.len(), 1);
            assert_eq!(c.methods[0].name, "foo".to_string());
        }
        other => panic!("expected a class, got {:?}", other),
    }
    let unfiltered = extract(&bytes).unwrap();
    match unfiltered.kind {
        ComponentKind::Class(c) => assert_eq!(c.methods.len(), 2),
        other => panic!("expected a class, got {:?}", other),
    }
}

#[test]
fn module_extraction() {
    let mut b = FileBuilder::new();
    let mod_name_txt = b.pool.utf8("my.mod");
    let mod_entry = b.pool.module_ref(mod_name_txt);
    let mod_attr = b.pool.utf8("Module");
    let version = b.pool.utf8("1.0");
    b.access_flags = 0x8000;
    b.this_class = 0;
    b.super_class = 0;
    let mut payload = Vec::new();
    payload.extend_from_slice(&mod_entry.to_be_bytes());
    payload.extend_from_slice(&0u16.to_be_bytes());
    payload.extend_from_slice(&version.to_be_bytes());
    payload.extend_from_slice(&0u16.to_be_bytes());
    payload.extend_from_slice(&0u16.to_be_bytes());
    payload.extend_from_slice(&0u16.to_be_bytes());
    payload.extend_from_slice(&0u16.to_be_bytes());
    payload.extend_from_slice(&0u16.to_be_bytes());
    b.add_attribute(mod_attr, &payload);
    let comp = extract(&b.build()).unwrap();
    match comp.kind {
        ComponentKind::Module(m) => {
            assert_eq!(m.name, "my.mod".to_string());
            assert_eq!(m.version, "1.0".to_string());
        }
        other => panic!("expected a module, got {:?}", other),
    }
}

#[test]
fn module_class_file_without_module_attribute_is_fatal() {
    let mut b = FileBuilder::new();
    let name = b.pool.utf8("anything");
    b.pool.class(name);
    b.access_flags = 0x8000;
    assert_eq!(extract(&b.build()), Err(Error::BadStructure));
}

#[test]
fn modified_utf8_decodes_embedded_nul() {
    let mut b = demo_builder();
    // "A", then U+0000 in its two-byte form, then "B".
    let odd = b.pool.utf8_bytes(&[0x41, 0xC0, 0x80, 0x42]);
    let bytes = b.build();
    let cf = parse_class_file(&bytes).unwrap();
    match &cf.constant_pool[odd as usize] {
        Some(ConstantPoolInfo::Utf8 { utf8_str, .. }) => {
            assert_eq!(utf8_str, "A\u{0}B");
        }
        other => panic!("expected a Utf8 entry, got {:?}", other),
    }
}

#[test]
fn long_constant_occupies_two_slots() {
    let mut b = demo_builder();
    let l = b.pool.long(0x12345678, 0x9ABCDEF0);
    let bytes = b.build();
    let cf = parse_class_file(&bytes).unwrap();
    assert_eq!(cf.constant_pool.len() as u16, cf.constant_pool_count);
    assert_eq!(
        cf.constant_pool[l as usize],
        Some(ConstantPoolInfo::Long { high_bytes: 0x12345678, low_bytes: 0x9ABCDEF0 })
    );
    assert_eq!(cf.constant_pool[(l + 1) as usize], None);
    assert_eq!(cf.constant_pool[0], None);
}

#[test]
fn class_builder_reads_attribute_names() {
    let bytes = demo_builder().build();
    let cf = parse_class_file(&bytes).unwrap();
    let minor = cf.minor_version;
    let major = cf.major_version;
    let builder = ClassBuilder::new(cf);
    let built = builder.build();
    assert_eq!(built.info.minor_version, minor);
    assert_eq!(built.info.major_version, major);
    let attr = &builder.class_file.attributes[0];
    let name = builder.read_attribute(attr).unwrap();
    assert_eq!(name, "SourceFile");
}

#[test]
fn runtime_visible_annotations_are_collected() {
    let mut b = demo_builder();
    let rva = b.pool.utf8("RuntimeVisibleAnnotations");
    let ann_ty = b.pool.utf8("LMyAnn;");
    // One annotation of type `LMyAnn;` with no element-value pairs.
    let mut payload = Vec::new();
    payload.extend_from_slice(&1u16.to_be_bytes());
    payload.extend_from_slice(&ann_ty.to_be_bytes());
    payload.extend_from_slice(&0u16.to_be_bytes());
    b.add_attribute(rva, &payload);
    let comp = extract(&b.build()).unwrap();
    match comp.kind {
        ComponentKind::Class(c) => {
            assert_eq!(c.annotations.len(), 1);
            assert_eq!(
                c.annotations[0].kind,
                classreader::component::AnnotationKind::RuntimeVisible
            );
            match &c.annotations[0].ty {
                Ty::Reference(n) => assert_eq!(n.name, "MyAnn".to_string()),
                other => panic!("expected a reference type, got {:?}", other),
            }
        }
        other => panic!("expected a class, got {:?}", other),
    }
}
