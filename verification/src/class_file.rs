//! The binary class-file format.
//!
//! `parse_class_file` decodes magic and versions, the constant pool, access
//! flags, `this_class` / `super_class`, interfaces, fields, methods and the
//! attribute family into a `ClassFile` tree. Multi-byte integers are
//! big-endian; `Utf8` constants use the JVM's modified UTF-8. `Long` and
//! `Double` constants occupy two constant-pool slots; the pool is stored as a
//! 1-indexed table whose slot 0 and wide companion slots are empty.

use vstd::prelude::*;

use crate::error::Error;
use crate::error::IndexSite;
use crate::error::TagSite;

verus! {

// ---------------------------------------------------------------------------
// Access-flag bitsets.
// ---------------------------------------------------------------------------
/// Whether every bit of `mask` is set in `bits`.
pub open spec fn has_flags(bits: u16, mask: u16) -> bool {
    bits & mask == mask
}

/// Class-level access flags, kept exactly as read.
#[derive(Debug, Clone, Copy, PartialEq, Eq, Structural)]
pub struct AccessFlags {
    pub bits: u16,
}

impl AccessFlags {
    pub const PUBLIC: u16 = 0x0001;

    pub const FINAL: u16 = 0x0010;

    pub const SUPER: u16 = 0x0020;

    pub const INTERFACE: u16 = 0x0200;

    pub const ABSTRACT: u16 = 0x0400;

    pub const SYNTHETIC: u16 = 0x1000;

    pub const ANNOTATION: u16 = 0x2000;

    pub const ENUM: u16 = 0x4000;

    pub const MODULE: u16 = 0x8000;

    pub fn contains(&self, mask: u16) -> (r: bool)
        ensures
            r == has_flags(self.bits, mask),
    {
        self.bits & mask == mask
    }
}

/// Field access flags, kept exactly as read.
#[derive(Debug, Clone, Copy, PartialEq, Eq, Structural)]
pub struct FieldAccessFlags {
    pub bits: u16,
}

impl FieldAccessFlags {
    pub const PUBLIC: u16 = 0x0001;

    pub const PRIVATE: u16 = 0x0002;

    pub const PROTECTED: u16 = 0x0004;

    pub const STATIC: u16 = 0x0008;

    pub const FINAL: u16 = 0x0010;

    pub const VOLATILE: u16 = 0x0040;

    pub const TRANSIENT: u16 = 0x0080;

    pub const SYNTHETIC: u16 = 0x1000;

    pub const ENUM: u16 = 0x4000;

    pub fn contains(&self, mask: u16) -> (r: bool)
        ensures
            r == has_flags(self.bits, mask),
    {
        self.bits & mask == mask
    }
}

/// Method access flags, kept exactly as read.
#[derive(Debug, Clone, Copy, PartialEq, Eq, Structural)]
pub struct MethodAccessFlags {
    pub bits: u16,
}

impl MethodAccessFlags {
    pub const PUBLIC: u16 = 0x0001;

    pub const PRIVATE: u16 = 0x0002;

    pub const PROTECTED: u16 = 0x0004;

    pub const STATIC: u16 = 0x0008;

    pub const FINAL: u16 = 0x0010;

    pub const SYNCHRONIZED: u16 = 0x0020;

    pub const BRIDGE: u16 = 0x0040;

    pub const VARARGS: u16 = 0x0080;

    pub const NATIVE: u16 = 0x0100;

    pub const ABSTRACT: u16 = 0x0400;

    pub const STRICT: u16 = 0x0800;

    pub const SYNTHETIC: u16 = 0x1000;

    pub fn contains(&self, mask: u16) -> (r: bool)
        ensures
            r == has_flags(self.bits, mask),
    {
        self.bits & mask == mask
    }
}

// ---------------------------------------------------------------------------
// The class-file tree.
// ---------------------------------------------------------------------------
#[derive(Debug, PartialEq, Eq)]
pub enum ConstantPoolInfo {
    Class { name_index: u16 },
    Fieldref { class_index: u16, name_and_type_index: u16 },
    Methodref { class_index: u16, name_and_type_index: u16 },
    InterfaceMethodref { class_index: u16, name_and_type_index: u16 },
    String { string_index: u16 },
    Integer { bytes: u32 },
    Float { bytes: u32 },
    Long { high_bytes: u32, low_bytes: u32 },
    Double { high_bytes: u32, low_bytes: u32 },
    NameAndType { name_index: u16, descriptor_index: u16 },
    Utf8 { length: u16, bytes: Vec<u8>, utf8_str: String },
    MethodHandle { reference_kind: u8, reference_index: u16 },
    MethodType { descriptor_index: u16 },
    Dynamic { bootstrap_method_attr_index: u16, name_and_type_index: u16 },
    InvokeDynamic { bootstrap_method_attr_index: u16, name_and_type_index: u16 },
    Module { name_index: u16 },
    Package { name_index: u16 },
}

#[derive(Debug, Clone, Copy, PartialEq, Eq, Structural)]
pub struct ExceptionTableEntry {
    pub start_pc: u16,
    pub end_pc: u16,
    pub handler_pc: u16,
    pub catch_type: u16,
}

#[derive(Debug, Clone, Copy, PartialEq, Eq, Structural)]
pub enum VerificationTypeInfo {
    Top,
    Integer,
    Float,
    Long,
    Double,
    Null,
    UninitializedThis,
    Object { cpool_index: u16 },
    Uninitialized { offset: u16 },
}

#[derive(Debug, PartialEq, Eq)]
pub enum StackMapFrameKind {
    Same,
    SameLocals1StackItem { stack: VerificationTypeInfo },
    SameLocals1StackItemExtended { offset_delta: u16, stack: VerificationTypeInfo },
    Chop { offset_delta: u16 },
    SameExtended { offset_delta: u16 },
    Append { offset_delta: u16, locals: Vec<VerificationTypeInfo> },
    Full {
        offset_delta: u16,
        number_of_locals: u16,
        locals: Vec<VerificationTypeInfo>,
        number_of_stack_items: u16,
        stack: Vec<VerificationTypeInfo>,
    },
}

#[derive(Debug, PartialEq, Eq)]
pub struct StackMapFrame {
    pub frame_type: u8,
    pub kind: StackMapFrameKind,
}

#[derive(Debug, PartialEq, Eq)]
pub struct BootstrapMethod {
    pub bootstrap_method_ref: u16,
    pub num_bootstrap_arguments: u16,
    pub bootstrap_arguments: Vec<u16>,
}

#[derive(Debug, Clone, Copy, PartialEq, Eq, Structural)]
pub struct Parameter {
    pub name_index: u16,
    pub access_flags: u16,
}

#[derive(Debug, Clone, Copy, PartialEq, Eq, Structural)]
pub struct InnerClass {
    pub inner_class_info_index: u16,
    pub outer_class_info_index: u16,
    pub inner_name_index: u16,
    pub inner_class_access_flags: u16,
}

#[derive(Debug, Clone, Copy, PartialEq, Eq, Structural)]
pub struct LineNumberTableEntry {
    pub start_pc: u16,
    pub line_number: u16,
}

#[derive(Debug, Clone, Copy, PartialEq, Eq, Structural)]
pub struct LocalVariableTableEntry {
    pub start_pc: u16,
    pub length: u16,
    pub name_index: u16,
    pub descriptor_index: u16,
    pub index: u16,
}

#[derive(Debug, Clone, Copy, PartialEq, Eq, Structural)]
pub struct LocalVariableTypeTableEntry {
    pub start_pc: u16,
    pub length: u16,
    pub name_index: u16,
    pub signature_index: u16,
    pub index: u16,
}

/// An annotation structure as stored in the class file.
#[derive(Debug, PartialEq, Eq)]
pub struct Annotation {
    pub type_index: u16,
    pub num_element_value_pairs: u16,
    pub element_value_pairs: Vec<ElementValuePair>,
}

#[derive(Debug, PartialEq, Eq)]
pub struct ElementValuePair {
    pub element_name_index: u16,
    pub value: ElementValue,
}

#[derive(Debug, PartialEq, Eq)]
pub enum ElementValue {
    Byte { const_value_index: u16 },
    Char { const_value_index: u16 },
    Double { const_value_index: u16 },
    Float { const_value_index: u16 },
    Int { const_value_index: u16 },
    Long { const_value_index: u16 },
    Short { const_value_index: u16 },
    Boolean { const_value_index: u16 },
    String { const_value_index: u16 },
    EnumConst { type_name_index: u16, const_name_index: u16 },
    ClassInfoIndex { class_info_index: u16 },
    AnnotationValue { annotation: Annotation },
    ArrayValue { num_values: u16, values: Vec<ElementValue> },
}

#[derive(Debug, PartialEq, Eq)]
pub struct ParameterAnnotation {
    pub num_annotations: u16,
    pub annotations: Vec<Annotation>,
}

#[derive(Debug, Clone, Copy, PartialEq, Eq, Structural)]
pub struct LocalVarTarget {
    pub start_pc: u16,
    pub length: u16,
    pub index: u16,
}

#[derive(Debug, PartialEq, Eq)]
pub enum TargetInfoKind {
    TypeParameter { type_parameter_index: u8 },
    SuperType { super_type_index: u16 },
    TypeParameterBound { type_parameter_index: u8, bound_index: u8 },
    Empty,
    FormalParameter { formal_parameter_index: u8 },
    Throws { throws_type_index: u16 },
    LocalVar { table_length: u16, table: Vec<LocalVarTarget> },
    Catch { exception_table_index: u16 },
    Offset { offset: u16 },
    TypeArgument { offset: u16, type_argument_index: u8 },
}

#[derive(Debug, PartialEq, Eq)]
pub struct TargetInfo {
    pub target_type: u8,
    pub target_info_kind: TargetInfoKind,
}

#[derive(Debug, Clone, Copy, PartialEq, Eq, Structural)]
pub struct Path {
    pub type_path_kind: u8,
    pub type_argument_index: u8,
}

#[derive(Debug, PartialEq, Eq)]
pub struct TypePath {
    pub path_length: u8,
    pub path: Vec<Path>,
}

#[derive(Debug, PartialEq, Eq)]
pub struct TypeAnnotation {
    pub target_type: u8,
    pub target_info: TargetInfo,
    pub target_path: TypePath,
    pub type_index: u16,
    pub num_element_value_pairs: u16,
    pub element_value_pairs: Vec<ElementValuePair>,
}

#[derive(Debug, Clone, Copy, PartialEq, Eq, Structural)]
pub struct ModuleRequires {
    pub requires_index: u16,
    pub requires_flags: u16,
    pub requires_version_index: u16,
}

#[derive(Debug, PartialEq, Eq)]
pub struct ModuleExports {
    pub exports_index: u16,
    pub exports_flags: u16,
    pub exports_to_count: u16,
    pub exports_to_index: Vec<u16>,
}

#[derive(Debug, PartialEq, Eq)]
pub struct ModuleOpens {
    pub opens_index: u16,
    pub opens_flags: u16,
    pub opens_to_count: u16,
    pub opens_to_index: Vec<u16>,
}

#[derive(Debug, PartialEq, Eq)]
pub struct ModuleProvides {
    pub provides_index: u16,
    pub provides_with_count: u16,
    pub provides_with_index: Vec<u16>,
}

#[derive(Debug, PartialEq, Eq)]
pub struct RecordComponent {
    pub name_index: u16,
    pub descriptor_index: u16,
    pub attributes_count: u16,
    pub attributes: Vec<AttributeInfo>,
}

/// An attribute: its name index, declared length, raw payload, and the
/// decoded payload for the recognized attribute kinds.
#[derive(Debug, PartialEq, Eq)]
pub struct AttributeInfo {
    pub attribute_name_index: u16,
    pub attribute_length: u32,
    pub info: Vec<u8>,
    pub kind: AttributeKind,
}

#[derive(Debug, PartialEq, Eq)]
pub enum AttributeKind {
    ConstantValue { constant_value_index: u16 },
    Code {
        max_stack: u16,
        max_locals: u16,
        code_length: u32,
        code: Vec<u8>,
        exception_table_length: u16,
        exception_table: Vec<ExceptionTableEntry>,
        attributes_count: u16,
        attributes: Vec<AttributeInfo>,
    },
    StackMapTable { number_of_entries: u16, entries: Vec<StackMapFrame> },
    BootstrapMethods { num_bootstrap_methods: u16, bootstrap_methods: Vec<BootstrapMethod> },
    NestHost { host_class_index: u16 },
    NestMembers { number_of_classes: u16, classes: Vec<u16> },
    PermittedSubclasses { number_of_classes: u16, classes: Vec<u16> },
    Exceptions { number_of_exceptions: u16, exception_index_table: Vec<u16> },
    InnerClasses { number_of_classes: u16, classes: Vec<InnerClass> },
    EnclosingMethod { class_index: u16, method_index: u16 },
    Synthetic,
    Signature { signature_index: u16 },
    Record { components_count: u16, components: Vec<RecordComponent> },
    SourceFile { sourcefile_index: u16 },
    LineNumberTable { line_number_table_length: u16, line_number_table: Vec<LineNumberTableEntry> },
    LocalVariableTable {
        local_variable_table_length: u16,
        local_variable_table: Vec<LocalVariableTableEntry>,
    },
    LocalVariableTypeTable {
        local_variable_type_table_length: u16,
        local_variable_type_table: Vec<LocalVariableTypeTableEntry>,
    },
    SourceDebugExtension { debug_extension: Vec<u8> },
    Deprecated,
    RuntimeVisibleAnnotations { num_annotations: u16, annotations: Vec<Annotation> },
    RuntimeInvisibleAnnotations { num_annotations: u16, annotations: Vec<Annotation> },
    RuntimeVisibleParameterAnnotations {
        num_parameters: u8,
        parameter_annotations: Vec<ParameterAnnotation>,
    },
    RuntimeInvisibleParameterAnnotations {
        num_parameters: u8,
        parameter_annotations: Vec<ParameterAnnotation>,
    },
    RuntimeVisibleTypeAnnotations { num_annotations: u16, type_annotations: Vec<TypeAnnotation> },
    RuntimeInvisibleTypeAnnotations { num_annotations: u16, type_annotations: Vec<TypeAnnotation> },
    AnnotationDefault { default_value: ElementValue },
    MethodParameters { parameters_count: u8, parameters: Vec<Parameter> },
    Module {
        module_name_index: u16,
        module_flags: u16,
        module_version_index: u16,
        requires_count: u16,
        requires_list: Vec<ModuleRequires>,
        exports_count: u16,
        exports: Vec<ModuleExports>,
        opens_count: u16,
        opens: Vec<ModuleOpens>,
        uses_count: u16,
        uses_index: Vec<u16>,
        provides_count: u16,
        provides: Vec<ModuleProvides>,
    },
    ModulePackages { package_count: u16, package_index: Vec<u16> },
    ModuleMainClass { main_class_index: u16 },
    Unknown,
}

#[derive(Debug, PartialEq, Eq)]
pub struct FieldInfo {
    pub access_flags: FieldAccessFlags,
    pub name_index: u16,
    pub descriptor_index: u16,
    pub attributes_count: u16,
    pub attributes: Vec<AttributeInfo>,
}

#[derive(Debug, PartialEq, Eq)]
pub struct MethodInfo {
    pub access_flags: MethodAccessFlags,
    pub name_index: u16,
    pub descriptor_index: u16,
    pub attributes_count: u16,
    pub attributes: Vec<AttributeInfo>,
}

/// A parsed class file. The constant pool is 1-indexed: slot 0 is empty, and
/// the slot after each `Long` or `Double` entry is empty.
#[derive(Debug, PartialEq, Eq)]
pub struct ClassFile {
    pub minor_version: u16,
    pub major_version: u16,
    pub constant_pool_count: u16,
    pub constant_pool: Vec<Option<ConstantPoolInfo>>,
    pub access_flags: AccessFlags,
    pub this_class: u16,
    pub super_class: u16,
    pub interfaces_count: u16,
    pub interfaces: Vec<u16>,
    pub fields_count: u16,
    pub fields: Vec<FieldInfo>,
    pub methods_count: u16,
    pub methods: Vec<MethodInfo>,
    pub attributes_count: u16,
    pub attributes: Vec<AttributeInfo>,
}

// ---------------------------------------------------------------------------
// Mathematical mirrors for the types that own byte or string payloads.
// ---------------------------------------------------------------------------
pub enum CpInfoV {
    Class { name_index: u16 },
    Fieldref { class_index: u16, name_and_type_index: u16 },
    Methodref { class_index: u16, name_and_type_index: u16 },
    InterfaceMethodref { class_index: u16, name_and_type_index: u16 },
    String { string_index: u16 },
    Integer { bytes: u32 },
    Float { bytes: u32 },
    Long { high_bytes: u32, low_bytes: u32 },
    Double { high_bytes: u32, low_bytes: u32 },
    NameAndType { name_index: u16, descriptor_index: u16 },
    Utf8 { length: u16, bytes: Seq<u8>, utf8_str: Seq<char> },
    MethodHandle { reference_kind: u8, reference_index: u16 },
    MethodType { descriptor_index: u16 },
    Dynamic { bootstrap_method_attr_index: u16, name_and_type_index: u16 },
    InvokeDynamic { bootstrap_method_attr_index: u16, name_and_type_index: u16 },
    Module { name_index: u16 },
    Package { name_index: u16 },
}

pub enum StackMapFrameKindV {
    Same,
    SameLocals1StackItem { stack: VerificationTypeInfo },
    SameLocals1StackItemExtended { offset_delta: u16, stack: VerificationTypeInfo },
    Chop { offset_delta: u16 },
    SameExtended { offset_delta: u16 },
    Append { offset_delta: u16, locals: Seq<VerificationTypeInfo> },
    Full {
        offset_delta: u16,
        number_of_locals: u16,
        locals: Seq<VerificationTypeInfo>,
        number_of_stack_items: u16,
        stack: Seq<VerificationTypeInfo>,
    },
}

pub struct StackMapFrameV {
    pub frame_type: u8,
    pub kind: StackMapFrameKindV,
}

pub struct BootstrapMethodV {
    pub bootstrap_method_ref: u16,
    pub num_bootstrap_arguments: u16,
    pub bootstrap_arguments: Seq<u16>,
}

pub struct AnnotationV {
    pub type_index: u16,
    pub num_element_value_pairs: u16,
    pub element_value_pairs: Seq<ElementValuePairV>,
}

pub struct ElementValuePairV {
    pub element_name_index: u16,
    pub value: ElementValueV,
}

pub enum ElementValueV {
    Byte { const_value_index: u16 },
    Char { const_value_index: u16 },
    Double { const_value_index: u16 },
    Float { const_value_index: u16 },
    Int { const_value_index: u16 },
    Long { const_value_index: u16 },
    Short { const_value_index: u16 },
    Boolean { const_value_index: u16 },
    String { const_value_index: u16 },
    EnumConst { type_name_index: u16, const_name_index: u16 },
    ClassInfoIndex { class_info_index: u16 },
    AnnotationValue { annotation: AnnotationV },
    ArrayValue { num_values: u16, values: Seq<ElementValueV> },
}

pub struct ParameterAnnotationV {
    pub num_annotations: u16,
    pub annotations: Seq<AnnotationV>,
}

pub enum TargetInfoKindV {
    TypeParameter { type_parameter_index: u8 },
    SuperType { super_type_index: u16 },
    TypeParameterBound { type_parameter_index: u8, bound_index: u8 },
    Empty,
    FormalParameter { formal_parameter_index: u8 },
    Throws { throws_type_index: u16 },
    LocalVar { table_length: u16, table: Seq<LocalVarTarget> },
    Catch { exception_table_index: u16 },
    Offset { offset: u16 },
    TypeArgument { offset: u16, type_argument_index: u8 },
}

pub struct TargetInfoV {
    pub target_type: u8,
    pub target_info_kind: TargetInfoKindV,
}

pub struct TypePathV {
    pub path_length: u8,
    pub path: Seq<Path>,
}

pub struct TypeAnnotationV {
    pub target_type: u8,
    pub target_info: TargetInfoV,
    pub target_path: TypePathV,
    pub type_index: u16,
    pub num_element_value_pairs: u16,
    pub element_value_pairs: Seq<ElementValuePairV>,
}

pub struct ModuleExportsV {
    pub exports_index: u16,
    pub exports_flags: u16,
    pub exports_to_count: u16,
    pub exports_to_index: Seq<u16>,
}

pub struct ModuleOpensV {
    pub opens_index: u16,
    pub opens_flags: u16,
    pub opens_to_count: u16,
    pub opens_to_index: Seq<u16>,
}

pub struct ModuleProvidesV {
    pub provides_index: u16,
    pub provides_with_count: u16,
    pub provides_with_index: Seq<u16>,
}

pub struct RecordComponentV {
    pub name_index: u16,
    pub descriptor_index: u16,
    pub attributes_count: u16,
    pub attributes: Seq<AttributeInfoV>,
}

pub struct AttributeInfoV {
    pub attribute_name_index: u16,
    pub attribute_length: u32,
    pub info: Seq<u8>,
    pub kind: AttributeKindV,
}

pub enum AttributeKindV {
    ConstantValue { constant_value_index: u16 },
    Code {
        max_stack: u16,
        max_locals: u16,
        code_length: u32,
        code: Seq<u8>,
        exception_table_length: u16,
        exception_table: Seq<ExceptionTableEntry>,
        attributes_count: u16,
        attributes: Seq<AttributeInfoV>,
    },
    StackMapTable { number_of_entries: u16, entries: Seq<StackMapFrameV> },
    BootstrapMethods { num_bootstrap_methods: u16, bootstrap_methods: Seq<BootstrapMethodV> },
    NestHost { host_class_index: u16 },
    NestMembers { number_of_classes: u16, classes: Seq<u16> },
    PermittedSubclasses { number_of_classes: u16, classes: Seq<u16> },
    Exceptions { number_of_exceptions: u16, exception_index_table: Seq<u16> },
    InnerClasses { number_of_classes: u16, classes: Seq<InnerClass> },
    EnclosingMethod { class_index: u16, method_index: u16 },
    Synthetic,
    Signature { signature_index: u16 },
    Record { components_count: u16, components: Seq<RecordComponentV> },
    SourceFile { sourcefile_index: u16 },
    LineNumberTable { line_number_table_length: u16, line_number_table: Seq<LineNumberTableEntry> },
    LocalVariableTable {
        local_variable_table_length: u16,
        local_variable_table: Seq<LocalVariableTableEntry>,
    },
    LocalVariableTypeTable {
        local_variable_type_table_length: u16,
        local_variable_type_table: Seq<LocalVariableTypeTableEntry>,
    },
    SourceDebugExtension { debug_extension: Seq<u8> },
    Deprecated,
    RuntimeVisibleAnnotations { num_annotations: u16, annotations: Seq<AnnotationV> },
    RuntimeInvisibleAnnotations { num_annotations: u16, annotations: Seq<AnnotationV> },
    RuntimeVisibleParameterAnnotations {
        num_parameters: u8,
        parameter_annotations: Seq<ParameterAnnotationV>,
    },
    RuntimeInvisibleParameterAnnotations {
        num_parameters: u8,
        parameter_annotations: Seq<ParameterAnnotationV>,
    },
    RuntimeVisibleTypeAnnotations { num_annotations: u16, type_annotations: Seq<TypeAnnotationV> },
    RuntimeInvisibleTypeAnnotations {
        num_annotations: u16,
        type_annotations: Seq<TypeAnnotationV>,
    },
    AnnotationDefault { default_value: ElementValueV },
    MethodParameters { parameters_count: u8, parameters: Seq<Parameter> },
    Module {
        module_name_index: u16,
        module_flags: u16,
        module_version_index: u16,
        requires_count: u16,
        requires_list: Seq<ModuleRequires>,
        exports_count: u16,
        exports: Seq<ModuleExportsV>,
        opens_count: u16,
        opens: Seq<ModuleOpensV>,
        uses_count: u16,
        uses_index: Seq<u16>,
        provides_count: u16,
        provides: Seq<ModuleProvidesV>,
    },
    ModulePackages { package_count: u16, package_index: Seq<u16> },
    ModuleMainClass { main_class_index: u16 },
    Unknown,
}

pub struct FieldInfoV {
    pub access_flags: FieldAccessFlags,
    pub name_index: u16,
    pub descriptor_index: u16,
    pub attributes_count: u16,
    pub attributes: Seq<AttributeInfoV>,
}

pub struct MethodInfoV {
    pub access_flags: MethodAccessFlags,
    pub name_index: u16,
    pub descriptor_index: u16,
    pub attributes_count: u16,
    pub attributes: Seq<AttributeInfoV>,
}

pub struct ClassFileV {
    pub minor_version: u16,
    pub major_version: u16,
    pub constant_pool_count: u16,
    pub constant_pool: Seq<Option<CpInfoV>>,
    pub access_flags: AccessFlags,
    pub this_class: u16,
    pub super_class: u16,
    pub interfaces_count: u16,
    pub interfaces: Seq<u16>,
    pub fields_count: u16,
    pub fields: Seq<FieldInfoV>,
    pub methods_count: u16,
    pub methods: Seq<MethodInfoV>,
    pub attributes_count: u16,
    pub attributes: Seq<AttributeInfoV>,
}

// ---------------------------------------------------------------------------
// Views.
// ---------------------------------------------------------------------------
pub open spec fn cp_info_v(c: ConstantPoolInfo) -> CpInfoV {
    match c {
        ConstantPoolInfo::Class { name_index } => CpInfoV::Class { name_index },
        ConstantPoolInfo::Fieldref { class_index, name_and_type_index } => CpInfoV::Fieldref {
            class_index,
            name_and_type_index,
        },
        ConstantPoolInfo::Methodref { class_index, name_and_type_index } => CpInfoV::Methodref {
            class_index,
            name_and_type_index,
        },
        ConstantPoolInfo::InterfaceMethodref {
            class_index,
            name_and_type_index,
        } => CpInfoV::InterfaceMethodref { class_index, name_and_type_index },
        ConstantPoolInfo::String { string_index } => CpInfoV::String { string_index },
        ConstantPoolInfo::Integer { bytes } => CpInfoV::Integer { bytes },
        ConstantPoolInfo::Float { bytes } => CpInfoV::Float { bytes },
        ConstantPoolInfo::Long { high_bytes, low_bytes } => CpInfoV::Long {
            high_bytes,
            low_bytes,
        },
        ConstantPoolInfo::Double { high_bytes, low_bytes } => CpInfoV::Double {
            high_bytes,
            low_bytes,
        },
        ConstantPoolInfo::NameAndType { name_index, descriptor_index } => CpInfoV::NameAndType {
            name_index,
            descriptor_index,
        },
        ConstantPoolInfo::Utf8 { length, bytes, utf8_str } => CpInfoV::Utf8 {
            length,
            bytes: bytes@,
            utf8_str: utf8_str@,
        },
        ConstantPoolInfo::MethodHandle { reference_kind, reference_index } => CpInfoV::MethodHandle {
            reference_kind,
            reference_index,
        },
        ConstantPoolInfo::MethodType { descriptor_index } => CpInfoV::MethodType {
            descriptor_index,
        },
        ConstantPoolInfo::Dynamic {
            bootstrap_method_attr_index,
            name_and_type_index,
        } => CpInfoV::Dynamic { bootstrap_method_attr_index, name_and_type_index },
        ConstantPoolInfo::InvokeDynamic {
            bootstrap_method_attr_index,
            name_and_type_index,
        } => CpInfoV::InvokeDynamic { bootstrap_method_attr_index, name_and_type_index },
        ConstantPoolInfo::Module { name_index } => CpInfoV::Module { name_index },
        ConstantPoolInfo::Package { name_index } => CpInfoV::Package { name_index },
    }
}

pub open spec fn opt_cp_info_v(o: Option<ConstantPoolInfo>) -> Option<CpInfoV> {
    match o {
        Some(c) => Some(cp_info_v(c)),
        None => None,
    }
}

pub open spec fn cp_slots_v(v: Seq<Option<ConstantPoolInfo>>) -> Seq<Option<CpInfoV>> {
    v.map_values(|o: Option<ConstantPoolInfo>| opt_cp_info_v(o))
}

pub open spec fn frame_kind_v(k: StackMapFrameKind) -> StackMapFrameKindV {
    match k {
        StackMapFrameKind::Same => StackMapFrameKindV::Same,
        StackMapFrameKind::SameLocals1StackItem { stack } => StackMapFrameKindV::SameLocals1StackItem {
            stack,
        },
        StackMapFrameKind::SameLocals1StackItemExtended {
            offset_delta,
            stack,
        } => StackMapFrameKindV::SameLocals1StackItemExtended { offset_delta, stack },
        StackMapFrameKind::Chop { offset_delta } => StackMapFrameKindV::Chop { offset_delta },
        StackMapFrameKind::SameExtended { offset_delta } => StackMapFrameKindV::SameExtended {
            offset_delta,
        },
        StackMapFrameKind::Append { offset_delta, locals } => StackMapFrameKindV::Append {
            offset_delta,
            locals: locals@,
        },
        StackMapFrameKind::Full {
            offset_delta,
            number_of_locals,
            locals,
            number_of_stack_items,
            stack,
        } => StackMapFrameKindV::Full {
            offset_delta,
            number_of_locals,
            locals: locals@,
            number_of_stack_items,
            stack: stack@,
        },
    }
}

pub open spec fn frame_v(f: StackMapFrame) -> StackMapFrameV {
    StackMapFrameV { frame_type: f.frame_type, kind: frame_kind_v(f.kind) }
}

pub open spec fn frames_v(v: Seq<StackMapFrame>) -> Seq<StackMapFrameV> {
    v.map_values(|f: StackMapFrame| frame_v(f))
}

pub open spec fn bootstrap_method_v(b: BootstrapMethod) -> BootstrapMethodV {
    BootstrapMethodV {
        bootstrap_method_ref: b.bootstrap_method_ref,
        num_bootstrap_arguments: b.num_bootstrap_arguments,
        bootstrap_arguments: b.bootstrap_arguments@,
    }
}

pub open spec fn bootstrap_methods_v(v: Seq<BootstrapMethod>) -> Seq<BootstrapMethodV> {
    v.map_values(|b: BootstrapMethod| bootstrap_method_v(b))
}

pub open spec fn module_exports_v(e: ModuleExports) -> ModuleExportsV {
    ModuleExportsV {
        exports_index: e.exports_index,
        exports_flags: e.exports_flags,
        exports_to_count: e.exports_to_count,
        exports_to_index: e.exports_to_index@,
    }
}

pub open spec fn module_exports_list_v(v: Seq<ModuleExports>) -> Seq<ModuleExportsV> {
    v.map_values(|e: ModuleExports| module_exports_v(e))
}

pub open spec fn module_opens_v(o: ModuleOpens) -> ModuleOpensV {
    ModuleOpensV {
        opens_index: o.opens_index,
        opens_flags: o.opens_flags,
        opens_to_count: o.opens_to_count,
        opens_to_index: o.opens_to_index@,
    }
}

pub open spec fn module_opens_list_v(v: Seq<ModuleOpens>) -> Seq<ModuleOpensV> {
    v.map_values(|o: ModuleOpens| module_opens_v(o))
}

pub open spec fn module_provides_v(p: ModuleProvides) -> ModuleProvidesV {
    ModuleProvidesV {
        provides_index: p.provides_index,
        provides_with_count: p.provides_with_count,
        provides_with_index: p.provides_with_index@,
    }
}

pub open spec fn module_provides_list_v(v: Seq<ModuleProvides>) -> Seq<ModuleProvidesV> {
    v.map_values(|p: ModuleProvides| module_provides_v(p))
}

pub open spec fn type_path_v(t: TypePath) -> TypePathV {
    TypePathV { path_length: t.path_length, path: t.path@ }
}

pub open spec fn target_info_kind_v(k: TargetInfoKind) -> TargetInfoKindV {
    match k {
        TargetInfoKind::TypeParameter { type_parameter_index } => TargetInfoKindV::TypeParameter {
            type_parameter_index,
        },
        TargetInfoKind::SuperType { super_type_index } => TargetInfoKindV::SuperType {
            super_type_index,
        },
        TargetInfoKind::TypeParameterBound {
            type_parameter_index,
            bound_index,
        } => TargetInfoKindV::TypeParameterBound { type_parameter_index, bound_index },
        TargetInfoKind::Empty => TargetInfoKindV::Empty,
        TargetInfoKind::FormalParameter {
            formal_parameter_index,
        } => TargetInfoKindV::FormalParameter { formal_parameter_index },
        TargetInfoKind::Throws { throws_type_index } => TargetInfoKindV::Throws {
            throws_type_index,
        },
        TargetInfoKind::LocalVar { table_length, table } => TargetInfoKindV::LocalVar {
            table_length,
            table: table@,
        },
        TargetInfoKind::Catch { exception_table_index } => TargetInfoKindV::Catch {
            exception_table_index,
        },
        TargetInfoKind::Offset { offset } => TargetInfoKindV::Offset { offset },
        TargetInfoKind::TypeArgument { offset, type_argument_index } => TargetInfoKindV::TypeArgument {
            offset,
            type_argument_index,
        },
    }
}

pub open spec fn target_info_v(t: TargetInfo) -> TargetInfoV {
    TargetInfoV {
        target_type: t.target_type,
        target_info_kind: target_info_kind_v(t.target_info_kind),
    }
}

// The annotation and attribute families are mutually recursive, so their
// views recurse element by element.
pub open spec fn element_value_v(e: ElementValue) -> ElementValueV
    decreases e,
{
    match e {
        ElementValue::Byte { const_value_index } => ElementValueV::Byte { const_value_index },
        ElementValue::Char { const_value_index } => ElementValueV::Char { const_value_index },
        ElementValue::Double { const_value_index } => ElementValueV::Double { const_value_index },
        ElementValue::Float { const_value_index } => ElementValueV::Float { const_value_index },
        ElementValue::Int { const_value_index } => ElementValueV::Int { const_value_index },
        ElementValue::Long { const_value_index } => ElementValueV::Long { const_value_index },
        ElementValue::Short { const_value_index } => ElementValueV::Short { const_value_index },
        ElementValue::Boolean { const_value_index } => ElementValueV::Boolean { const_value_index },
        ElementValue::String { const_value_index } => ElementValueV::String { const_value_index },
        ElementValue::EnumConst { type_name_index, const_name_index } => ElementValueV::EnumConst {
            type_name_index,
            const_name_index,
        },
        ElementValue::ClassInfoIndex { class_info_index } => ElementValueV::ClassInfoIndex {
            class_info_index,
        },
        ElementValue::AnnotationValue { annotation } => ElementValueV::AnnotationValue {
            annotation: annotation_v(annotation),
        },
        ElementValue::ArrayValue { num_values, values } => ElementValueV::ArrayValue {
            num_values,
            values: element_values_v(values@),
        },
    }
}

pub open spec fn element_values_v(v: Seq<ElementValue>) -> Seq<ElementValueV>
    decreases v,
{
    if v.len() == 0 {
        Seq::empty()
    } else {
        seq![element_value_v(v[0])] + element_values_v(v.drop_first())
    }
}

pub open spec fn ev_pair_v(p: ElementValuePair) -> ElementValuePairV
    decreases p,
{
    ElementValuePairV { element_name_index: p.element_name_index, value: element_value_v(p.value) }
}

pub open spec fn ev_pairs_v(v: Seq<ElementValuePair>) -> Seq<ElementValuePairV>
    decreases v,
{
    if v.len() == 0 {
        Seq::empty()
    } else {
        seq![ev_pair_v(v[0])] + ev_pairs_v(v.drop_first())
    }
}

pub open spec fn annotation_v(a: Annotation) -> AnnotationV
    decreases a,
{
    AnnotationV {
        type_index: a.type_index,
        num_element_value_pairs: a.num_element_value_pairs,
        element_value_pairs: ev_pairs_v(a.element_value_pairs@),
    }
}

pub open spec fn annotations_v(v: Seq<Annotation>) -> Seq<AnnotationV>
    decreases v,
{
    if v.len() == 0 {
        Seq::empty()
    } else {
        seq![annotation_v(v[0])] + annotations_v(v.drop_first())
    }
}

pub open spec fn param_annotation_v(p: ParameterAnnotation) -> ParameterAnnotationV
    decreases p,
{
    ParameterAnnotationV {
        num_annotations: p.num_annotations,
        annotations: annotations_v(p.annotations@),
    }
}

pub open spec fn param_annotations_v(v: Seq<ParameterAnnotation>) -> Seq<ParameterAnnotationV>
    decreases v,
{
    if v.len() == 0 {
        Seq::empty()
    } else {
        seq![param_annotation_v(v[0])] + param_annotations_v(v.drop_first())
    }
}

pub open spec fn type_annotation_v(t: TypeAnnotation) -> TypeAnnotationV
    decreases t,
{
    TypeAnnotationV {
        target_type: t.target_type,
        target_info: target_info_v(t.target_info),
        target_path: type_path_v(t.target_path),
        type_index: t.type_index,
        num_element_value_pairs: t.num_element_value_pairs,
        element_value_pairs: ev_pairs_v(t.element_value_pairs@),
    }
}

pub open spec fn type_annotations_v(v: Seq<TypeAnnotation>) -> Seq<TypeAnnotationV>
    decreases v,
{
    if v.len() == 0 {
        Seq::empty()
    } else {
        seq![type_annotation_v(v[0])] + type_annotations_v(v.drop_first())
    }
}

pub open spec fn attribute_kind_v(k: AttributeKind) -> AttributeKindV
    decreases k,
{
    match k {
        AttributeKind::ConstantValue { constant_value_index } => AttributeKindV::ConstantValue {
            constant_value_index,
        },
        AttributeKind::Code {
            max_stack,
            max_locals,
            code_length,
            code,
            exception_table_length,
            exception_table,
            attributes_count,
            attributes,
        } => AttributeKindV::Code {
            max_stack,
            max_locals,
            code_length,
            code: code@,
            exception_table_length,
            exception_table: exception_table@,
            attributes_count,
            attributes: attrs_v(attributes@),
        },
        AttributeKind::StackMapTable { number_of_entries, entries } => AttributeKindV::StackMapTable {
            number_of_entries,
            entries: frames_v(entries@),
        },
        AttributeKind::BootstrapMethods {
            num_bootstrap_methods,
            bootstrap_methods,
        } => AttributeKindV::BootstrapMethods {
            num_bootstrap_methods,
            bootstrap_methods: bootstrap_methods_v(bootstrap_methods@),
        },
        AttributeKind::NestHost { host_class_index } => AttributeKindV::NestHost {
            host_class_index,
        },
        AttributeKind::NestMembers { number_of_classes, classes } => AttributeKindV::NestMembers {
            number_of_classes,
            classes: classes@,
        },
        AttributeKind::PermittedSubclasses {
            number_of_classes,
            classes,
        } => AttributeKindV::PermittedSubclasses { number_of_classes, classes: classes@ },
        AttributeKind::Exceptions {
            number_of_exceptions,
            exception_index_table,
        } => AttributeKindV::Exceptions {
            number_of_exceptions,
            exception_index_table: exception_index_table@,
        },
        AttributeKind::InnerClasses { number_of_classes, classes } => AttributeKindV::InnerClasses {
            number_of_classes,
            classes: classes@,
        },
        AttributeKind::EnclosingMethod { class_index, method_index } => AttributeKindV::EnclosingMethod {
            class_index,
            method_index,
        },
        AttributeKind::Synthetic => AttributeKindV::Synthetic,
        AttributeKind::Signature { signature_index } => AttributeKindV::Signature {
            signature_index,
        },
        AttributeKind::Record { components_count, components } => AttributeKindV::Record {
            components_count,
            components: record_components_v(components@),
        },
        AttributeKind::SourceFile { sourcefile_index } => AttributeKindV::SourceFile {
            sourcefile_index,
        },
        AttributeKind::LineNumberTable {
            line_number_table_length,
            line_number_table,
        } => AttributeKindV::LineNumberTable {
            line_number_table_length,
            line_number_table: line_number_table@,
        },
        AttributeKind::LocalVariableTable {
            local_variable_table_length,
            local_variable_table,
        } => AttributeKindV::LocalVariableTable {
            local_variable_table_length,
            local_variable_table: local_variable_table@,
        },
        AttributeKind::LocalVariableTypeTable {
            local_variable_type_table_length,
            local_variable_type_table,
        } => AttributeKindV::LocalVariableTypeTable {
            local_variable_type_table_length,
            local_variable_type_table: local_variable_type_table@,
        },
        AttributeKind::SourceDebugExtension { debug_extension } => AttributeKindV::SourceDebugExtension {
            debug_extension: debug_extension@,
        },
        AttributeKind::Deprecated => AttributeKindV::Deprecated,
        AttributeKind::RuntimeVisibleAnnotations {
            num_annotations,
            annotations,
        } => AttributeKindV::RuntimeVisibleAnnotations {
            num_annotations,
            annotations: annotations_v(annotations@),
        },
        AttributeKind::RuntimeInvisibleAnnotations {
            num_annotations,
            annotations,
        } => AttributeKindV::RuntimeInvisibleAnnotations {
            num_annotations,
            annotations: annotations_v(annotations@),
        },
        AttributeKind::RuntimeVisibleParameterAnnotations {
            num_parameters,
            parameter_annotations,
        } => AttributeKindV::RuntimeVisibleParameterAnnotations {
            num_parameters,
            parameter_annotations: param_annotations_v(parameter_annotations@),
        },
        AttributeKind::RuntimeInvisibleParameterAnnotations {
            num_parameters,
            parameter_annotations,
        } => AttributeKindV::RuntimeInvisibleParameterAnnotations {
            num_parameters,
            parameter_annotations: param_annotations_v(parameter_annotations@),
        },
        AttributeKind::RuntimeVisibleTypeAnnotations {
            num_annotations,
            type_annotations,
        } => AttributeKindV::RuntimeVisibleTypeAnnotations {
            num_annotations,
            type_annotations: type_annotations_v(type_annotations@),
        },
        AttributeKind::RuntimeInvisibleTypeAnnotations {
            num_annotations,
            type_annotations,
        } => AttributeKindV::RuntimeInvisibleTypeAnnotations {
            num_annotations,
            type_annotations: type_annotations_v(type_annotations@),
        },
        AttributeKind::AnnotationDefault { default_value } => AttributeKindV::AnnotationDefault {
            default_value: element_value_v(default_value),
        },
        AttributeKind::MethodParameters { parameters_count, parameters } => AttributeKindV::MethodParameters {
            parameters_count,
            parameters: parameters@,
        },
        AttributeKind::Module {
            module_name_index,
            module_flags,
            module_version_index,
            requires_count,
            requires_list,
            exports_count,
            exports,
            opens_count,
            opens,
            uses_count,
            uses_index,
            provides_count,
            provides,
        } => AttributeKindV::Module {
            module_name_index,
            module_flags,
            module_version_index,
            requires_count,
            requires_list: requires_list@,
            exports_count,
            exports: module_exports_list_v(exports@),
            opens_count,
            opens: module_opens_list_v(opens@),
            uses_count,
            uses_index: uses_index@,
            provides_count,
            provides: module_provides_list_v(provides@),
        },
        AttributeKind::ModulePackages { package_count, package_index } => AttributeKindV::ModulePackages {
            package_count,
            package_index: package_index@,
        },
        AttributeKind::ModuleMainClass { main_class_index } => AttributeKindV::ModuleMainClass {
            main_class_index,
        },
        AttributeKind::Unknown => AttributeKindV::Unknown,
    }
}

pub open spec fn attr_info_v(a: AttributeInfo) -> AttributeInfoV
    decreases a,
{
    AttributeInfoV {
        attribute_name_index: a.attribute_name_index,
        attribute_length: a.attribute_length,
        info: a.info@,
        kind: attribute_kind_v(a.kind),
    }
}

pub open spec fn attrs_v(v: Seq<AttributeInfo>) -> Seq<AttributeInfoV>
    decreases v,
{
    if v.len() == 0 {
        Seq::empty()
    } else {
        seq![attr_info_v(v[0])] + attrs_v(v.drop_first())
    }
}

pub open spec fn record_component_v(c: RecordComponent) -> RecordComponentV
    decreases c,
{
    RecordComponentV {
        name_index: c.name_index,
        descriptor_index: c.descriptor_index,
        attributes_count: c.attributes_count,
        attributes: attrs_v(c.attributes@),
    }
}

pub open spec fn record_components_v(v: Seq<RecordComponent>) -> Seq<RecordComponentV>
    decreases v,
{
    if v.len() == 0 {
        Seq::empty()
    } else {
        seq![record_component_v(v[0])] + record_components_v(v.drop_first())
    }
}

pub open spec fn field_info_v(f: FieldInfo) -> FieldInfoV {
    FieldInfoV {
        access_flags: f.access_flags,
        name_index: f.name_index,
        descriptor_index: f.descriptor_index,
        attributes_count: f.attributes_count,
        attributes: attrs_v(f.attributes@),
    }
}

pub open spec fn fields_v(v: Seq<FieldInfo>) -> Seq<FieldInfoV> {
    v.map_values(|f: FieldInfo| field_info_v(f))
}

pub open spec fn method_info_v(m: MethodInfo) -> MethodInfoV {
    MethodInfoV {
        access_flags: m.access_flags,
        name_index: m.name_index,
        descriptor_index: m.descriptor_index,
        attributes_count: m.attributes_count,
        attributes: attrs_v(m.attributes@),
    }
}

pub open spec fn methods_v(v: Seq<MethodInfo>) -> Seq<MethodInfoV> {
    v.map_values(|m: MethodInfo| method_info_v(m))
}

pub open spec fn class_file_v(c: ClassFile) -> ClassFileV {
    ClassFileV {
        minor_version: c.minor_version,
        major_version: c.major_version,
        constant_pool_count: c.constant_pool_count,
        constant_pool: cp_slots_v(c.constant_pool@),
        access_flags: c.access_flags,
        this_class: c.this_class,
        super_class: c.super_class,
        interfaces_count: c.interfaces_count,
        interfaces: c.interfaces@,
        fields_count: c.fields_count,
        fields: fields_v(c.fields@),
        methods_count: c.methods_count,
        methods: methods_v(c.methods@),
        attributes_count: c.attributes_count,
        attributes: attrs_v(c.attributes@),
    }
}


// ---------------------------------------------------------------------------
// The binary grammar as spec functions. Each parser takes the bytes, a
// position, and (inside attribute payloads) an exclusive end position, and
// yields the decoded node and the position just past it.
// ---------------------------------------------------------------------------
/// Big-endian u16 at `i`.
pub open spec fn be16(s: Seq<u8>, i: int) -> u16
    recommends
        0 <= i && i + 2 <= s.len(),
{
    ((s[i] as int) * 0x100 + (s[i + 1] as int)) as u16
}

/// Big-endian u32 at `i`.
pub open spec fn be32(s: Seq<u8>, i: int) -> u32
    recommends
        0 <= i && i + 4 <= s.len(),
{
    ((s[i] as int) * 0x1000000 + (s[i + 1] as int) * 0x10000 + (s[i + 2] as int) * 0x100 + (s[i
        + 3] as int)) as u32
}

/// `k` more bytes can be read at `i` without passing `end` or the input.
pub open spec fn can_read(s: Seq<u8>, i: int, k: int, end: int) -> bool {
    0 <= i && i + k <= end && end <= s.len()
}

/// Clamp a continuation position so that recursion visibly advances; real
/// parse results always lie strictly past the start, so the clamp never
/// fires on them.
pub open spec fn adv(i: int, j: int, len: int) -> int {
    if i < j && j <= len {
        j
    } else if i + 1 <= len {
        i + 1
    } else {
        len
    }
}

pub open spec fn opt_prepend<T>(pre: Seq<T>, o: Option<(Seq<T>, int)>) -> Option<(Seq<T>, int)> {
    match o {
        Some((xs, j)) => Some((pre + xs, j)),
        None => None,
    }
}

// -- Modified UTF-8 --------------------------------------------------------
pub open spec fn is_mutf8_cont(b: u8) -> bool {
    0x80 <= b && b <= 0xBF
}

pub open spec fn mutf8_cons(c: char, o: Option<Seq<char>>) -> Option<Seq<char>> {
    match o {
        Some(rest) => Some(seq![c] + rest),
        None => None,
    }
}

/// Codepoint of a two-byte unit.
pub open spec fn mutf8_cp2(b0: u8, b1: u8) -> u32 {
    (((b0 as int) % 0x20) * 0x40 + ((b1 as int) % 0x40)) as u32
}

/// Codepoint of a three-byte unit.
pub open spec fn mutf8_cp3(b0: u8, b1: u8, b2: u8) -> u32 {
    (((b0 as int) % 0x10) * 0x1000 + ((b1 as int) % 0x40) * 0x40 + ((b2 as int) % 0x40)) as u32
}

/// JVM modified UTF-8: one to three bytes per unit; `C0 80` encodes U+0000;
/// supplementary code points are a pair of three-byte surrogate units.
pub open spec fn sp_mutf8(b: Seq<u8>, i: int) -> Option<Seq<char>>
    decreases b.len() - i,
{
    if i >= b.len() {
        Some(Seq::empty())
    } else {
        let b0 = b[i];
        if 1 <= b0 && b0 <= 0x7F {
            mutf8_cons(b0 as char, sp_mutf8(b, i + 1))
        } else if 0xC0 <= b0 && b0 <= 0xDF {
            if i + 2 <= b.len() && is_mutf8_cont(b[i + 1]) {
                let cp = mutf8_cp2(b0, b[i + 1]);
                if cp == 0 || (0x80 <= cp && cp <= 0x7FF) {
                    mutf8_cons(cp as char, sp_mutf8(b, i + 2))
                } else {
                    None
                }
            } else {
                None
            }
        } else if 0xE0 <= b0 && b0 <= 0xEF {
            if i + 3 <= b.len() && is_mutf8_cont(b[i + 1]) && is_mutf8_cont(b[i + 2]) {
                let cp = mutf8_cp3(b0, b[i + 1], b[i + 2]);
                if cp < 0x800 {
                    None
                } else if 0xD800 <= cp && cp <= 0xDBFF {
                    if i + 6 <= b.len() && 0xE0 <= b[i + 3] && b[i + 3] <= 0xEF && is_mutf8_cont(
                        b[i + 4],
                    ) && is_mutf8_cont(b[i + 5]) {
                        let cp2 = mutf8_cp3(b[i + 3], b[i + 4], b[i + 5]);
                        if 0xDC00 <= cp2 && cp2 <= 0xDFFF {
                            let combined = (0x10000 + ((cp as int) - 0xD800) * 0x400 + ((
                            cp2 as int) - 0xDC00)) as u32;
                            mutf8_cons(combined as char, sp_mutf8(b, i + 6))
                        } else {
                            None
                        }
                    } else {
                        None
                    }
                } else if 0xDC00 <= cp && cp <= 0xDFFF {
                    None
                } else {
                    mutf8_cons(cp as char, sp_mutf8(b, i + 3))
                }
            } else {
                None
            }
        } else {
            None
        }
    }
}

// -- Constant pool ---------------------------------------------------------
#[verifier::opaque]
pub open spec fn sp_cp_entry(s: Seq<u8>, i: int) -> Option<(CpInfoV, int)>
    decreases s.len() - i, 0int,
{
    if can_read(s, i, 1, s.len() as int) {
        let tag = s[i];
        if tag == 7 {
            if can_read(s, i + 1, 2, s.len() as int) {
                Some((CpInfoV::Class { name_index: be16(s, i + 1) }, i + 3))
            } else {
                None
            }
        } else if tag == 9 {
            if can_read(s, i + 1, 4, s.len() as int) {
                Some(
                    (
                        CpInfoV::Fieldref {
                            class_index: be16(s, i + 1),
                            name_and_type_index: be16(s, i + 3),
                        },
                        i + 5,
                    ),
                )
            } else {
                None
            }
        } else if tag == 10 {
            if can_read(s, i + 1, 4, s.len() as int) {
                Some(
                    (
                        CpInfoV::Methodref {
                            class_index: be16(s, i + 1),
                            name_and_type_index: be16(s, i + 3),
                        },
                        i + 5,
                    ),
                )
            } else {
                None
            }
        } else if tag == 11 {
            if can_read(s, i + 1, 4, s.len() as int) {
                Some(
                    (
                        CpInfoV::InterfaceMethodref {
                            class_index: be16(s, i + 1),
                            name_and_type_index: be16(s, i + 3),
                        },
                        i + 5,
                    ),
                )
            } else {
                None
            }
        } else if tag == 8 {
            if can_read(s, i + 1, 2, s.len() as int) {
                Some((CpInfoV::String { string_index: be16(s, i + 1) }, i + 3))
            } else {
                None
            }
        } else if tag == 3 {
            if can_read(s, i + 1, 4, s.len() as int) {
                Some((CpInfoV::Integer { bytes: be32(s, i + 1) }, i + 5))
            } else {
                None
            }
        } else if tag == 4 {
            if can_read(s, i + 1, 4, s.len() as int) {
                Some((CpInfoV::Float { bytes: be32(s, i + 1) }, i + 5))
            } else {
                None
            }
        } else if tag == 5 {
            if can_read(s, i + 1, 8, s.len() as int) {
                Some(
                    (
                        CpInfoV::Long { high_bytes: be32(s, i + 1), low_bytes: be32(s, i + 5) },
                        i + 9,
                    ),
                )
            } else {
                None
            }
        } else if tag == 6 {
            if can_read(s, i + 1, 8, s.len() as int) {
                Some(
                    (
                        CpInfoV::Double { high_bytes: be32(s, i + 1), low_bytes: be32(s, i + 5) },
                        i + 9,
                    ),
                )
            } else {
                None
            }
        } else if tag == 12 {
            if can_read(s, i + 1, 4, s.len() as int) {
                Some(
                    (
                        CpInfoV::NameAndType {
                            name_index: be16(s, i + 1),
                            descriptor_index: be16(s, i + 3),
                        },
                        i + 5,
                    ),
                )
            } else {
                None
            }
        } else if tag == 1 {
            if can_read(s, i + 1, 2, s.len() as int) {
                let length = be16(s, i + 1);
                if can_read(s, i + 3, length as int, s.len() as int) {
                    let bytes = s.subrange(i + 3, i + 3 + length);
                    match sp_mutf8(bytes, 0) {
                        Some(cs) => Some(
                            (
                                CpInfoV::Utf8 { length, bytes, utf8_str: cs },
                                i + 3 + length,
                            ),
                        ),
                        None => None,
                    }
                } else {
                    None
                }
            } else {
                None
            }
        } else if tag == 15 {
            if can_read(s, i + 1, 3, s.len() as int) {
                Some(
                    (
                        CpInfoV::MethodHandle {
                            reference_kind: s[i + 1],
                            reference_index: be16(s, i + 2),
                        },
                        i + 4,
                    ),
                )
            } else {
                None
            }
        } else if tag == 16 {
            if can_read(s, i + 1, 2, s.len() as int) {
                Some((CpInfoV::MethodType { descriptor_index: be16(s, i + 1) }, i + 3))
            } else {
                None
            }
        } else if tag == 17 {
            if can_read(s, i + 1, 4, s.len() as int) {
                Some(
                    (
                        CpInfoV::Dynamic {
                            bootstrap_method_attr_index: be16(s, i + 1),
                            name_and_type_index: be16(s, i + 3),
                        },
                        i + 5,
                    ),
                )
            } else {
                None
            }
        } else if tag == 18 {
            if can_read(s, i + 1, 4, s.len() as int) {
                Some(
                    (
                        CpInfoV::InvokeDynamic {
                            bootstrap_method_attr_index: be16(s, i + 1),
                            name_and_type_index: be16(s, i + 3),
                        },
                        i + 5,
                    ),
                )
            } else {
                None
            }
        } else if tag == 19 {
            if can_read(s, i + 1, 2, s.len() as int) {
                Some((CpInfoV::Module { name_index: be16(s, i + 1) }, i + 3))
            } else {
                None
            }
        } else if tag == 20 {
            if can_read(s, i + 1, 2, s.len() as int) {
                Some((CpInfoV::Package { name_index: be16(s, i + 1) }, i + 3))
            } else {
                None
            }
        } else {
            None
        }
    } else {
        None
    }
}

pub open spec fn cp_is_wide(e: CpInfoV) -> bool {
    e is Long || e is Double
}

/// Parse constant-pool entries into `m` one-indexed slots; a wide entry fills
/// two slots, the second empty.
pub open spec fn sp_cp_slots(s: Seq<u8>, i: int, m: int) -> Option<(Seq<Option<CpInfoV>>, int)>
    decreases s.len() - i, 1int,
{
    if m <= 0 {
        Some((Seq::empty(), i))
    } else if i < s.len() {
        match sp_cp_entry(s, i) {
            Some((e, j)) => if cp_is_wide(e) {
                if m >= 2 {
                    match sp_cp_slots(s, adv(i, j, s.len() as int), m - 2) {
                        Some((rest, k)) => Some((seq![Some(e), None] + rest, k)),
                        None => None,
                    }
                } else {
                    None
                }
            } else {
                match sp_cp_slots(s, adv(i, j, s.len() as int), m - 1) {
                    Some((rest, k)) => Some((seq![Some(e)] + rest, k)),
                    None => None,
                }
            },
            None => None,
        }
    } else {
        None
    }
}

/// The `Utf8` text at pool slot `idx`, when the slot holds one.
pub open spec fn cp_utf8_at(pool: Seq<Option<CpInfoV>>, idx: u16) -> Option<Seq<char>> {
    if 0 < idx && (idx as int) < pool.len() {
        match pool[idx as int] {
            Some(CpInfoV::Utf8 { utf8_str, .. }) => Some(utf8_str),
            _ => None,
        }
    } else {
        None
    }
}

// -- Fixed-size tables -----------------------------------------------------
pub open spec fn sp_u16s(s: Seq<u8>, i: int, end: int, n: int) -> Option<(Seq<u16>, int)>
    decreases s.len() - i, 1int,
{
    if n <= 0 {
        Some((Seq::empty(), i))
    } else if can_read(s, i, 2, end) {
        match sp_u16s(s, i + 2, end, n - 1) {
            Some((rest, k)) => Some((seq![be16(s, i)] + rest, k)),
            None => None,
        }
    } else {
        None
    }
}

pub open spec fn sp_exception_table(s: Seq<u8>, i: int, end: int, n: int) -> Option<
    (Seq<ExceptionTableEntry>, int),
>
    decreases s.len() - i, 1int,
{
    if n <= 0 {
        Some((Seq::empty(), i))
    } else if can_read(s, i, 8, end) {
        let e = ExceptionTableEntry {
            start_pc: be16(s, i),
            end_pc: be16(s, i + 2),
            handler_pc: be16(s, i + 4),
            catch_type: be16(s, i + 6),
        };
        match sp_exception_table(s, i + 8, end, n - 1) {
            Some((rest, k)) => Some((seq![e] + rest, k)),
            None => None,
        }
    } else {
        None
    }
}

pub open spec fn sp_vti(s: Seq<u8>, i: int, end: int) -> Option<(VerificationTypeInfo, int)> {
    if can_read(s, i, 1, end) {
        let tag = s[i];
        if tag == 0 {
            Some((VerificationTypeInfo::Top, i + 1))
        } else if tag == 1 {
            Some((VerificationTypeInfo::Integer, i + 1))
        } else if tag == 2 {
            Some((VerificationTypeInfo::Float, i + 1))
        } else if tag == 5 {
            Some((VerificationTypeInfo::Null, i + 1))
        } else if tag == 6 {
            Some((VerificationTypeInfo::UninitializedThis, i + 1))
        } else if tag == 7 {
            if can_read(s, i + 1, 2, end) {
                Some((VerificationTypeInfo::Object { cpool_index: be16(s, i + 1) }, i + 3))
            } else {
                None
            }
        } else if tag == 8 {
            if can_read(s, i + 1, 2, end) {
                Some((VerificationTypeInfo::Uninitialized { offset: be16(s, i + 1) }, i + 3))
            } else {
                None
            }
        } else if tag == 4 {
            Some((VerificationTypeInfo::Long, i + 1))
        } else if tag == 3 {
            Some((VerificationTypeInfo::Double, i + 1))
        } else {
            None
        }
    } else {
        None
    }
}

pub open spec fn sp_vti_list(s: Seq<u8>, i: int, end: int, n: int) -> Option<
    (Seq<VerificationTypeInfo>, int),
>
    decreases s.len() - i, 1int,
{
    if n <= 0 {
        Some((Seq::empty(), i))
    } else if i < s.len() {
        match sp_vti(s, i, end) {
            Some((v, j)) => match sp_vti_list(s, adv(i, j, s.len() as int), end, n - 1) {
                Some((rest, k)) => Some((seq![v] + rest, k)),
                None => None,
            },
            None => None,
        }
    } else {
        None
    }
}

/// Stack-map frame dispatch by `frame_type` ranges.
pub open spec fn sp_stack_map_frame(s: Seq<u8>, i: int, end: int) -> Option<(StackMapFrameV, int)>
    decreases s.len() - i, 0int,
{
    if can_read(s, i, 1, end) {
        let ft = s[i];
        if ft <= 63 {
            Some((StackMapFrameV { frame_type: ft, kind: StackMapFrameKindV::Same }, i + 1))
        } else if ft <= 127 {
            match sp_vti(s, i + 1, end) {
                Some((v, j)) => Some(
                    (
                        StackMapFrameV {
                            frame_type: ft,
                            kind: StackMapFrameKindV::SameLocals1StackItem { stack: v },
                        },
                        j,
                    ),
                ),
                None => None,
            }
        } else if ft == 247 {
            if can_read(s, i + 1, 2, end) {
                match sp_vti(s, i + 3, end) {
                    Some((v, j)) => Some(
                        (
                            StackMapFrameV {
                                frame_type: ft,
                                kind: StackMapFrameKindV::SameLocals1StackItemExtended {
                                    offset_delta: be16(s, i + 1),
                                    stack: v,
                                },
                            },
                            j,
                        ),
                    ),
                    None => None,
                }
            } else {
                None
            }
        } else if 248 <= ft && ft <= 250 {
            if can_read(s, i + 1, 2, end) {
                Some(
                    (
                        StackMapFrameV {
                            frame_type: ft,
                            kind: StackMapFrameKindV::Chop { offset_delta: be16(s, i + 1) },
                        },
                        i + 3,
                    ),
                )
            } else {
                None
            }
        } else if ft == 251 {
            if can_read(s, i + 1, 2, end) {
                Some(
                    (
                        StackMapFrameV {
                            frame_type: ft,
                            kind: StackMapFrameKindV::SameExtended { offset_delta: be16(s, i + 1) },
                        },
                        i + 3,
                    ),
                )
            } else {
                None
            }
        } else if 252 <= ft && ft <= 254 {
            if can_read(s, i + 1, 2, end) {
                match sp_vti_list(s, i + 3, end, ft as int - 251) {
                    Some((locals, j)) => Some(
                        (
                            StackMapFrameV {
                                frame_type: ft,
                                kind: StackMapFrameKindV::Append {
                                    offset_delta: be16(s, i + 1),
                                    locals,
                                },
                            },
                            j,
                        ),
                    ),
                    None => None,
                }
            } else {
                None
            }
        } else if ft == 255 {
            if can_read(s, i + 1, 4, end) {
                let number_of_locals = be16(s, i + 3);
                match sp_vti_list(s, i + 5, end, number_of_locals as int) {
                    Some((locals, j)) => if can_read(s, j, 2, end) && i < j {
                        let number_of_stack_items = be16(s, j);
                        match sp_vti_list(s, adv(i, j + 2, s.len() as int), end,
                            number_of_stack_items as int) {
                            Some((stack, k)) => Some(
                                (
                                    StackMapFrameV {
                                        frame_type: ft,
                                        kind: StackMapFrameKindV::Full {
                                            offset_delta: be16(s, i + 1),
                                            number_of_locals,
                                            locals,
                                            number_of_stack_items,
                                            stack,
                                        },
                                    },
                                    k,
                                ),
                            ),
                            None => None,
                        }
                    } else {
                        None
                    },
                    None => None,
                }
            } else {
                None
            }
        } else {
            None
        }
    } else {
        None
    }
}

pub open spec fn sp_stack_map_frames(s: Seq<u8>, i: int, end: int, n: int) -> Option<
    (Seq<StackMapFrameV>, int),
>
    decreases s.len() - i, 1int,
{
    if n <= 0 {
        Some((Seq::empty(), i))
    } else if i < s.len() {
        match sp_stack_map_frame(s, i, end) {
            Some((f, j)) => match sp_stack_map_frames(s, adv(i, j, s.len() as int), end, n - 1) {
                Some((rest, k)) => Some((seq![f] + rest, k)),
                None => None,
            },
            None => None,
        }
    } else {
        None
    }
}

pub open spec fn sp_bootstrap_method(s: Seq<u8>, i: int, end: int) -> Option<
    (BootstrapMethodV, int),
>
    decreases s.len() - i, 0int,
{
    if can_read(s, i, 4, end) {
        let num = be16(s, i + 2);
        match sp_u16s(s, i + 4, end, num as int) {
            Some((args, j)) => Some(
                (
                    BootstrapMethodV {
                        bootstrap_method_ref: be16(s, i),
                        num_bootstrap_arguments: num,
                        bootstrap_arguments: args,
                    },
                    j,
                ),
            ),
            None => None,
        }
    } else {
        None
    }
}

pub open spec fn sp_bootstrap_methods(s: Seq<u8>, i: int, end: int, n: int) -> Option<
    (Seq<BootstrapMethodV>, int),
>
    decreases s.len() - i, 1int,
{
    if n <= 0 {
        Some((Seq::empty(), i))
    } else if i < s.len() {
        match sp_bootstrap_method(s, i, end) {
            Some((b, j)) => match sp_bootstrap_methods(s, adv(i, j, s.len() as int), end, n - 1) {
                Some((rest, k)) => Some((seq![b] + rest, k)),
                None => None,
            },
            None => None,
        }
    } else {
        None
    }
}

pub open spec fn sp_inner_classes(s: Seq<u8>, i: int, end: int, n: int) -> Option<
    (Seq<InnerClass>, int),
>
    decreases s.len() - i, 1int,
{
    if n <= 0 {
        Some((Seq::empty(), i))
    } else if can_read(s, i, 8, end) {
        let e = InnerClass {
            inner_class_info_index: be16(s, i),
            outer_class_info_index: be16(s, i + 2),
            inner_name_index: be16(s, i + 4),
            inner_class_access_flags: be16(s, i + 6),
        };
        match sp_inner_classes(s, i + 8, end, n - 1) {
            Some((rest, k)) => Some((seq![e] + rest, k)),
            None => None,
        }
    } else {
        None
    }
}

pub open spec fn sp_line_number_table(s: Seq<u8>, i: int, end: int, n: int) -> Option<
    (Seq<LineNumberTableEntry>, int),
>
    decreases s.len() - i, 1int,
{
    if n <= 0 {
        Some((Seq::empty(), i))
    } else if can_read(s, i, 4, end) {
        let e = LineNumberTableEntry { start_pc: be16(s, i), line_number: be16(s, i + 2) };
        match sp_line_number_table(s, i + 4, end, n - 1) {
            Some((rest, k)) => Some((seq![e] + rest, k)),
            None => None,
        }
    } else {
        None
    }
}

pub open spec fn sp_local_variable_table(s: Seq<u8>, i: int, end: int, n: int) -> Option<
    (Seq<LocalVariableTableEntry>, int),
>
    decreases s.len() - i, 1int,
{
    if n <= 0 {
        Some((Seq::empty(), i))
    } else if can_read(s, i, 10, end) {
        let e = LocalVariableTableEntry {
            start_pc: be16(s, i),
            length: be16(s, i + 2),
            name_index: be16(s, i + 4),
            descriptor_index: be16(s, i + 6),
            index: be16(s, i + 8),
        };
        match sp_local_variable_table(s, i + 10, end, n - 1) {
            Some((rest, k)) => Some((seq![e] + rest, k)),
            None => None,
        }
    } else {
        None
    }
}

pub open spec fn sp_local_variable_type_table(s: Seq<u8>, i: int, end: int, n: int) -> Option<
    (Seq<LocalVariableTypeTableEntry>, int),
>
    decreases s.len() - i, 1int,
{
    if n <= 0 {
        Some((Seq::empty(), i))
    } else if can_read(s, i, 10, end) {
        let e = LocalVariableTypeTableEntry {
            start_pc: be16(s, i),
            length: be16(s, i + 2),
            name_index: be16(s, i + 4),
            signature_index: be16(s, i + 6),
            index: be16(s, i + 8),
        };
        match sp_local_variable_type_table(s, i + 10, end, n - 1) {
            Some((rest, k)) => Some((seq![e] + rest, k)),
            None => None,
        }
    } else {
        None
    }
}

pub open spec fn sp_method_parameters(s: Seq<u8>, i: int, end: int, n: int) -> Option<
    (Seq<Parameter>, int),
>
    decreases s.len() - i, 1int,
{
    if n <= 0 {
        Some((Seq::empty(), i))
    } else if can_read(s, i, 4, end) {
        let e = Parameter { name_index: be16(s, i), access_flags: be16(s, i + 2) };
        match sp_method_parameters(s, i + 4, end, n - 1) {
            Some((rest, k)) => Some((seq![e] + rest, k)),
            None => None,
        }
    } else {
        None
    }
}

pub open spec fn sp_localvar_targets(s: Seq<u8>, i: int, end: int, n: int) -> Option<
    (Seq<LocalVarTarget>, int),
>
    decreases s.len() - i, 1int,
{
    if n <= 0 {
        Some((Seq::empty(), i))
    } else if can_read(s, i, 6, end) {
        let e = LocalVarTarget { start_pc: be16(s, i), length: be16(s, i + 2), index: be16(s, i + 4) };
        match sp_localvar_targets(s, i + 6, end, n - 1) {
            Some((rest, k)) => Some((seq![e] + rest, k)),
            None => None,
        }
    } else {
        None
    }
}

pub open spec fn sp_paths(s: Seq<u8>, i: int, end: int, n: int) -> Option<(Seq<Path>, int)>
    decreases s.len() - i, 1int,
{
    if n <= 0 {
        Some((Seq::empty(), i))
    } else if can_read(s, i, 2, end) {
        let e = Path { type_path_kind: s[i], type_argument_index: s[i + 1] };
        match sp_paths(s, i + 2, end, n - 1) {
            Some((rest, k)) => Some((seq![e] + rest, k)),
            None => None,
        }
    } else {
        None
    }
}

pub open spec fn sp_type_path(s: Seq<u8>, i: int, end: int) -> Option<(TypePathV, int)>
    decreases s.len() - i, 2int,
{
    if can_read(s, i, 1, end) {
        let n = s[i];
        match sp_paths(s, i + 1, end, n as int) {
            Some((path, j)) => Some((TypePathV { path_length: n, path }, j)),
            None => None,
        }
    } else {
        None
    }
}

/// Target-info dispatch on the `target_type` byte.
pub open spec fn sp_target_info(s: Seq<u8>, i: int, end: int, tt: u8) -> Option<
    (TargetInfoKindV, int),
>
    decreases s.len() - i, 2int,
{
    if tt == 0x00 || tt == 0x01 {
        if can_read(s, i, 1, end) {
            Some((TargetInfoKindV::TypeParameter { type_parameter_index: s[i] }, i + 1))
        } else {
            None
        }
    } else if tt == 0x10 {
        if can_read(s, i, 2, end) {
            Some((TargetInfoKindV::SuperType { super_type_index: be16(s, i) }, i + 2))
        } else {
            None
        }
    } else if tt == 0x11 || tt == 0x12 {
        if can_read(s, i, 2, end) {
            Some(
                (
                    TargetInfoKindV::TypeParameterBound {
                        type_parameter_index: s[i],
                        bound_index: s[i + 1],
                    },
                    i + 2,
                ),
            )
        } else {
            None
        }
    } else if tt == 0x13 || tt == 0x14 || tt == 0x15 {
        Some((TargetInfoKindV::Empty, i))
    } else if tt == 0x16 {
        if can_read(s, i, 1, end) {
            Some((TargetInfoKindV::FormalParameter { formal_parameter_index: s[i] }, i + 1))
        } else {
            None
        }
    } else if tt == 0x17 {
        if can_read(s, i, 2, end) {
            Some((TargetInfoKindV::Throws { throws_type_index: be16(s, i) }, i + 2))
        } else {
            None
        }
    } else if tt == 0x40 || tt == 0x41 {
        if can_read(s, i, 2, end) {
            let n = be16(s, i);
            match sp_localvar_targets(s, i + 2, end, n as int) {
                Some((table, j)) => Some(
                    (TargetInfoKindV::LocalVar { table_length: n, table }, j),
                ),
                None => None,
            }
        } else {
            None
        }
    } else if tt == 0x42 {
        if can_read(s, i, 2, end) {
            Some((TargetInfoKindV::Catch { exception_table_index: be16(s, i) }, i + 2))
        } else {
            None
        }
    } else if tt == 0x43 || tt == 0x44 || tt == 0x45 || tt == 0x46 {
        if can_read(s, i, 2, end) {
            Some((TargetInfoKindV::Offset { offset: be16(s, i) }, i + 2))
        } else {
            None
        }
    } else if tt == 0x47 || tt == 0x48 || tt == 0x49 || tt == 0x4A || tt == 0x4B {
        if can_read(s, i, 3, end) {
            Some(
                (
                    TargetInfoKindV::TypeArgument {
                        offset: be16(s, i),
                        type_argument_index: s[i + 2],
                    },
                    i + 3,
                ),
            )
        } else {
            None
        }
    } else {
        None
    }
}

pub open spec fn sp_requires_list(s: Seq<u8>, i: int, end: int, n: int) -> Option<
    (Seq<ModuleRequires>, int),
>
    decreases s.len() - i, 1int,
{
    if n <= 0 {
        Some((Seq::empty(), i))
    } else if can_read(s, i, 6, end) {
        let e = ModuleRequires {
            requires_index: be16(s, i),
            requires_flags: be16(s, i + 2),
            requires_version_index: be16(s, i + 4),
        };
        match sp_requires_list(s, i + 6, end, n - 1) {
            Some((rest, k)) => Some((seq![e] + rest, k)),
            None => None,
        }
    } else {
        None
    }
}

pub open spec fn sp_exports_info(s: Seq<u8>, i: int, end: int) -> Option<(ModuleExportsV, int)>
    decreases s.len() - i, 0int,
{
    if can_read(s, i, 6, end) {
        let cnt = be16(s, i + 4);
        match sp_u16s(s, i + 6, end, cnt as int) {
            Some((to, j)) => Some(
                (
                    ModuleExportsV {
                        exports_index: be16(s, i),
                        exports_flags: be16(s, i + 2),
                        exports_to_count: cnt,
                        exports_to_index: to,
                    },
                    j,
                ),
            ),
            None => None,
        }
    } else {
        None
    }
}

pub open spec fn sp_exports_list(s: Seq<u8>, i: int, end: int, n: int) -> Option<
    (Seq<ModuleExportsV>, int),
>
    decreases s.len() - i, 1int,
{
    if n <= 0 {
        Some((Seq::empty(), i))
    } else if i < s.len() {
        match sp_exports_info(s, i, end) {
            Some((e, j)) => match sp_exports_list(s, adv(i, j, s.len() as int), end, n - 1) {
                Some((rest, k)) => Some((seq![e] + rest, k)),
                None => None,
            },
            None => None,
        }
    } else {
        None
    }
}

pub open spec fn sp_opens_info(s: Seq<u8>, i: int, end: int) -> Option<(ModuleOpensV, int)>
    decreases s.len() - i, 0int,
{
    if can_read(s, i, 6, end) {
        let cnt = be16(s, i + 4);
        match sp_u16s(s, i + 6, end, cnt as int) {
            Some((to, j)) => Some(
                (
                    ModuleOpensV {
                        opens_index: be16(s, i),
                        opens_flags: be16(s, i + 2),
                        opens_to_count: cnt,
                        opens_to_index: to,
                    },
                    j,
                ),
            ),
            None => None,
        }
    } else {
        None
    }
}

pub open spec fn sp_opens_list(s: Seq<u8>, i: int, end: int, n: int) -> Option<
    (Seq<ModuleOpensV>, int),
>
    decreases s.len() - i, 1int,
{
    if n <= 0 {
        Some((Seq::empty(), i))
    } else if i < s.len() {
        match sp_opens_info(s, i, end) {
            Some((e, j)) => match sp_opens_list(s, adv(i, j, s.len() as int), end, n - 1) {
                Some((rest, k)) => Some((seq![e] + rest, k)),
                None => None,
            },
            None => None,
        }
    } else {
        None
    }
}

pub open spec fn sp_provides_info(s: Seq<u8>, i: int, end: int) -> Option<(ModuleProvidesV, int)>
    decreases s.len() - i, 0int,
{
    if can_read(s, i, 4, end) {
        let cnt = be16(s, i + 2);
        match sp_u16s(s, i + 4, end, cnt as int) {
            Some((with, j)) => Some(
                (
                    ModuleProvidesV {
                        provides_index: be16(s, i),
                        provides_with_count: cnt,
                        provides_with_index: with,
                    },
                    j,
                ),
            ),
            None => None,
        }
    } else {
        None
    }
}

pub open spec fn sp_provides_list(s: Seq<u8>, i: int, end: int, n: int) -> Option<
    (Seq<ModuleProvidesV>, int),
>
    decreases s.len() - i, 1int,
{
    if n <= 0 {
        Some((Seq::empty(), i))
    } else if i < s.len() {
        match sp_provides_info(s, i, end) {
            Some((e, j)) => match sp_provides_list(s, adv(i, j, s.len() as int), end, n - 1) {
                Some((rest, k)) => Some((seq![e] + rest, k)),
                None => None,
            },
            None => None,
        }
    } else {
        None
    }
}

// -- The annotation and attribute family (mutually recursive) --------------
pub open spec fn sp_element_value(s: Seq<u8>, i: int, end: int) -> Option<(ElementValueV, int)>
    decreases s.len() - i, 0int,
{
    if can_read(s, i, 1, end) {
        let tag = s[i];
        if tag == 66 {  // 'B'
            if can_read(s, i + 1, 2, end) {
                Some((ElementValueV::Byte { const_value_index: be16(s, i + 1) }, i + 3))
            } else {
                None
            }
        } else if tag == 67 {  // 'C'
            if can_read(s, i + 1, 2, end) {
                Some((ElementValueV::Char { const_value_index: be16(s, i + 1) }, i + 3))
            } else {
                None
            }
        } else if tag == 68 {  // 'D'
            if can_read(s, i + 1, 2, end) {
                Some((ElementValueV::Double { const_value_index: be16(s, i + 1) }, i + 3))
            } else {
                None
            }
        } else if tag == 70 {  // 'F'
            if can_read(s, i + 1, 2, end) {
                Some((ElementValueV::Float { const_value_index: be16(s, i + 1) }, i + 3))
            } else {
                None
            }
        } else if tag == 73 {  // 'I'
            if can_read(s, i + 1, 2, end) {
                Some((ElementValueV::Int { const_value_index: be16(s, i + 1) }, i + 3))
            } else {
                None
            }
        } else if tag == 74 {  // 'J'
            if can_read(s, i + 1, 2, end) {
                Some((ElementValueV::Long { const_value_index: be16(s, i + 1) }, i + 3))
            } else {
                None
            }
        } else if tag == 83 {  // 'S'
            if can_read(s, i + 1, 2, end) {
                Some((ElementValueV::Short { const_value_index: be16(s, i + 1) }, i + 3))
            } else {
                None
            }
        } else if tag == 90 {  // 'Z'
            if can_read(s, i + 1, 2, end) {
                Some((ElementValueV::Boolean { const_value_index: be16(s, i + 1) }, i + 3))
            } else {
                None
            }
        } else if tag == 115 {  // 's'
            if can_read(s, i + 1, 2, end) {
                Some((ElementValueV::String { const_value_index: be16(s, i + 1) }, i + 3))
            } else {
                None
            }
        } else if tag == 101 {  // 'e'
            if can_read(s, i + 1, 4, end) {
                Some(
                    (
                        ElementValueV::EnumConst {
                            type_name_index: be16(s, i + 1),
                            const_name_index: be16(s, i + 3),
                        },
                        i + 5,
                    ),
                )
            } else {
                None
            }
        } else if tag == 99 {  // 'c'
            if can_read(s, i + 1, 2, end) {
                Some((ElementValueV::ClassInfoIndex { class_info_index: be16(s, i + 1) }, i + 3))
            } else {
                None
            }
        } else if tag == 64 {  // '@'
            match sp_annotation(s, i + 1, end) {
                Some((a, j)) => Some((ElementValueV::AnnotationValue { annotation: a }, j)),
                None => None,
            }
        } else if tag == 91 {  // '['
            if can_read(s, i + 1, 2, end) {
                let num = be16(s, i + 1);
                match sp_element_values(s, i + 3, end, num as int) {
                    Some((vals, j)) => Some(
                        (ElementValueV::ArrayValue { num_values: num, values: vals }, j),
                    ),
                    None => None,
                }
            } else {
                None
            }
        } else {
            None
        }
    } else {
        None
    }
}

pub open spec fn sp_element_values(s: Seq<u8>, i: int, end: int, n: int) -> Option<
    (Seq<ElementValueV>, int),
>
    decreases s.len() - i, 2int,
{
    if n <= 0 {
        Some((Seq::empty(), i))
    } else if i < s.len() {
        match sp_element_value(s, i, end) {
            Some((v, j)) => match sp_element_values(s, adv(i, j, s.len() as int), end, n - 1) {
                Some((rest, k)) => Some((seq![v] + rest, k)),
                None => None,
            },
            None => None,
        }
    } else {
        None
    }
}

pub open spec fn sp_ev_pair(s: Seq<u8>, i: int, end: int) -> Option<(ElementValuePairV, int)>
    decreases s.len() - i, 1int,
{
    if can_read(s, i, 2, end) {
        match sp_element_value(s, i + 2, end) {
            Some((v, j)) => Some(
                (ElementValuePairV { element_name_index: be16(s, i), value: v }, j),
            ),
            None => None,
        }
    } else {
        None
    }
}

pub open spec fn sp_ev_pairs(s: Seq<u8>, i: int, end: int, n: int) -> Option<
    (Seq<ElementValuePairV>, int),
>
    decreases s.len() - i, 2int,
{
    if n <= 0 {
        Some((Seq::empty(), i))
    } else if i < s.len() {
        match sp_ev_pair(s, i, end) {
            Some((p, j)) => match sp_ev_pairs(s, adv(i, j, s.len() as int), end, n - 1) {
                Some((rest, k)) => Some((seq![p] + rest, k)),
                None => None,
            },
            None => None,
        }
    } else {
        None
    }
}

pub open spec fn sp_annotation(s: Seq<u8>, i: int, end: int) -> Option<(AnnotationV, int)>
    decreases s.len() - i, 1int,
{
    if can_read(s, i, 4, end) {
        let ti = be16(s, i);
        let n = be16(s, i + 2);
        match sp_ev_pairs(s, i + 4, end, n as int) {
            Some((pairs, j)) => Some(
                (
                    AnnotationV {
                        type_index: ti,
                        num_element_value_pairs: n,
                        element_value_pairs: pairs,
                    },
                    j,
                ),
            ),
            None => None,
        }
    } else {
        None
    }
}

pub open spec fn sp_annotations(s: Seq<u8>, i: int, end: int, n: int) -> Option<
    (Seq<AnnotationV>, int),
>
    decreases s.len() - i, 2int,
{
    if n <= 0 {
        Some((Seq::empty(), i))
    } else if i < s.len() {
        match sp_annotation(s, i, end) {
            Some((a, j)) => match sp_annotations(s, adv(i, j, s.len() as int), end, n - 1) {
                Some((rest, k)) => Some((seq![a] + rest, k)),
                None => None,
            },
            None => None,
        }
    } else {
        None
    }
}

pub open spec fn sp_param_annotation(s: Seq<u8>, i: int, end: int) -> Option<
    (ParameterAnnotationV, int),
>
    decreases s.len() - i, 1int,
{
    if can_read(s, i, 2, end) {
        let n = be16(s, i);
        match sp_annotations(s, i + 2, end, n as int) {
            Some((anns, j)) => Some(
                (ParameterAnnotationV { num_annotations: n, annotations: anns }, j),
            ),
            None => None,
        }
    } else {
        None
    }
}

pub open spec fn sp_param_annotations(s: Seq<u8>, i: int, end: int, n: int) -> Option<
    (Seq<ParameterAnnotationV>, int),
>
    decreases s.len() - i, 2int,
{
    if n <= 0 {
        Some((Seq::empty(), i))
    } else if i < s.len() {
        match sp_param_annotation(s, i, end) {
            Some((p, j)) => match sp_param_annotations(s, adv(i, j, s.len() as int), end, n - 1) {
                Some((rest, k)) => Some((seq![p] + rest, k)),
                None => None,
            },
            None => None,
        }
    } else {
        None
    }
}

pub open spec fn sp_type_annotation(s: Seq<u8>, i: int, end: int) -> Option<(TypeAnnotationV, int)>
    decreases s.len() - i, 1int,
{
    if can_read(s, i, 1, end) {
        let tt = s[i];
        match sp_target_info(s, i + 1, end, tt) {
            Some((tik, p)) => match sp_type_path(s, adv(i, p, s.len() as int), end) {
                Some((tp, q)) => if can_read(s, q, 4, end) && i < q {
                    let ti = be16(s, q);
                    let n = be16(s, q + 2);
                    match sp_ev_pairs(s, adv(i, q + 4, s.len() as int), end, n as int) {
                        Some((pairs, j)) => Some(
                            (
                                TypeAnnotationV {
                                    target_type: tt,
                                    target_info: TargetInfoV { target_type: tt, target_info_kind: tik },
                                    target_path: tp,
                                    type_index: ti,
                                    num_element_value_pairs: n,
                                    element_value_pairs: pairs,
                                },
                                j,
                            ),
                        ),
                        None => None,
                    }
                } else {
                    None
                },
                None => None,
            },
            None => None,
        }
    } else {
        None
    }
}

pub open spec fn sp_type_annotations(s: Seq<u8>, i: int, end: int, n: int) -> Option<
    (Seq<TypeAnnotationV>, int),
>
    decreases s.len() - i, 2int,
{
    if n <= 0 {
        Some((Seq::empty(), i))
    } else if i < s.len() {
        match sp_type_annotation(s, i, end) {
            Some((t, j)) => match sp_type_annotations(s, adv(i, j, s.len() as int), end, n - 1) {
                Some((rest, k)) => Some((seq![t] + rest, k)),
                None => None,
            },
            None => None,
        }
    } else {
        None
    }
}

/// Decode a recognized attribute payload at `[i, end)` by its resolved name.
/// Unrecognized names yield `Unknown`; the raw payload is kept by the caller
/// either way.
pub open spec fn sp_attribute_kind(
    s: Seq<u8>,
    i: int,
    end: int,
    name: Seq<char>,
    pool: Seq<Option<CpInfoV>>,
) -> Option<AttributeKindV>
    decreases s.len() - i, 1int,
{
    if name == "ConstantValue"@ {
        if can_read(s, i, 2, end) {
            Some(AttributeKindV::ConstantValue { constant_value_index: be16(s, i) })
        } else {
            None
        }
    } else if name == "Code"@ {
        if can_read(s, i, 8, end) {
            let code_length = be32(s, i + 4);
            if i + 8 + code_length as int <= end {
                let p = i + 8 + code_length as int;
                if can_read(s, p, 2, end) {
                    let etl = be16(s, p);
                    match sp_exception_table(s, p + 2, end, etl as int) {
                        Some((et, q)) => if can_read(s, q, 2, end) && i < q {
                            let ac = be16(s, q);
                            match sp_attrs(s, adv(i, q + 2, s.len() as int), end, ac as int, pool) {
                                Some((ats, _)) => Some(
                                    AttributeKindV::Code {
                                        max_stack: be16(s, i),
                                        max_locals: be16(s, i + 2),
                                        code_length,
                                        code: s.subrange(i + 8, i + 8 + code_length as int),
                                        exception_table_length: etl,
                                        exception_table: et,
                                        attributes_count: ac,
                                        attributes: ats,
                                    },
                                ),
                                None => None,
                            }
                        } else {
                            None
                        },
                        None => None,
                    }
                } else {
                    None
                }
            } else {
                None
            }
        } else {
            None
        }
    } else if name == "StackMapTable"@ {
        if can_read(s, i, 2, end) {
            let n = be16(s, i);
            match sp_stack_map_frames(s, i + 2, end, n as int) {
                Some((entries, _)) => Some(
                    AttributeKindV::StackMapTable { number_of_entries: n, entries },
                ),
                None => None,
            }
        } else {
            None
        }
    } else if name == "BootstrapMethods"@ {
        if can_read(s, i, 2, end) {
            let n = be16(s, i);
            match sp_bootstrap_methods(s, i + 2, end, n as int) {
                Some((ms, _)) => Some(
                    AttributeKindV::BootstrapMethods {
                        num_bootstrap_methods: n,
                        bootstrap_methods: ms,
                    },
                ),
                None => None,
            }
        } else {
            None
        }
    } else if name == "NestHost"@ {
        if can_read(s, i, 2, end) {
            Some(AttributeKindV::NestHost { host_class_index: be16(s, i) })
        } else {
            None
        }
    } else if name == "NestMembers"@ {
        if can_read(s, i, 2, end) {
            let n = be16(s, i);
            match sp_u16s(s, i + 2, end, n as int) {
                Some((classes, _)) => Some(
                    AttributeKindV::NestMembers { number_of_classes: n, classes },
                ),
                None => None,
            }
        } else {
            None
        }
    } else if name == "PermittedSubclasses"@ {
        if can_read(s, i, 2, end) {
            let n = be16(s, i);
            match sp_u16s(s, i + 2, end, n as int) {
                Some((classes, _)) => Some(
                    AttributeKindV::PermittedSubclasses { number_of_classes: n, classes },
                ),
                None => None,
            }
        } else {
            None
        }
    } else if name == "Exceptions"@ {
        if can_read(s, i, 2, end) {
            let n = be16(s, i);
            match sp_u16s(s, i + 2, end, n as int) {
                Some((tbl, _)) => Some(
                    AttributeKindV::Exceptions {
                        number_of_exceptions: n,
                        exception_index_table: tbl,
                    },
                ),
                None => None,
            }
        } else {
            None
        }
    } else if name == "InnerClasses"@ {
        if can_read(s, i, 2, end) {
            let n = be16(s, i);
            match sp_inner_classes(s, i + 2, end, n as int) {
                Some((classes, _)) => Some(
                    AttributeKindV::InnerClasses { number_of_classes: n, classes },
                ),
                None => None,
            }
        } else {
            None
        }
    } else if name == "EnclosingMethod"@ {
        if can_read(s, i, 4, end) {
            Some(
                AttributeKindV::EnclosingMethod {
                    class_index: be16(s, i),
                    method_index: be16(s, i + 2),
                },
            )
        } else {
            None
        }
    } else if name == "Synthetic"@ {
        Some(AttributeKindV::Synthetic)
    } else if name == "Signature"@ {
        if can_read(s, i, 2, end) {
            Some(AttributeKindV::Signature { signature_index: be16(s, i) })
        } else {
            None
        }
    } else if name == "Record"@ {
        if can_read(s, i, 2, end) {
            let n = be16(s, i);
            match sp_record_components(s, i + 2, end, n as int, pool) {
                Some((components, _)) => Some(
                    AttributeKindV::Record { components_count: n, components },
                ),
                None => None,
            }
        } else {
            None
        }
    } else if name == "SourceFile"@ {
        if can_read(s, i, 2, end) {
            Some(AttributeKindV::SourceFile { sourcefile_index: be16(s, i) })
        } else {
            None
        }
    } else if name == "LineNumberTable"@ {
        if can_read(s, i, 2, end) {
            let n = be16(s, i);
            match sp_line_number_table(s, i + 2, end, n as int) {
                Some((tbl, _)) => Some(
                    AttributeKindV::LineNumberTable {
                        line_number_table_length: n,
                        line_number_table: tbl,
                    },
                ),
                None => None,
            }
        } else {
            None
        }
    } else if name == "LocalVariableTable"@ {
        if can_read(s, i, 2, end) {
            let n = be16(s, i);
            match sp_local_variable_table(s, i + 2, end, n as int) {
                Some((tbl, _)) => Some(
                    AttributeKindV::LocalVariableTable {
                        local_variable_table_length: n,
                        local_variable_table: tbl,
                    },
                ),
                None => None,
            }
        } else {
            None
        }
    } else if name == "LocalVariableTypeTable"@ {
        if can_read(s, i, 2, end) {
            let n = be16(s, i);
            match sp_local_variable_type_table(s, i + 2, end, n as int) {
                Some((tbl, _)) => Some(
                    AttributeKindV::LocalVariableTypeTable {
                        local_variable_type_table_length: n,
                        local_variable_type_table: tbl,
                    },
                ),
                None => None,
            }
        } else {
            None
        }
    } else if name == "SourceDebugExtension"@ {
        if 0 <= i <= end <= s.len() {
            Some(AttributeKindV::SourceDebugExtension { debug_extension: s.subrange(i, end) })
        } else {
            None
        }
    } else if name == "Deprecated"@ {
        Some(AttributeKindV::Deprecated)
    } else if name == "RuntimeVisibleAnnotations"@ {
        if can_read(s, i, 2, end) {
            let n = be16(s, i);
            match sp_annotations(s, i + 2, end, n as int) {
                Some((anns, _)) => Some(
                    AttributeKindV::RuntimeVisibleAnnotations {
                        num_annotations: n,
                        annotations: anns,
                    },
                ),
                None => None,
            }
        } else {
            None
        }
    } else if name == "RuntimeInvisibleAnnotations"@ {
        if can_read(s, i, 2, end) {
            let n = be16(s, i);
            match sp_annotations(s, i + 2, end, n as int) {
                Some((anns, _)) => Some(
                    AttributeKindV::RuntimeInvisibleAnnotations {
                        num_annotations: n,
                        annotations: anns,
                    },
                ),
                None => None,
            }
        } else {
            None
        }
    } else if name == "RuntimeVisibleParameterAnnotations"@ {
        if can_read(s, i, 1, end) {
            let n = s[i];
            match sp_param_annotations(s, i + 1, end, n as int) {
                Some((pas, _)) => Some(
                    AttributeKindV::RuntimeVisibleParameterAnnotations {
                        num_parameters: n,
                        parameter_annotations: pas,
                    },
                ),
                None => None,
            }
        } else {
            None
        }
    } else if name == "RuntimeInvisibleParameterAnnotations"@ {
        if can_read(s, i, 1, end) {
            let n = s[i];
            match sp_param_annotations(s, i + 1, end, n as int) {
                Some((pas, _)) => Some(
                    AttributeKindV::RuntimeInvisibleParameterAnnotations {
                        num_parameters: n,
                        parameter_annotations: pas,
                    },
                ),
                None => None,
            }
        } else {
            None
        }
    } else if name == "RuntimeVisibleTypeAnnotations"@ {
        if can_read(s, i, 2, end) {
            let n = be16(s, i);
            match sp_type_annotations(s, i + 2, end, n as int) {
                Some((tas, _)) => Some(
                    AttributeKindV::RuntimeVisibleTypeAnnotations {
                        num_annotations: n,
                        type_annotations: tas,
                    },
                ),
                None => None,
            }
        } else {
            None
        }
    } else if name == "RuntimeInvisibleTypeAnnotations"@ {
        if can_read(s, i, 2, end) {
            let n = be16(s, i);
            match sp_type_annotations(s, i + 2, end, n as int) {
                Some((tas, _)) => Some(
                    AttributeKindV::RuntimeInvisibleTypeAnnotations {
                        num_annotations: n,
                        type_annotations: tas,
                    },
                ),
                None => None,
            }
        } else {
            None
        }
    } else if name == "AnnotationDefault"@ {
        match sp_element_value(s, i, end) {
            Some((v, _)) => Some(AttributeKindV::AnnotationDefault { default_value: v }),
            None => None,
        }
    } else if name == "MethodParameters"@ {
        if can_read(s, i, 1, end) {
            let n = s[i];
            match sp_method_parameters(s, i + 1, end, n as int) {
                Some((ps, _)) => Some(
                    AttributeKindV::MethodParameters { parameters_count: n, parameters: ps },
                ),
                None => None,
            }
        } else {
            None
        }
    } else if name == "Module"@ {
        if can_read(s, i, 8, end) {
            let requires_count = be16(s, i + 6);
            match sp_requires_list(s, i + 8, end, requires_count as int) {
                Some((reqs, p1)) => if can_read(s, p1, 2, end) && i < p1 {
                    let exports_count = be16(s, p1);
                    match sp_exports_list(s, adv(i, p1 + 2, s.len() as int), end,
                        exports_count as int) {
                        Some((exps, p2)) => if can_read(s, p2, 2, end) && i < p2 {
                            let opens_count = be16(s, p2);
                            match sp_opens_list(s, adv(i, p2 + 2, s.len() as int), end,
                                opens_count as int) {
                                Some((ops, p3)) => if can_read(s, p3, 2, end) && i < p3 {
                                    let uses_count = be16(s, p3);
                                    match sp_u16s(s, adv(i, p3 + 2, s.len() as int), end,
                                        uses_count as int) {
                                        Some((uses, p4)) => if can_read(s, p4, 2, end) && i < p4 {
                                            let provides_count = be16(s, p4);
                                            match sp_provides_list(s, adv(i, p4 + 2, s.len() as int),
                                                end, provides_count as int) {
                                                Some((provs, _)) => Some(
                                                    AttributeKindV::Module {
                                                        module_name_index: be16(s, i),
                                                        module_flags: be16(s, i + 2),
                                                        module_version_index: be16(s, i + 4),
                                                        requires_count,
                                                        requires_list: reqs,
                                                        exports_count,
                                                        exports: exps,
                                                        opens_count,
                                                        opens: ops,
                                                        uses_count,
                                                        uses_index: uses,
                                                        provides_count,
                                                        provides: provs,
                                                    },
                                                ),
                                                None => None,
                                            }
                                        } else {
                                            None
                                        },
                                        None => None,
                                    }
                                } else {
                                    None
                                },
                                None => None,
                            }
                        } else {
                            None
                        },
                        None => None,
                    }
                } else {
                    None
                },
                None => None,
            }
        } else {
            None
        }
    } else if name == "ModulePackages"@ {
        if can_read(s, i, 2, end) {
            let n = be16(s, i);
            match sp_u16s(s, i + 2, end, n as int) {
                Some((pkgs, _)) => Some(
                    AttributeKindV::ModulePackages { package_count: n, package_index: pkgs },
                ),
                None => None,
            }
        } else {
            None
        }
    } else if name == "ModuleMainClass"@ {
        if can_read(s, i, 2, end) {
            Some(AttributeKindV::ModuleMainClass { main_class_index: be16(s, i) })
        } else {
            None
        }
    } else {
        Some(AttributeKindV::Unknown)
    }
}

/// One attribute: name index, length, the raw payload, and its decoded kind.
/// The attribute's name index must resolve to a `Utf8` pool entry.
pub open spec fn sp_attribute_info(
    s: Seq<u8>,
    i: int,
    end: int,
    pool: Seq<Option<CpInfoV>>,
) -> Option<(AttributeInfoV, int)>
    decreases s.len() - i, 1int,
{
    if can_read(s, i, 6, end) {
        let ni = be16(s, i);
        let alen = be32(s, i + 2);
        if i + 6 + alen as int <= end {
            match cp_utf8_at(pool, ni) {
                Some(name) => match sp_attribute_kind(s, i + 6, i + 6 + alen as int, name, pool) {
                    Some(kind) => Some(
                        (
                            AttributeInfoV {
                                attribute_name_index: ni,
                                attribute_length: alen,
                                info: s.subrange(i + 6, i + 6 + alen as int),
                                kind,
                            },
                            i + 6 + alen as int,
                        ),
                    ),
                    None => None,
                },
                None => None,
            }
        } else {
            None
        }
    } else {
        None
    }
}

pub open spec fn sp_attrs(
    s: Seq<u8>,
    i: int,
    end: int,
    n: int,
    pool: Seq<Option<CpInfoV>>,
) -> Option<(Seq<AttributeInfoV>, int)>
    decreases s.len() - i, 2int,
{
    if n <= 0 {
        Some((Seq::empty(), i))
    } else if i < s.len() {
        match sp_attribute_info(s, i, end, pool) {
            Some((a, j)) => match sp_attrs(s, adv(i, j, s.len() as int), end, n - 1, pool) {
                Some((rest, k)) => Some((seq![a] + rest, k)),
                None => None,
            },
            None => None,
        }
    } else {
        None
    }
}

pub open spec fn sp_record_component(s: Seq<u8>, i: int, end: int, pool: Seq<Option<CpInfoV>>) -> Option<
    (RecordComponentV, int),
>
    decreases s.len() - i, 1int,
{
    if can_read(s, i, 6, end) {
        let ac = be16(s, i + 4);
        match sp_attrs(s, i + 6, end, ac as int, pool) {
            Some((ats, j)) => Some(
                (
                    RecordComponentV {
                        name_index: be16(s, i),
                        descriptor_index: be16(s, i + 2),
                        attributes_count: ac,
                        attributes: ats,
                    },
                    j,
                ),
            ),
            None => None,
        }
    } else {
        None
    }
}

pub open spec fn sp_record_components(
    s: Seq<u8>,
    i: int,
    end: int,
    n: int,
    pool: Seq<Option<CpInfoV>>,
) -> Option<(Seq<RecordComponentV>, int)>
    decreases s.len() - i, 2int,
{
    if n <= 0 {
        Some((Seq::empty(), i))
    } else if i < s.len() {
        match sp_record_component(s, i, end, pool) {
            Some((c, j)) => match sp_record_components(s, adv(i, j, s.len() as int), end, n - 1,
                pool) {
                Some((rest, k)) => Some((seq![c] + rest, k)),
                None => None,
            },
            None => None,
        }
    } else {
        None
    }
}

// -- Fields, methods, and the whole file ------------------------------------
pub open spec fn sp_field_info(s: Seq<u8>, i: int, pool: Seq<Option<CpInfoV>>) -> Option<
    (FieldInfoV, int),
> {
    if can_read(s, i, 8, s.len() as int) {
        let ac = be16(s, i + 6);
        match sp_attrs(s, i + 8, s.len() as int, ac as int, pool) {
            Some((ats, j)) => Some(
                (
                    FieldInfoV {
                        access_flags: FieldAccessFlags { bits: be16(s, i) },
                        name_index: be16(s, i + 2),
                        descriptor_index: be16(s, i + 4),
                        attributes_count: ac,
                        attributes: ats,
                    },
                    j,
                ),
            ),
            None => None,
        }
    } else {
        None
    }
}

pub open spec fn sp_fields(s: Seq<u8>, i: int, n: int, pool: Seq<Option<CpInfoV>>) -> Option<
    (Seq<FieldInfoV>, int),
>
    decreases s.len() - i,
{
    if n <= 0 {
        Some((Seq::empty(), i))
    } else if i < s.len() {
        match sp_field_info(s, i, pool) {
            Some((f, j)) => match sp_fields(s, adv(i, j, s.len() as int), n - 1, pool) {
                Some((rest, k)) => Some((seq![f] + rest, k)),
                None => None,
            },
            None => None,
        }
    } else {
        None
    }
}

pub open spec fn sp_method_info(s: Seq<u8>, i: int, pool: Seq<Option<CpInfoV>>) -> Option<
    (MethodInfoV, int),
> {
    if can_read(s, i, 8, s.len() as int) {
        let ac = be16(s, i + 6);
        match sp_attrs(s, i + 8, s.len() as int, ac as int, pool) {
            Some((ats, j)) => Some(
                (
                    MethodInfoV {
                        access_flags: MethodAccessFlags { bits: be16(s, i) },
                        name_index: be16(s, i + 2),
                        descriptor_index: be16(s, i + 4),
                        attributes_count: ac,
                        attributes: ats,
                    },
                    j,
                ),
            ),
            None => None,
        }
    } else {
        None
    }
}

pub open spec fn sp_methods(s: Seq<u8>, i: int, n: int, pool: Seq<Option<CpInfoV>>) -> Option<
    (Seq<MethodInfoV>, int),
>
    decreases s.len() - i,
{
    if n <= 0 {
        Some((Seq::empty(), i))
    } else if i < s.len() {
        match sp_method_info(s, i, pool) {
            Some((m, j)) => match sp_methods(s, adv(i, j, s.len() as int), n - 1, pool) {
                Some((rest, k)) => Some((seq![m] + rest, k)),
                None => None,
            },
            None => None,
        }
    } else {
        None
    }
}

/// The first four bytes are `CA FE BA BE`.
pub open spec fn magic_ok(s: Seq<u8>) -> bool {
    s.len() >= 4 && s[0] == 0xCA && s[1] == 0xFE && s[2] == 0xBA && s[3] == 0xBE
}

/// The whole class file as a prefix of `s`: magic, versions, constant pool,
/// flags, this/super, interfaces, fields, methods, class attributes.
pub open spec fn sp_class_file(s: Seq<u8>) -> Option<(ClassFileV, int)> {
    if magic_ok(s) && s.len() >= 10 {
        let minor_version = be16(s, 4);
        let major_version = be16(s, 6);
        let constant_pool_count = be16(s, 8);
        let slots_wanted: int = if constant_pool_count == 0 {
            0
        } else {
            constant_pool_count as int - 1
        };
        match sp_cp_slots(s, 10, slots_wanted) {
            Some((entries, p)) => {
                let pool: Seq<Option<CpInfoV>> = if constant_pool_count == 0 {
                    entries
                } else {
                    seq![None] + entries
                };
                if can_read(s, p, 8, s.len() as int) {
                    let access_flags = AccessFlags { bits: be16(s, p) };
                    let this_class = be16(s, p + 2);
                    let super_class = be16(s, p + 4);
                    let interfaces_count = be16(s, p + 6);
                    match sp_u16s(s, p + 8, s.len() as int, interfaces_count as int) {
                        Some((interfaces, q)) => if can_read(s, q, 2, s.len() as int) {
                            let fields_count = be16(s, q);
                            match sp_fields(s, q + 2, fields_count as int, pool) {
                                Some((fields, r)) => if can_read(s, r, 2, s.len() as int) {
                                    let methods_count = be16(s, r);
                                    match sp_methods(s, r + 2, methods_count as int, pool) {
                                        Some((methods, t)) => if can_read(s, t, 2, s.len() as int) {
                                            let attributes_count = be16(s, t);
                                            match sp_attrs(s, t + 2, s.len() as int,
                                                attributes_count as int, pool) {
                                                Some((attributes, u)) => Some(
                                                    (
                                                        ClassFileV {
                                                            minor_version,
                                                            major_version,
                                                            constant_pool_count,
                                                            constant_pool: pool,
                                                            access_flags,
                                                            this_class,
                                                            super_class,
                                                            interfaces_count,
                                                            interfaces,
                                                            fields_count,
                                                            fields,
                                                            methods_count,
                                                            methods,
                                                            attributes_count,
                                                            attributes,
                                                        },
                                                        u,
                                                    ),
                                                ),
                                                None => None,
                                            }
                                        } else {
                                            None
                                        },
                                        None => None,
                                    }
                                } else {
                                    None
                                },
                                None => None,
                            }
                        } else {
                            None
                        },
                        None => None,
                    }
                } else {
                    None
                }
            },
            None => None,
        }
    } else {
        None
    }
}


// ---------------------------------------------------------------------------
// Executable parsers.
// ---------------------------------------------------------------------------
/// Relies on char::from_u32: `Some` exactly for Unicode scalar values
/// (codepoints outside the surrogate range and at most 0x10FFFF), carrying
/// the given scalar value.
#[verifier::external_body]
fn char_from_u32(v: u32) -> (r: Option<char>)
    ensures
        r is Some <==> (v < 0xD800 || (0xE000 <= v && v <= 0x10FFFF)),
        match r {
            Some(c) => c as u32 == v,
            None => true,
        },
{
    char::from_u32(v)
}

/// Relies on String::push: it appends exactly the given character.
#[verifier::external_body]
pub(crate) fn push_char(s: &mut String, c: char)
    ensures
        final(s)@ == old(s)@.push(c),
{
    s.push(c);
}

fn be16e(s: &[u8], i: usize) -> (v: u16)
    requires
        i + 2 <= s@.len(),
    ensures
        v == be16(s@, i as int),
{
    (s[i] as u16) * 0x100 + (s[i + 1] as u16)
}

fn be32e(s: &[u8], i: usize) -> (v: u32)
    requires
        i + 4 <= s@.len(),
    ensures
        v == be32(s@, i as int),
{
    (s[i] as u32) * 0x1000000 + (s[i + 1] as u32) * 0x10000 + (s[i + 2] as u32) * 0x100 + (s[i
        + 3] as u32)
}

pub open spec fn opt_prepend_chars(pre: Seq<char>, o: Option<Seq<char>>) -> Option<Seq<char>> {
    match o {
        Some(rest) => Some(pre + rest),
        None => None,
    }
}

/// Decode JVM modified UTF-8 into a string.
fn decode_mutf8(b: &[u8]) -> (r: Result<String, Error>)
    ensures
        match r {
            Ok(out) => sp_mutf8(b@, 0) == Some(out@),
            Err(e) => sp_mutf8(b@, 0) is None && e == Error::BadStructure,
        },
{
    let n = b.len();
    let mut out = String::new();
    let mut i: usize = 0;
    loop
        invariant
            i <= n,
            n == b@.len(),
            sp_mutf8(b@, 0) == opt_prepend_chars(out@, sp_mutf8(b@, i as int)),
        ensures
            sp_mutf8(b@, 0) == Some(out@),
        decreases n - i,
    {
        if i >= n {
            proof {
                assert(out@ + Seq::<char>::empty() =~= out@);
            }
            break;
        }
        let ghost prev = out@;
        let b0 = b[i];
        if 1 <= b0 && b0 <= 0x7F {
            let c = b0 as char;
            push_char(&mut out, c);
            proof {
                assert(out@ + sp_mutf8(b@, i + 1).unwrap() =~= prev + (seq![c] + sp_mutf8(
                    b@,
                    i + 1,
                ).unwrap())) by {
                    if sp_mutf8(b@, i + 1) is Some {
                    }
                };
                assert(sp_mutf8(b@, 0) == opt_prepend_chars(out@, sp_mutf8(b@, i + 1)));
            }
            i = i + 1;
        } else if 0xC0 <= b0 && b0 <= 0xDF {
            if !(n - i >= 2 && 0x80 <= b[i + 1] && b[i + 1] <= 0xBF) {
                return Err(Error::BadStructure);
            }
            let cp: u32 = ((b0 as u32) % 0x20) * 0x40 + ((b[i + 1] as u32) % 0x40);
            if !(cp == 0 || (0x80 <= cp && cp <= 0x7FF)) {
                return Err(Error::BadStructure);
            }
            let c = match char_from_u32(cp) {
                Some(c) => c,
                None => {
                    proof {
                        assert(false);
                    }
                    return Err(Error::BadStructure);
                },
            };
            proof {
                vstd::utf8::char_u32_cast(c, cp);
            }
            push_char(&mut out, c);
            proof {
                if sp_mutf8(b@, i + 2) is Some {
                    assert(out@ + sp_mutf8(b@, i + 2).unwrap() =~= prev + (seq![c] + sp_mutf8(
                        b@,
                        i + 2,
                    ).unwrap()));
                }
                assert(sp_mutf8(b@, 0) == opt_prepend_chars(out@, sp_mutf8(b@, i + 2)));
            }
            i = i + 2;
        } else if 0xE0 <= b0 && b0 <= 0xEF {
            if !(n - i >= 3 && 0x80 <= b[i + 1] && b[i + 1] <= 0xBF && 0x80 <= b[i + 2] && b[i + 2]
                <= 0xBF) {
                return Err(Error::BadStructure);
            }
            let cp: u32 = ((b0 as u32) % 0x10) * 0x1000 + ((b[i + 1] as u32) % 0x40) * 0x40 + ((b[i
                + 2] as u32) % 0x40);
            if cp < 0x800 {
                return Err(Error::BadStructure);
            }
            if 0xD800 <= cp && cp <= 0xDBFF {
                if !(n - i >= 6 && 0xE0 <= b[i + 3] && b[i + 3] <= 0xEF && 0x80 <= b[i + 4] && b[i
                    + 4] <= 0xBF && 0x80 <= b[i + 5] && b[i + 5] <= 0xBF) {
                    return Err(Error::BadStructure);
                }
                let cp2: u32 = ((b[i + 3] as u32) % 0x10) * 0x1000 + ((b[i + 4] as u32) % 0x40)
                    * 0x40 + ((b[i + 5] as u32) % 0x40);
                if !(0xDC00 <= cp2 && cp2 <= 0xDFFF) {
                    return Err(Error::BadStructure);
                }
                let combined: u32 = 0x10000 + (cp - 0xD800) * 0x400 + (cp2 - 0xDC00);
                let c = match char_from_u32(combined) {
                    Some(c) => c,
                    None => {
                        proof {
                            assert(false);
                        }
                        return Err(Error::BadStructure);
                    },
                };
                proof {
                    vstd::utf8::char_u32_cast(c, combined);
                }
                push_char(&mut out, c);
                proof {
                    if sp_mutf8(b@, i + 6) is Some {
                        assert(out@ + sp_mutf8(b@, i + 6).unwrap() =~= prev + (seq![c] + sp_mutf8(
                            b@,
                            i + 6,
                        ).unwrap()));
                    }
                    assert(sp_mutf8(b@, 0) == opt_prepend_chars(out@, sp_mutf8(b@, i + 6)));
                }
                i = i + 6;
            } else if 0xDC00 <= cp && cp <= 0xDFFF {
                return Err(Error::BadStructure);
            } else {
                let c = match char_from_u32(cp) {
                    Some(c) => c,
                    None => {
                        proof {
                            assert(false);
                        }
                        return Err(Error::BadStructure);
                    },
                };
                proof {
                    vstd::utf8::char_u32_cast(c, cp);
                }
                push_char(&mut out, c);
                proof {
                    if sp_mutf8(b@, i + 3) is Some {
                        assert(out@ + sp_mutf8(b@, i + 3).unwrap() =~= prev + (seq![c] + sp_mutf8(
                            b@,
                            i + 3,
                        ).unwrap()));
                    }
                    assert(sp_mutf8(b@, 0) == opt_prepend_chars(out@, sp_mutf8(b@, i + 3)));
                }
                i = i + 3;
            }
        } else {
            return Err(Error::BadStructure);
        }
    }
    Ok(out)
}

/// Parse one constant-pool entry.
fn p_cp_entry(s: &[u8], i: usize) -> (r: Result<(ConstantPoolInfo, usize), Error>)
    requires
        i <= s@.len(),
    ensures
        match r {
            Ok((e, j)) => sp_cp_entry(s@, i as int) == Some((cp_info_v(e), j as int)) && i < j
                <= s@.len(),
            Err(e) => sp_cp_entry(s@, i as int) is None && e != Error::Trailing,
        },
{
    proof {
        reveal(sp_cp_entry);
    }
    let n = s.len();
    if i >= n {
        return Err(Error::Truncated);
    }
    let tag = s[i];
    if tag == 7 {
        if n - i >= 3 {
            Ok((ConstantPoolInfo::Class { name_index: be16e(s, i + 1) }, i + 3))
        } else {
            Err(Error::Truncated)
        }
    } else if tag == 9 {
        if n - i >= 5 {
            Ok(
                (
                    ConstantPoolInfo::Fieldref {
                        class_index: be16e(s, i + 1),
                        name_and_type_index: be16e(s, i + 3),
                    },
                    i + 5,
                ),
            )
        } else {
            Err(Error::Truncated)
        }
    } else if tag == 10 {
        if n - i >= 5 {
            Ok(
                (
                    ConstantPoolInfo::Methodref {
                        class_index: be16e(s, i + 1),
                        name_and_type_index: be16e(s, i + 3),
                    },
                    i + 5,
                ),
            )
        } else {
            Err(Error::Truncated)
        }
    } else if tag == 11 {
        if n - i >= 5 {
            Ok(
                (
                    ConstantPoolInfo::InterfaceMethodref {
                        class_index: be16e(s, i + 1),
                        name_and_type_index: be16e(s, i + 3),
                    },
                    i + 5,
                ),
            )
        } else {
            Err(Error::Truncated)
        }
    } else if tag == 8 {
        if n - i >= 3 {
            Ok((ConstantPoolInfo::String { string_index: be16e(s, i + 1) }, i + 3))
        } else {
            Err(Error::Truncated)
        }
    } else if tag == 3 {
        if n - i >= 5 {
            Ok((ConstantPoolInfo::Integer { bytes: be32e(s, i + 1) }, i + 5))
        } else {
            Err(Error::Truncated)
        }
    } else if tag == 4 {
        if n - i >= 5 {
            Ok((ConstantPoolInfo::Float { bytes: be32e(s, i + 1) }, i + 5))
        } else {
            Err(Error::Truncated)
        }
    } else if tag == 5 {
        if n - i >= 9 {
            Ok(
                (
                    ConstantPoolInfo::Long {
                        high_bytes: be32e(s, i + 1),
                        low_bytes: be32e(s, i + 5),
                    },
                    i + 9,
                ),
            )
        } else {
            Err(Error::Truncated)
        }
    } else if tag == 6 {
        if n - i >= 9 {
            Ok(
                (
                    ConstantPoolInfo::Double {
                        high_bytes: be32e(s, i + 1),
                        low_bytes: be32e(s, i + 5),
                    },
                    i + 9,
                ),
            )
        } else {
            Err(Error::Truncated)
        }
    } else if tag == 12 {
        if n - i >= 5 {
            Ok(
                (
                    ConstantPoolInfo::NameAndType {
                        name_index: be16e(s, i + 1),
                        descriptor_index: be16e(s, i + 3),
                    },
                    i + 5,
                ),
            )
        } else {
            Err(Error::Truncated)
        }
    } else if tag == 1 {
        if n - i >= 3 {
            let length = be16e(s, i + 1);
            if length as usize <= n - (i + 3) {
                let bytes = vstd::slice::slice_to_vec(&s[i + 3..i + 3 + length as usize]);
                match decode_mutf8(&bytes) {
                    Ok(utf8_str) => Ok(
                        (ConstantPoolInfo::Utf8 { length, bytes, utf8_str }, i + 3
                            + length as usize),
                    ),
                    Err(e) => Err(e),
                }
            } else {
                Err(Error::Truncated)
            }
        } else {
            Err(Error::Truncated)
        }
    } else if tag == 15 {
        if n - i >= 4 {
            Ok(
                (
                    ConstantPoolInfo::MethodHandle {
                        reference_kind: s[i + 1],
                        reference_index: be16e(s, i + 2),
                    },
                    i + 4,
                ),
            )
        } else {
            Err(Error::Truncated)
        }
    } else if tag == 16 {
        if n - i >= 3 {
            Ok((ConstantPoolInfo::MethodType { descriptor_index: be16e(s, i + 1) }, i + 3))
        } else {
            Err(Error::Truncated)
        }
    } else if tag == 17 {
        if n - i >= 5 {
            Ok(
                (
                    ConstantPoolInfo::Dynamic {
                        bootstrap_method_attr_index: be16e(s, i + 1),
                        name_and_type_index: be16e(s, i + 3),
                    },
                    i + 5,
                ),
            )
        } else {
            Err(Error::Truncated)
        }
    } else if tag == 18 {
        if n - i >= 5 {
            Ok(
                (
                    ConstantPoolInfo::InvokeDynamic {
                        bootstrap_method_attr_index: be16e(s, i + 1),
                        name_and_type_index: be16e(s, i + 3),
                    },
                    i + 5,
                ),
            )
        } else {
            Err(Error::Truncated)
        }
    } else if tag == 19 {
        if n - i >= 3 {
            Ok((ConstantPoolInfo::Module { name_index: be16e(s, i + 1) }, i + 3))
        } else {
            Err(Error::Truncated)
        }
    } else if tag == 20 {
        if n - i >= 3 {
            Ok((ConstantPoolInfo::Package { name_index: be16e(s, i + 1) }, i + 3))
        } else {
            Err(Error::Truncated)
        }
    } else {
        Err(Error::BadTag { site: TagSite::ConstantPool, value: tag })
    }
}

fn cp_entry_is_wide(e: &ConstantPoolInfo) -> (r: bool)
    ensures
        r == cp_is_wide(cp_info_v(*e)),
{
    match e {
        ConstantPoolInfo::Long { .. } => true,
        ConstantPoolInfo::Double { .. } => true,
        _ => false,
    }
}

/// Parse `m` one-indexed constant-pool slots.
fn p_cp_slots(s: &[u8], i: usize, m: usize) -> (r: Result<
    (Vec<Option<ConstantPoolInfo>>, usize),
    Error,
>)
    requires
        i <= s@.len(),
    ensures
        match r {
            Ok((slots, j)) => sp_cp_slots(s@, i as int, m as int) == Some(
                (cp_slots_v(slots@), j as int),
            ) && i <= j <= s@.len() && slots@.len() == m,
            Err(e) => sp_cp_slots(s@, i as int, m as int) is None && e != Error::Trailing,
        },
    decreases m,
{
    if m == 0 {
        let v: Vec<Option<ConstantPoolInfo>> = Vec::new();
        proof {
            assert(cp_slots_v(v@) =~= Seq::<Option<CpInfoV>>::empty());
        }
        return Ok((v, i));
    }
    if i >= s.len() {
        return Err(Error::Truncated);
    }
    match p_cp_entry(s, i) {
        Ok((e, j)) => {
            let wide = cp_entry_is_wide(&e);
            if wide && m < 2 {
                return Err(Error::BadStructure);
            }
            let taken: usize = if wide {
                2
            } else {
                1
            };
            match p_cp_slots(s, j, m - taken) {
                Ok((mut rest, k)) => {
                    let ghost rest0 = rest@;
                    let ghost e0 = e;
                    let mut v: Vec<Option<ConstantPoolInfo>> = Vec::new();
                    v.push(Some(e));
                    if wide {
                        v.push(None);
                    }
                    v.append(&mut rest);
                    proof {
                        if wide {
                            assert(v@ =~= seq![Some(e0), None] + rest0);
                            assert(cp_slots_v(v@) =~= seq![Some(cp_info_v(e0)), None] + cp_slots_v(
                                rest0,
                            ));
                        } else {
                            assert(v@ =~= seq![Some(e0)] + rest0);
                            assert(cp_slots_v(v@) =~= seq![Some(cp_info_v(e0))] + cp_slots_v(
                                rest0,
                            ));
                        }
                    }
                    Ok((v, k))
                },
                Err(e2) => Err(e2),
            }
        },
        Err(e) => Err(e),
    }
}

/// Look up the `Utf8` string at a constant-pool slot.
pub fn cp_utf8<'a>(pool: &'a Vec<Option<ConstantPoolInfo>>, idx: u16) -> (r: Option<&'a String>)
    ensures
        match r {
            Some(name) => cp_utf8_at(cp_slots_v(pool@), idx) == Some(name@),
            None => cp_utf8_at(cp_slots_v(pool@), idx) is None,
        },
{
    if idx == 0 || idx as usize >= pool.len() {
        return None;
    }
    match &pool[idx as usize] {
        Some(ConstantPoolInfo::Utf8 { utf8_str, .. }) => Some(utf8_str),
        _ => None,
    }
}

fn p_u16s(s: &[u8], i: usize, end: usize, n: usize) -> (r: Result<(Vec<u16>, usize), Error>)
    requires
        i <= end,
        end <= s@.len(),
    ensures
        match r {
            Ok((v, j)) => sp_u16s(s@, i as int, end as int, n as int) == Some((v@, j as int)) && i
                <= j <= end,
            Err(e) => sp_u16s(s@, i as int, end as int, n as int) is None && e != Error::Trailing,
        },
    decreases n,
{
    if n == 0 {
        let v: Vec<u16> = Vec::new();
        proof {
            assert(v@ =~= Seq::<u16>::empty());
        }
        return Ok((v, i));
    }
    if !(end - i >= 2) {
        return Err(Error::Truncated);
    }
    let x = be16e(s, i);
    match p_u16s(s, i + 2, end, n - 1) {
        Ok((mut rest, k)) => {
            let ghost rest0 = rest@;
            let mut v: Vec<u16> = Vec::new();
            v.push(x);
            v.append(&mut rest);
            proof {
                assert(v@ =~= seq![x] + rest0);
                    assert(v@.drop_first() =~= rest0);
            }
            Ok((v, k))
        },
        Err(e) => Err(e),
    }
}

fn p_exception_table(s: &[u8], i: usize, end: usize, n: usize) -> (r: Result<
    (Vec<ExceptionTableEntry>, usize),
    Error,
>)
    requires
        i <= end,
        end <= s@.len(),
    ensures
        match r {
            Ok((v, j)) => sp_exception_table(s@, i as int, end as int, n as int) == Some(
                (v@, j as int),
            ) && i <= j <= end,
            Err(e) => sp_exception_table(s@, i as int, end as int, n as int) is None && e != Error::Trailing,
        },
    decreases n,
{
    if n == 0 {
        let v: Vec<ExceptionTableEntry> = Vec::new();
        proof {
            assert(v@ =~= Seq::<ExceptionTableEntry>::empty());
        }
        return Ok((v, i));
    }
    if !(end - i >= 8) {
        return Err(Error::Truncated);
    }
    let e = ExceptionTableEntry {
        start_pc: be16e(s, i),
        end_pc: be16e(s, i + 2),
        handler_pc: be16e(s, i + 4),
        catch_type: be16e(s, i + 6),
    };
    match p_exception_table(s, i + 8, end, n - 1) {
        Ok((mut rest, k)) => {
            let ghost rest0 = rest@;
            let mut v: Vec<ExceptionTableEntry> = Vec::new();
            v.push(e);
            v.append(&mut rest);
            proof {
                assert(v@ =~= seq![e] + rest0);
                    assert(v@.drop_first() =~= rest0);
            }
            Ok((v, k))
        },
        Err(er) => Err(er),
    }
}

fn p_vti(s: &[u8], i: usize, end: usize) -> (r: Result<(VerificationTypeInfo, usize), Error>)
    requires
        i <= end,
        end <= s@.len(),
    ensures
        match r {
            Ok((v, j)) => sp_vti(s@, i as int, end as int) == Some((v, j as int)) && i < j <= end,
            Err(e) => sp_vti(s@, i as int, end as int) is None && e != Error::Trailing,
        },
{
    if !(end - i >= 1) {
        return Err(Error::Truncated);
    }
    let tag = s[i];
    if tag == 0 {
        Ok((VerificationTypeInfo::Top, i + 1))
    } else if tag == 1 {
        Ok((VerificationTypeInfo::Integer, i + 1))
    } else if tag == 2 {
        Ok((VerificationTypeInfo::Float, i + 1))
    } else if tag == 5 {
        Ok((VerificationTypeInfo::Null, i + 1))
    } else if tag == 6 {
        Ok((VerificationTypeInfo::UninitializedThis, i + 1))
    } else if tag == 7 {
        if end - i >= 3 {
            Ok((VerificationTypeInfo::Object { cpool_index: be16e(s, i + 1) }, i + 3))
        } else {
            Err(Error::Truncated)
        }
    } else if tag == 8 {
        if end - i >= 3 {
            Ok((VerificationTypeInfo::Uninitialized { offset: be16e(s, i + 1) }, i + 3))
        } else {
            Err(Error::Truncated)
        }
    } else if tag == 4 {
        Ok((VerificationTypeInfo::Long, i + 1))
    } else if tag == 3 {
        Ok((VerificationTypeInfo::Double, i + 1))
    } else {
        Err(Error::BadTag { site: TagSite::VerificationType, value: tag })
    }
}

fn p_vti_list(s: &[u8], i: usize, end: usize, n: usize) -> (r: Result<
    (Vec<VerificationTypeInfo>, usize),
    Error,
>)
    requires
        i <= end,
        end <= s@.len(),
    ensures
        match r {
            Ok((v, j)) => sp_vti_list(s@, i as int, end as int, n as int) == Some((v@, j as int))
                && i <= j <= end,
            Err(e) => sp_vti_list(s@, i as int, end as int, n as int) is None && e != Error::Trailing,
        },
    decreases n,
{
    if n == 0 {
        let v: Vec<VerificationTypeInfo> = Vec::new();
        proof {
            assert(v@ =~= Seq::<VerificationTypeInfo>::empty());
        }
        return Ok((v, i));
    }
    if i >= s.len() {
        return Err(Error::Truncated);
    }
    match p_vti(s, i, end) {
        Ok((x, j)) => match p_vti_list(s, j, end, n - 1) {
            Ok((mut rest, k)) => {
                let ghost rest0 = rest@;
                let mut v: Vec<VerificationTypeInfo> = Vec::new();
                v.push(x);
                v.append(&mut rest);
                proof {
                    assert(v@ =~= seq![x] + rest0);
                    assert(v@.drop_first() =~= rest0);
                }
                Ok((v, k))
            },
            Err(e) => Err(e),
        },
        Err(e) => Err(e),
    }
}

fn p_stack_map_frame(s: &[u8], i: usize, end: usize) -> (r: Result<(StackMapFrame, usize), Error>)
    requires
        i <= end,
        end <= s@.len(),
    ensures
        match r {
            Ok((f, j)) => sp_stack_map_frame(s@, i as int, end as int) == Some(
                (frame_v(f), j as int),
            ) && i < j <= end,
            Err(e) => sp_stack_map_frame(s@, i as int, end as int) is None && e != Error::Trailing,
        },
{
    if !(end - i >= 1) {
        return Err(Error::Truncated);
    }
    let ft = s[i];
    if ft <= 63 {
        Ok((StackMapFrame { frame_type: ft, kind: StackMapFrameKind::Same }, i + 1))
    } else if ft <= 127 {
        match p_vti(s, i + 1, end) {
            Ok((v, j)) => Ok(
                (
                    StackMapFrame {
                        frame_type: ft,
                        kind: StackMapFrameKind::SameLocals1StackItem { stack: v },
                    },
                    j,
                ),
            ),
            Err(e) => Err(e),
        }
    } else if ft == 247 {
        if !(end - i >= 3) {
            return Err(Error::Truncated);
        }
        match p_vti(s, i + 3, end) {
            Ok((v, j)) => Ok(
                (
                    StackMapFrame {
                        frame_type: ft,
                        kind: StackMapFrameKind::SameLocals1StackItemExtended {
                            offset_delta: be16e(s, i + 1),
                            stack: v,
                        },
                    },
                    j,
                ),
            ),
            Err(e) => Err(e),
        }
    } else if 248 <= ft && ft <= 250 {
        if !(end - i >= 3) {
            return Err(Error::Truncated);
        }
        Ok(
            (
                StackMapFrame {
                    frame_type: ft,
                    kind: StackMapFrameKind::Chop { offset_delta: be16e(s, i + 1) },
                },
                i + 3,
            ),
        )
    } else if ft == 251 {
        if !(end - i >= 3) {
            return Err(Error::Truncated);
        }
        Ok(
            (
                StackMapFrame {
                    frame_type: ft,
                    kind: StackMapFrameKind::SameExtended { offset_delta: be16e(s, i + 1) },
                },
                i + 3,
            ),
        )
    } else if 252 <= ft && ft <= 254 {
        if !(end - i >= 3) {
            return Err(Error::Truncated);
        }
        match p_vti_list(s, i + 3, end, (ft - 251) as usize) {
            Ok((locals, j)) => {
                if !(i < j) {
                    return Err(Error::Truncated);
                }
                Ok(
                    (
                        StackMapFrame {
                            frame_type: ft,
                            kind: StackMapFrameKind::Append {
                                offset_delta: be16e(s, i + 1),
                                locals,
                            },
                        },
                        j,
                    ),
                )
            },
            Err(e) => Err(e),
        }
    } else if ft == 255 {
        if !(end - i >= 5) {
            return Err(Error::Truncated);
        }
        let number_of_locals = be16e(s, i + 3);
        match p_vti_list(s, i + 5, end, number_of_locals as usize) {
            Ok((locals, j)) => {
                if !(end - j >= 2 && i < j) {
                    return Err(Error::Truncated);
                }
                let number_of_stack_items = be16e(s, j);
                match p_vti_list(s, j + 2, end, number_of_stack_items as usize) {
                    Ok((stack, k)) => Ok(
                        (
                            StackMapFrame {
                                frame_type: ft,
                                kind: StackMapFrameKind::Full {
                                    offset_delta: be16e(s, i + 1),
                                    number_of_locals,
                                    locals,
                                    number_of_stack_items,
                                    stack,
                                },
                            },
                            k,
                        ),
                    ),
                    Err(e) => Err(e),
                }
            },
            Err(e) => Err(e),
        }
    } else {
        Err(Error::BadTag { site: TagSite::StackMapFrame, value: ft })
    }
}

fn p_stack_map_frames(s: &[u8], i: usize, end: usize, n: usize) -> (r: Result<
    (Vec<StackMapFrame>, usize),
    Error,
>)
    requires
        i <= end,
        end <= s@.len(),
    ensures
        match r {
            Ok((v, j)) => sp_stack_map_frames(s@, i as int, end as int, n as int) == Some(
                (frames_v(v@), j as int),
            ) && i <= j <= end,
            Err(e) => sp_stack_map_frames(s@, i as int, end as int, n as int) is None && e != Error::Trailing,
        },
    decreases n,
{
    if n == 0 {
        let v: Vec<StackMapFrame> = Vec::new();
        proof {
            assert(frames_v(v@) =~= Seq::<StackMapFrameV>::empty());
        }
        return Ok((v, i));
    }
    if i >= s.len() {
        return Err(Error::Truncated);
    }
    match p_stack_map_frame(s, i, end) {
        Ok((f, j)) => match p_stack_map_frames(s, j, end, n - 1) {
            Ok((mut rest, k)) => {
                let ghost rest0 = rest@;
                let ghost f0 = f;
                let mut v: Vec<StackMapFrame> = Vec::new();
                v.push(f);
                v.append(&mut rest);
                proof {
                    assert(v@ =~= seq![f0] + rest0);
                    assert(v@.drop_first() =~= rest0);
                    assert(frames_v(v@) =~= seq![frame_v(f0)] + frames_v(rest0));
                }
                Ok((v, k))
            },
            Err(e) => Err(e),
        },
        Err(e) => Err(e),
    }
}

fn p_bootstrap_method(s: &[u8], i: usize, end: usize) -> (r: Result<(BootstrapMethod, usize), Error>)
    requires
        i <= end,
        end <= s@.len(),
    ensures
        match r {
            Ok((b, j)) => sp_bootstrap_method(s@, i as int, end as int) == Some(
                (bootstrap_method_v(b), j as int),
            ) && i < j <= end,
            Err(e) => sp_bootstrap_method(s@, i as int, end as int) is None && e != Error::Trailing,
        },
{
    if !(end - i >= 4) {
        return Err(Error::Truncated);
    }
    let num = be16e(s, i + 2);
    match p_u16s(s, i + 4, end, num as usize) {
        Ok((args, j)) => Ok(
            (
                BootstrapMethod {
                    bootstrap_method_ref: be16e(s, i),
                    num_bootstrap_arguments: num,
                    bootstrap_arguments: args,
                },
                j,
            ),
        ),
        Err(e) => Err(e),
    }
}

fn p_bootstrap_methods(s: &[u8], i: usize, end: usize, n: usize) -> (r: Result<
    (Vec<BootstrapMethod>, usize),
    Error,
>)
    requires
        i <= end,
        end <= s@.len(),
    ensures
        match r {
            Ok((v, j)) => sp_bootstrap_methods(s@, i as int, end as int, n as int) == Some(
                (bootstrap_methods_v(v@), j as int),
            ) && i <= j <= end,
            Err(e) => sp_bootstrap_methods(s@, i as int, end as int, n as int) is None && e != Error::Trailing,
        },
    decreases n,
{
    if n == 0 {
        let v: Vec<BootstrapMethod> = Vec::new();
        proof {
            assert(bootstrap_methods_v(v@) =~= Seq::<BootstrapMethodV>::empty());
        }
        return Ok((v, i));
    }
    if i >= s.len() {
        return Err(Error::Truncated);
    }
    match p_bootstrap_method(s, i, end) {
        Ok((b, j)) => match p_bootstrap_methods(s, j, end, n - 1) {
            Ok((mut rest, k)) => {
                let ghost rest0 = rest@;
                let ghost b0 = b;
                let mut v: Vec<BootstrapMethod> = Vec::new();
                v.push(b);
                v.append(&mut rest);
                proof {
                    assert(v@ =~= seq![b0] + rest0);
                    assert(v@.drop_first() =~= rest0);
                    assert(bootstrap_methods_v(v@) =~= seq![bootstrap_method_v(b0)]
                        + bootstrap_methods_v(rest0));
                }
                Ok((v, k))
            },
            Err(e) => Err(e),
        },
        Err(e) => Err(e),
    }
}

fn p_inner_classes(s: &[u8], i: usize, end: usize, n: usize) -> (r: Result<
    (Vec<InnerClass>, usize),
    Error,
>)
    requires
        i <= end,
        end <= s@.len(),
    ensures
        match r {
            Ok((v, j)) => sp_inner_classes(s@, i as int, end as int, n as int) == Some(
                (v@, j as int),
            ) && i <= j <= end,
            Err(e) => sp_inner_classes(s@, i as int, end as int, n as int) is None && e != Error::Trailing,
        },
    decreases n,
{
    if n == 0 {
        let v: Vec<InnerClass> = Vec::new();
        proof {
            assert(v@ =~= Seq::<InnerClass>::empty());
        }
        return Ok((v, i));
    }
    if !(end - i >= 8) {
        return Err(Error::Truncated);
    }
    let e = InnerClass {
        inner_class_info_index: be16e(s, i),
        outer_class_info_index: be16e(s, i + 2),
        inner_name_index: be16e(s, i + 4),
        inner_class_access_flags: be16e(s, i + 6),
    };
    match p_inner_classes(s, i + 8, end, n - 1) {
        Ok((mut rest, k)) => {
            let ghost rest0 = rest@;
            let mut v: Vec<InnerClass> = Vec::new();
            v.push(e);
            v.append(&mut rest);
            proof {
                assert(v@ =~= seq![e] + rest0);
                    assert(v@.drop_first() =~= rest0);
            }
            Ok((v, k))
        },
        Err(er) => Err(er),
    }
}

fn p_line_number_table(s: &[u8], i: usize, end: usize, n: usize) -> (r: Result<
    (Vec<LineNumberTableEntry>, usize),
    Error,
>)
    requires
        i <= end,
        end <= s@.len(),
    ensures
        match r {
            Ok((v, j)) => sp_line_number_table(s@, i as int, end as int, n as int) == Some(
                (v@, j as int),
            ) && i <= j <= end,
            Err(e) => sp_line_number_table(s@, i as int, end as int, n as int) is None && e != Error::Trailing,
        },
    decreases n,
{
    if n == 0 {
        let v: Vec<LineNumberTableEntry> = Vec::new();
        proof {
            assert(v@ =~= Seq::<LineNumberTableEntry>::empty());
        }
        return Ok((v, i));
    }
    if !(end - i >= 4) {
        return Err(Error::Truncated);
    }
    let e = LineNumberTableEntry { start_pc: be16e(s, i), line_number: be16e(s, i + 2) };
    match p_line_number_table(s, i + 4, end, n - 1) {
        Ok((mut rest, k)) => {
            let ghost rest0 = rest@;
            let mut v: Vec<LineNumberTableEntry> = Vec::new();
            v.push(e);
            v.append(&mut rest);
            proof {
                assert(v@ =~= seq![e] + rest0);
                    assert(v@.drop_first() =~= rest0);
            }
            Ok((v, k))
        },
        Err(er) => Err(er),
    }
}

fn p_local_variable_table(s: &[u8], i: usize, end: usize, n: usize) -> (r: Result<
    (Vec<LocalVariableTableEntry>, usize),
    Error,
>)
    requires
        i <= end,
        end <= s@.len(),
    ensures
        match r {
            Ok((v, j)) => sp_local_variable_table(s@, i as int, end as int, n as int) == Some(
                (v@, j as int),
            ) && i <= j <= end,
            Err(e) => sp_local_variable_table(s@, i as int, end as int, n as int) is None && e != Error::Trailing,
        },
    decreases n,
{
    if n == 0 {
        let v: Vec<LocalVariableTableEntry> = Vec::new();
        proof {
            assert(v@ =~= Seq::<LocalVariableTableEntry>::empty());
        }
        return Ok((v, i));
    }
    if !(end - i >= 10) {
        return Err(Error::Truncated);
    }
    let e = LocalVariableTableEntry {
        start_pc: be16e(s, i),
        length: be16e(s, i + 2),
        name_index: be16e(s, i + 4),
        descriptor_index: be16e(s, i + 6),
        index: be16e(s, i + 8),
    };
    match p_local_variable_table(s, i + 10, end, n - 1) {
        Ok((mut rest, k)) => {
            let ghost rest0 = rest@;
            let mut v: Vec<LocalVariableTableEntry> = Vec::new();
            v.push(e);
            v.append(&mut rest);
            proof {
                assert(v@ =~= seq![e] + rest0);
                    assert(v@.drop_first() =~= rest0);
            }
            Ok((v, k))
        },
        Err(er) => Err(er),
    }
}

fn p_local_variable_type_table(s: &[u8], i: usize, end: usize, n: usize) -> (r: Result<
    (Vec<LocalVariableTypeTableEntry>, usize),
    Error,
>)
    requires
        i <= end,
        end <= s@.len(),
    ensures
        match r {
            Ok((v, j)) => sp_local_variable_type_table(s@, i as int, end as int, n as int) == Some(
                (v@, j as int),
            ) && i <= j <= end,
            Err(e) => sp_local_variable_type_table(s@, i as int, end as int, n as int) is None && e != Error::Trailing,
        },
    decreases n,
{
    if n == 0 {
        let v: Vec<LocalVariableTypeTableEntry> = Vec::new();
        proof {
            assert(v@ =~= Seq::<LocalVariableTypeTableEntry>::empty());
        }
        return Ok((v, i));
    }
    if !(end - i >= 10) {
        return Err(Error::Truncated);
    }
    let e = LocalVariableTypeTableEntry {
        start_pc: be16e(s, i),
        length: be16e(s, i + 2),
        name_index: be16e(s, i + 4),
        signature_index: be16e(s, i + 6),
        index: be16e(s, i + 8),
    };
    match p_local_variable_type_table(s, i + 10, end, n - 1) {
        Ok((mut rest, k)) => {
            let ghost rest0 = rest@;
            let mut v: Vec<LocalVariableTypeTableEntry> = Vec::new();
            v.push(e);
            v.append(&mut rest);
            proof {
                assert(v@ =~= seq![e] + rest0);
                    assert(v@.drop_first() =~= rest0);
            }
            Ok((v, k))
        },
        Err(er) => Err(er),
    }
}

fn p_method_parameters(s: &[u8], i: usize, end: usize, n: usize) -> (r: Result<
    (Vec<Parameter>, usize),
    Error,
>)
    requires
        i <= end,
        end <= s@.len(),
    ensures
        match r {
            Ok((v, j)) => sp_method_parameters(s@, i as int, end as int, n as int) == Some(
                (v@, j as int),
            ) && i <= j <= end,
            Err(e) => sp_method_parameters(s@, i as int, end as int, n as int) is None && e != Error::Trailing,
        },
    decreases n,
{
    if n == 0 {
        let v: Vec<Parameter> = Vec::new();
        proof {
            assert(v@ =~= Seq::<Parameter>::empty());
        }
        return Ok((v, i));
    }
    if !(end - i >= 4) {
        return Err(Error::Truncated);
    }
    let e = Parameter { name_index: be16e(s, i), access_flags: be16e(s, i + 2) };
    match p_method_parameters(s, i + 4, end, n - 1) {
        Ok((mut rest, k)) => {
            let ghost rest0 = rest@;
            let mut v: Vec<Parameter> = Vec::new();
            v.push(e);
            v.append(&mut rest);
            proof {
                assert(v@ =~= seq![e] + rest0);
                    assert(v@.drop_first() =~= rest0);
            }
            Ok((v, k))
        },
        Err(er) => Err(er),
    }
}

fn p_localvar_targets(s: &[u8], i: usize, end: usize, n: usize) -> (r: Result<
    (Vec<LocalVarTarget>, usize),
    Error,
>)
    requires
        i <= end,
        end <= s@.len(),
    ensures
        match r {
            Ok((v, j)) => sp_localvar_targets(s@, i as int, end as int, n as int) == Some(
                (v@, j as int),
            ) && i <= j <= end,
            Err(e) => sp_localvar_targets(s@, i as int, end as int, n as int) is None && e != Error::Trailing,
        },
    decreases n,
{
    if n == 0 {
        let v: Vec<LocalVarTarget> = Vec::new();
        proof {
            assert(v@ =~= Seq::<LocalVarTarget>::empty());
        }
        return Ok((v, i));
    }
    if !(end - i >= 6) {
        return Err(Error::Truncated);
    }
    let e = LocalVarTarget { start_pc: be16e(s, i), length: be16e(s, i + 2), index: be16e(s, i + 4) };
    match p_localvar_targets(s, i + 6, end, n - 1) {
        Ok((mut rest, k)) => {
            let ghost rest0 = rest@;
            let mut v: Vec<LocalVarTarget> = Vec::new();
            v.push(e);
            v.append(&mut rest);
            proof {
                assert(v@ =~= seq![e] + rest0);
                    assert(v@.drop_first() =~= rest0);
            }
            Ok((v, k))
        },
        Err(er) => Err(er),
    }
}

fn p_paths(s: &[u8], i: usize, end: usize, n: usize) -> (r: Result<(Vec<Path>, usize), Error>)
    requires
        i <= end,
        end <= s@.len(),
    ensures
        match r {
            Ok((v, j)) => sp_paths(s@, i as int, end as int, n as int) == Some((v@, j as int)) && i
                <= j <= end,
            Err(e) => sp_paths(s@, i as int, end as int, n as int) is None && e != Error::Trailing,
        },
    decreases n,
{
    if n == 0 {
        let v: Vec<Path> = Vec::new();
        proof {
            assert(v@ =~= Seq::<Path>::empty());
        }
        return Ok((v, i));
    }
    if !(end - i >= 2) {
        return Err(Error::Truncated);
    }
    let e = Path { type_path_kind: s[i], type_argument_index: s[i + 1] };
    match p_paths(s, i + 2, end, n - 1) {
        Ok((mut rest, k)) => {
            let ghost rest0 = rest@;
            let mut v: Vec<Path> = Vec::new();
            v.push(e);
            v.append(&mut rest);
            proof {
                assert(v@ =~= seq![e] + rest0);
                    assert(v@.drop_first() =~= rest0);
            }
            Ok((v, k))
        },
        Err(er) => Err(er),
    }
}

fn p_type_path(s: &[u8], i: usize, end: usize) -> (r: Result<(TypePath, usize), Error>)
    requires
        i <= end,
        end <= s@.len(),
    ensures
        match r {
            Ok((t, j)) => sp_type_path(s@, i as int, end as int) == Some(
                (type_path_v(t), j as int),
            ) && i < j <= end,
            Err(e) => sp_type_path(s@, i as int, end as int) is None && e != Error::Trailing,
        },
{
    if !(end - i >= 1) {
        return Err(Error::Truncated);
    }
    let n = s[i];
    match p_paths(s, i + 1, end, n as usize) {
        Ok((path, j)) => Ok((TypePath { path_length: n, path }, j)),
        Err(e) => Err(e),
    }
}

fn p_target_info(s: &[u8], i: usize, end: usize, tt: u8) -> (r: Result<
    (TargetInfoKind, usize),
    Error,
>)
    requires
        i <= end,
        end <= s@.len(),
    ensures
        match r {
            Ok((t, j)) => sp_target_info(s@, i as int, end as int, tt) == Some(
                (target_info_kind_v(t), j as int),
            ) && i <= j <= end,
            Err(e) => sp_target_info(s@, i as int, end as int, tt) is None && e != Error::Trailing,
        },
{
    if tt == 0x00 || tt == 0x01 {
        if end - i >= 1 {
            Ok((TargetInfoKind::TypeParameter { type_parameter_index: s[i] }, i + 1))
        } else {
            Err(Error::Truncated)
        }
    } else if tt == 0x10 {
        if end - i >= 2 {
            Ok((TargetInfoKind::SuperType { super_type_index: be16e(s, i) }, i + 2))
        } else {
            Err(Error::Truncated)
        }
    } else if tt == 0x11 || tt == 0x12 {
        if end - i >= 2 {
            Ok(
                (
                    TargetInfoKind::TypeParameterBound {
                        type_parameter_index: s[i],
                        bound_index: s[i + 1],
                    },
                    i + 2,
                ),
            )
        } else {
            Err(Error::Truncated)
        }
    } else if tt == 0x13 || tt == 0x14 || tt == 0x15 {
        Ok((TargetInfoKind::Empty, i))
    } else if tt == 0x16 {
        if end - i >= 1 {
            Ok((TargetInfoKind::FormalParameter { formal_parameter_index: s[i] }, i + 1))
        } else {
            Err(Error::Truncated)
        }
    } else if tt == 0x17 {
        if end - i >= 2 {
            Ok((TargetInfoKind::Throws { throws_type_index: be16e(s, i) }, i + 2))
        } else {
            Err(Error::Truncated)
        }
    } else if tt == 0x40 || tt == 0x41 {
        if end - i >= 2 {
            let n = be16e(s, i);
            match p_localvar_targets(s, i + 2, end, n as usize) {
                Ok((table, j)) => Ok((TargetInfoKind::LocalVar { table_length: n, table }, j)),
                Err(e) => Err(e),
            }
        } else {
            Err(Error::Truncated)
        }
    } else if tt == 0x42 {
        if end - i >= 2 {
            Ok((TargetInfoKind::Catch { exception_table_index: be16e(s, i) }, i + 2))
        } else {
            Err(Error::Truncated)
        }
    } else if tt == 0x43 || tt == 0x44 || tt == 0x45 || tt == 0x46 {
        if end - i >= 2 {
            Ok((TargetInfoKind::Offset { offset: be16e(s, i) }, i + 2))
        } else {
            Err(Error::Truncated)
        }
    } else if tt == 0x47 || tt == 0x48 || tt == 0x49 || tt == 0x4A || tt == 0x4B {
        if end - i >= 3 {
            Ok(
                (
                    TargetInfoKind::TypeArgument { offset: be16e(s, i), type_argument_index: s[i + 2] },
                    i + 3,
                ),
            )
        } else {
            Err(Error::Truncated)
        }
    } else {
        Err(Error::BadTag { site: TagSite::TargetType, value: tt })
    }
}

fn p_requires_list(s: &[u8], i: usize, end: usize, n: usize) -> (r: Result<
    (Vec<ModuleRequires>, usize),
    Error,
>)
    requires
        i <= end,
        end <= s@.len(),
    ensures
        match r {
            Ok((v, j)) => sp_requires_list(s@, i as int, end as int, n as int) == Some(
                (v@, j as int),
            ) && i <= j <= end,
            Err(e) => sp_requires_list(s@, i as int, end as int, n as int) is None && e != Error::Trailing,
        },
    decreases n,
{
    if n == 0 {
        let v: Vec<ModuleRequires> = Vec::new();
        proof {
            assert(v@ =~= Seq::<ModuleRequires>::empty());
        }
        return Ok((v, i));
    }
    if !(end - i >= 6) {
        return Err(Error::Truncated);
    }
    let e = ModuleRequires {
        requires_index: be16e(s, i),
        requires_flags: be16e(s, i + 2),
        requires_version_index: be16e(s, i + 4),
    };
    match p_requires_list(s, i + 6, end, n - 1) {
        Ok((mut rest, k)) => {
            let ghost rest0 = rest@;
            let mut v: Vec<ModuleRequires> = Vec::new();
            v.push(e);
            v.append(&mut rest);
            proof {
                assert(v@ =~= seq![e] + rest0);
                    assert(v@.drop_first() =~= rest0);
            }
            Ok((v, k))
        },
        Err(er) => Err(er),
    }
}

fn p_exports_info(s: &[u8], i: usize, end: usize) -> (r: Result<(ModuleExports, usize), Error>)
    requires
        i <= end,
        end <= s@.len(),
    ensures
        match r {
            Ok((e, j)) => sp_exports_info(s@, i as int, end as int) == Some(
                (module_exports_v(e), j as int),
            ) && i < j <= end,
            Err(e) => sp_exports_info(s@, i as int, end as int) is None && e != Error::Trailing,
        },
{
    if !(end - i >= 6) {
        return Err(Error::Truncated);
    }
    let cnt = be16e(s, i + 4);
    match p_u16s(s, i + 6, end, cnt as usize) {
        Ok((to, j)) => Ok(
            (
                ModuleExports {
                    exports_index: be16e(s, i),
                    exports_flags: be16e(s, i + 2),
                    exports_to_count: cnt,
                    exports_to_index: to,
                },
                j,
            ),
        ),
        Err(e) => Err(e),
    }
}

fn p_exports_list(s: &[u8], i: usize, end: usize, n: usize) -> (r: Result<
    (Vec<ModuleExports>, usize),
    Error,
>)
    requires
        i <= end,
        end <= s@.len(),
    ensures
        match r {
            Ok((v, j)) => sp_exports_list(s@, i as int, end as int, n as int) == Some(
                (module_exports_list_v(v@), j as int),
            ) && i <= j <= end,
            Err(e) => sp_exports_list(s@, i as int, end as int, n as int) is None && e != Error::Trailing,
        },
    decreases n,
{
    if n == 0 {
        let v: Vec<ModuleExports> = Vec::new();
        proof {
            assert(module_exports_list_v(v@) =~= Seq::<ModuleExportsV>::empty());
        }
        return Ok((v, i));
    }
    if i >= s.len() {
        return Err(Error::Truncated);
    }
    match p_exports_info(s, i, end) {
        Ok((e, j)) => match p_exports_list(s, j, end, n - 1) {
            Ok((mut rest, k)) => {
                let ghost rest0 = rest@;
                let ghost e0 = e;
                let mut v: Vec<ModuleExports> = Vec::new();
                v.push(e);
                v.append(&mut rest);
                proof {
                    assert(v@ =~= seq![e0] + rest0);
                    assert(v@.drop_first() =~= rest0);
                    assert(module_exports_list_v(v@) =~= seq![module_exports_v(e0)]
                        + module_exports_list_v(rest0));
                }
                Ok((v, k))
            },
            Err(er) => Err(er),
        },
        Err(er) => Err(er),
    }
}

fn p_opens_info(s: &[u8], i: usize, end: usize) -> (r: Result<(ModuleOpens, usize), Error>)
    requires
        i <= end,
        end <= s@.len(),
    ensures
        match r {
            Ok((e, j)) => sp_opens_info(s@, i as int, end as int) == Some(
                (module_opens_v(e), j as int),
            ) && i < j <= end,
            Err(e) => sp_opens_info(s@, i as int, end as int) is None && e != Error::Trailing,
        },
{
    if !(end - i >= 6) {
        return Err(Error::Truncated);
    }
    let cnt = be16e(s, i + 4);
    match p_u16s(s, i + 6, end, cnt as usize) {
        Ok((to, j)) => Ok(
            (
                ModuleOpens {
                    opens_index: be16e(s, i),
                    opens_flags: be16e(s, i + 2),
                    opens_to_count: cnt,
                    opens_to_index: to,
                },
                j,
            ),
        ),
        Err(e) => Err(e),
    }
}

fn p_opens_list(s: &[u8], i: usize, end: usize, n: usize) -> (r: Result<
    (Vec<ModuleOpens>, usize),
    Error,
>)
    requires
        i <= end,
        end <= s@.len(),
    ensures
        match r {
            Ok((v, j)) => sp_opens_list(s@, i as int, end as int, n as int) == Some(
                (module_opens_list_v(v@), j as int),
            ) && i <= j <= end,
            Err(e) => sp_opens_list(s@, i as int, end as int, n as int) is None && e != Error::Trailing,
        },
    decreases n,
{
    if n == 0 {
        let v: Vec<ModuleOpens> = Vec::new();
        proof {
            assert(module_opens_list_v(v@) =~= Seq::<ModuleOpensV>::empty());
        }
        return Ok((v, i));
    }
    if i >= s.len() {
        return Err(Error::Truncated);
    }
    match p_opens_info(s, i, end) {
        Ok((e, j)) => match p_opens_list(s, j, end, n - 1) {
            Ok((mut rest, k)) => {
                let ghost rest0 = rest@;
                let ghost e0 = e;
                let mut v: Vec<ModuleOpens> = Vec::new();
                v.push(e);
                v.append(&mut rest);
                proof {
                    assert(v@ =~= seq![e0] + rest0);
                    assert(v@.drop_first() =~= rest0);
                    assert(module_opens_list_v(v@) =~= seq![module_opens_v(e0)]
                        + module_opens_list_v(rest0));
                }
                Ok((v, k))
            },
            Err(er) => Err(er),
        },
        Err(er) => Err(er),
    }
}

fn p_provides_info(s: &[u8], i: usize, end: usize) -> (r: Result<(ModuleProvides, usize), Error>)
    requires
        i <= end,
        end <= s@.len(),
    ensures
        match r {
            Ok((e, j)) => sp_provides_info(s@, i as int, end as int) == Some(
                (module_provides_v(e), j as int),
            ) && i < j <= end,
            Err(e) => sp_provides_info(s@, i as int, end as int) is None && e != Error::Trailing,
        },
{
    if !(end - i >= 4) {
        return Err(Error::Truncated);
    }
    let cnt = be16e(s, i + 2);
    match p_u16s(s, i + 4, end, cnt as usize) {
        Ok((with, j)) => Ok(
            (
                ModuleProvides {
                    provides_index: be16e(s, i),
                    provides_with_count: cnt,
                    provides_with_index: with,
                },
                j,
            ),
        ),
        Err(e) => Err(e),
    }
}

fn p_provides_list(s: &[u8], i: usize, end: usize, n: usize) -> (r: Result<
    (Vec<ModuleProvides>, usize),
    Error,
>)
    requires
        i <= end,
        end <= s@.len(),
    ensures
        match r {
            Ok((v, j)) => sp_provides_list(s@, i as int, end as int, n as int) == Some(
                (module_provides_list_v(v@), j as int),
            ) && i <= j <= end,
            Err(e) => sp_provides_list(s@, i as int, end as int, n as int) is None && e != Error::Trailing,
        },
    decreases n,
{
    if n == 0 {
        let v: Vec<ModuleProvides> = Vec::new();
        proof {
            assert(module_provides_list_v(v@) =~= Seq::<ModuleProvidesV>::empty());
        }
        return Ok((v, i));
    }
    if i >= s.len() {
        return Err(Error::Truncated);
    }
    match p_provides_info(s, i, end) {
        Ok((e, j)) => match p_provides_list(s, j, end, n - 1) {
            Ok((mut rest, k)) => {
                let ghost rest0 = rest@;
                let ghost e0 = e;
                let mut v: Vec<ModuleProvides> = Vec::new();
                v.push(e);
                v.append(&mut rest);
                proof {
                    assert(v@ =~= seq![e0] + rest0);
                    assert(v@.drop_first() =~= rest0);
                    assert(module_provides_list_v(v@) =~= seq![module_provides_v(e0)]
                        + module_provides_list_v(rest0));
                }
                Ok((v, k))
            },
            Err(er) => Err(er),
        },
        Err(er) => Err(er),
    }
}


/// String comparison against an attribute-name literal.
pub(crate) fn str_is(a: &String, b: &str) -> (r: bool)
    ensures
        r == (a@ == b@),
{
    *a == b.to_owned()
}

fn p_element_value(s: &[u8], i: usize, end: usize) -> (r: Result<(ElementValue, usize), Error>)
    requires
        i <= end,
        end <= s@.len(),
    ensures
        match r {
            Ok((v, j)) => sp_element_value(s@, i as int, end as int) == Some(
                (element_value_v(v), j as int),
            ) && i < j <= end,
            Err(e) => sp_element_value(s@, i as int, end as int) is None && e != Error::Trailing,
        },
    decreases end - i, 0int,
{
    if !(end - i >= 1) {
        return Err(Error::Truncated);
    }
    let tag = s[i];
    if tag == 66u8 {
        if end - i >= 3 {
            Ok((ElementValue::Byte { const_value_index: be16e(s, i + 1) }, i + 3))
        } else {
            Err(Error::Truncated)
        }
    } else if tag == 67u8 {
        if end - i >= 3 {
            Ok((ElementValue::Char { const_value_index: be16e(s, i + 1) }, i + 3))
        } else {
            Err(Error::Truncated)
        }
    } else if tag == 68u8 {
        if end - i >= 3 {
            Ok((ElementValue::Double { const_value_index: be16e(s, i + 1) }, i + 3))
        } else {
            Err(Error::Truncated)
        }
    } else if tag == 70u8 {
        if end - i >= 3 {
            Ok((ElementValue::Float { const_value_index: be16e(s, i + 1) }, i + 3))
        } else {
            Err(Error::Truncated)
        }
    } else if tag == 73u8 {
        if end - i >= 3 {
            Ok((ElementValue::Int { const_value_index: be16e(s, i + 1) }, i + 3))
        } else {
            Err(Error::Truncated)
        }
    } else if tag == 74u8 {
        if end - i >= 3 {
            Ok((ElementValue::Long { const_value_index: be16e(s, i + 1) }, i + 3))
        } else {
            Err(Error::Truncated)
        }
    } else if tag == 83u8 {
        if end - i >= 3 {
            Ok((ElementValue::Short { const_value_index: be16e(s, i + 1) }, i + 3))
        } else {
            Err(Error::Truncated)
        }
    } else if tag == 90u8 {
        if end - i >= 3 {
            Ok((ElementValue::Boolean { const_value_index: be16e(s, i + 1) }, i + 3))
        } else {
            Err(Error::Truncated)
        }
    } else if tag == 115u8 {
        if end - i >= 3 {
            Ok((ElementValue::String { const_value_index: be16e(s, i + 1) }, i + 3))
        } else {
            Err(Error::Truncated)
        }
    } else if tag == 101u8 {
        if end - i >= 5 {
            Ok(
                (
                    ElementValue::EnumConst {
                        type_name_index: be16e(s, i + 1),
                        const_name_index: be16e(s, i + 3),
                    },
                    i + 5,
                ),
            )
        } else {
            Err(Error::Truncated)
        }
    } else if tag == 99u8 {
        if end - i >= 3 {
            Ok((ElementValue::ClassInfoIndex { class_info_index: be16e(s, i + 1) }, i + 3))
        } else {
            Err(Error::Truncated)
        }
    } else if tag == 64u8 {
        match p_annotation(s, i + 1, end) {
            Ok((a, j)) => Ok((ElementValue::AnnotationValue { annotation: a }, j)),
            Err(e) => Err(e),
        }
    } else if tag == 91u8 {
        if end - i >= 3 {
            let num = be16e(s, i + 1);
            match p_element_values(s, i + 3, end, num as usize) {
                Ok((vals, j)) => Ok(
                    (ElementValue::ArrayValue { num_values: num, values: vals }, j),
                ),
                Err(e) => Err(e),
            }
        } else {
            Err(Error::Truncated)
        }
    } else {
        Err(Error::BadTag { site: TagSite::ElementValue, value: tag })
    }
}

fn p_element_values(s: &[u8], i: usize, end: usize, n: usize) -> (r: Result<
    (Vec<ElementValue>, usize),
    Error,
>)
    requires
        i <= end,
        end <= s@.len(),
    ensures
        match r {
            Ok((v, j)) => sp_element_values(s@, i as int, end as int, n as int) == Some(
                (element_values_v(v@), j as int),
            ) && i <= j <= end,
            Err(e) => sp_element_values(s@, i as int, end as int, n as int) is None && e != Error::Trailing,
        },
    decreases end - i, 2int, n,
{
    if n == 0 {
        let v: Vec<ElementValue> = Vec::new();
        proof {
            assert(element_values_v(v@) =~= Seq::<ElementValueV>::empty());
        }
        return Ok((v, i));
    }
    if i >= s.len() {
        return Err(Error::Truncated);
    }
    match p_element_value(s, i, end) {
        Ok((x, j)) => match p_element_values(s, j, end, n - 1) {
            Ok((mut rest, k)) => {
                let ghost rest0 = rest@;
                let ghost x0 = x;
                let mut v: Vec<ElementValue> = Vec::new();
                v.push(x);
                v.append(&mut rest);
                proof {
                    assert(v@ =~= seq![x0] + rest0);
                    assert(v@.drop_first() =~= rest0);
                    assert(element_values_v(v@) =~= seq![element_value_v(x0)] + element_values_v(
                        rest0,
                    ));
                }
                Ok((v, k))
            },
            Err(e) => Err(e),
        },
        Err(e) => Err(e),
    }
}

fn p_ev_pair(s: &[u8], i: usize, end: usize) -> (r: Result<(ElementValuePair, usize), Error>)
    requires
        i <= end,
        end <= s@.len(),
    ensures
        match r {
            Ok((p, j)) => sp_ev_pair(s@, i as int, end as int) == Some((ev_pair_v(p), j as int))
                && i < j <= end,
            Err(e) => sp_ev_pair(s@, i as int, end as int) is None && e != Error::Trailing,
        },
    decreases end - i, 1int,
{
    if !(end - i >= 2) {
        return Err(Error::Truncated);
    }
    match p_element_value(s, i + 2, end) {
        Ok((v, j)) => Ok((ElementValuePair { element_name_index: be16e(s, i), value: v }, j)),
        Err(e) => Err(e),
    }
}

fn p_ev_pairs(s: &[u8], i: usize, end: usize, n: usize) -> (r: Result<
    (Vec<ElementValuePair>, usize),
    Error,
>)
    requires
        i <= end,
        end <= s@.len(),
    ensures
        match r {
            Ok((v, j)) => sp_ev_pairs(s@, i as int, end as int, n as int) == Some(
                (ev_pairs_v(v@), j as int),
            ) && i <= j <= end,
            Err(e) => sp_ev_pairs(s@, i as int, end as int, n as int) is None && e != Error::Trailing,
        },
    decreases end - i, 2int, n,
{
    if n == 0 {
        let v: Vec<ElementValuePair> = Vec::new();
        proof {
            assert(ev_pairs_v(v@) =~= Seq::<ElementValuePairV>::empty());
        }
        return Ok((v, i));
    }
    if i >= s.len() {
        return Err(Error::Truncated);
    }
    match p_ev_pair(s, i, end) {
        Ok((x, j)) => match p_ev_pairs(s, j, end, n - 1) {
            Ok((mut rest, k)) => {
                let ghost rest0 = rest@;
                let ghost x0 = x;
                let mut v: Vec<ElementValuePair> = Vec::new();
                v.push(x);
                v.append(&mut rest);
                proof {
                    assert(v@ =~= seq![x0] + rest0);
                    assert(v@.drop_first() =~= rest0);
                    assert(ev_pairs_v(v@) =~= seq![ev_pair_v(x0)] + ev_pairs_v(rest0));
                }
                Ok((v, k))
            },
            Err(e) => Err(e),
        },
        Err(e) => Err(e),
    }
}

fn p_annotation(s: &[u8], i: usize, end: usize) -> (r: Result<(Annotation, usize), Error>)
    requires
        i <= end,
        end <= s@.len(),
    ensures
        match r {
            Ok((a, j)) => sp_annotation(s@, i as int, end as int) == Some(
                (annotation_v(a), j as int),
            ) && i < j <= end,
            Err(e) => sp_annotation(s@, i as int, end as int) is None && e != Error::Trailing,
        },
    decreases end - i, 1int,
{
    if !(end - i >= 4) {
        return Err(Error::Truncated);
    }
    let ti = be16e(s, i);
    let n = be16e(s, i + 2);
    match p_ev_pairs(s, i + 4, end, n as usize) {
        Ok((pairs, j)) => Ok(
            (
                Annotation {
                    type_index: ti,
                    num_element_value_pairs: n,
                    element_value_pairs: pairs,
                },
                j,
            ),
        ),
        Err(e) => Err(e),
    }
}

fn p_annotations(s: &[u8], i: usize, end: usize, n: usize) -> (r: Result<
    (Vec<Annotation>, usize),
    Error,
>)
    requires
        i <= end,
        end <= s@.len(),
    ensures
        match r {
            Ok((v, j)) => sp_annotations(s@, i as int, end as int, n as int) == Some(
                (annotations_v(v@), j as int),
            ) && i <= j <= end,
            Err(e) => sp_annotations(s@, i as int, end as int, n as int) is None && e != Error::Trailing,
        },
    decreases end - i, 2int, n,
{
    if n == 0 {
        let v: Vec<Annotation> = Vec::new();
        proof {
            assert(annotations_v(v@) =~= Seq::<AnnotationV>::empty());
        }
        return Ok((v, i));
    }
    if i >= s.len() {
        return Err(Error::Truncated);
    }
    match p_annotation(s, i, end) {
        Ok((x, j)) => match p_annotations(s, j, end, n - 1) {
            Ok((mut rest, k)) => {
                let ghost rest0 = rest@;
                let ghost x0 = x;
                let mut v: Vec<Annotation> = Vec::new();
                v.push(x);
                v.append(&mut rest);
                proof {
                    assert(v@ =~= seq![x0] + rest0);
                    assert(v@.drop_first() =~= rest0);
                    assert(annotations_v(v@) =~= seq![annotation_v(x0)] + annotations_v(rest0));
                }
                Ok((v, k))
            },
            Err(e) => Err(e),
        },
        Err(e) => Err(e),
    }
}

fn p_param_annotation(s: &[u8], i: usize, end: usize) -> (r: Result<
    (ParameterAnnotation, usize),
    Error,
>)
    requires
        i <= end,
        end <= s@.len(),
    ensures
        match r {
            Ok((p, j)) => sp_param_annotation(s@, i as int, end as int) == Some(
                (param_annotation_v(p), j as int),
            ) && i < j <= end,
            Err(e) => sp_param_annotation(s@, i as int, end as int) is None && e != Error::Trailing,
        },
    decreases end - i, 1int,
{
    if !(end - i >= 2) {
        return Err(Error::Truncated);
    }
    let n = be16e(s, i);
    match p_annotations(s, i + 2, end, n as usize) {
        Ok((anns, j)) => Ok((ParameterAnnotation { num_annotations: n, annotations: anns }, j)),
        Err(e) => Err(e),
    }
}

fn p_param_annotations(s: &[u8], i: usize, end: usize, n: usize) -> (r: Result<
    (Vec<ParameterAnnotation>, usize),
    Error,
>)
    requires
        i <= end,
        end <= s@.len(),
    ensures
        match r {
            Ok((v, j)) => sp_param_annotations(s@, i as int, end as int, n as int) == Some(
                (param_annotations_v(v@), j as int),
            ) && i <= j <= end,
            Err(e) => sp_param_annotations(s@, i as int, end as int, n as int) is None && e != Error::Trailing,
        },
    decreases end - i, 2int, n,
{
    if n == 0 {
        let v: Vec<ParameterAnnotation> = Vec::new();
        proof {
            assert(param_annotations_v(v@) =~= Seq::<ParameterAnnotationV>::empty());
        }
        return Ok((v, i));
    }
    if i >= s.len() {
        return Err(Error::Truncated);
    }
    match p_param_annotation(s, i, end) {
        Ok((x, j)) => match p_param_annotations(s, j, end, n - 1) {
            Ok((mut rest, k)) => {
                let ghost rest0 = rest@;
                let ghost x0 = x;
                let mut v: Vec<ParameterAnnotation> = Vec::new();
                v.push(x);
                v.append(&mut rest);
                proof {
                    assert(v@ =~= seq![x0] + rest0);
                    assert(v@.drop_first() =~= rest0);
                    assert(param_annotations_v(v@) =~= seq![param_annotation_v(x0)]
                        + param_annotations_v(rest0));
                }
                Ok((v, k))
            },
            Err(e) => Err(e),
        },
        Err(e) => Err(e),
    }
}

fn p_type_annotation(s: &[u8], i: usize, end: usize) -> (r: Result<(TypeAnnotation, usize), Error>)
    requires
        i <= end,
        end <= s@.len(),
    ensures
        match r {
            Ok((t, j)) => sp_type_annotation(s@, i as int, end as int) == Some(
                (type_annotation_v(t), j as int),
            ) && i < j <= end,
            Err(e) => sp_type_annotation(s@, i as int, end as int) is None && e != Error::Trailing,
        },
    decreases end - i, 1int,
{
    if !(end - i >= 1) {
        return Err(Error::Truncated);
    }
    let tt = s[i];
    match p_target_info(s, i + 1, end, tt) {
        Ok((tik, p)) => match p_type_path(s, p, end) {
            Ok((tp, q)) => {
                if !(end - q >= 4) {
                    return Err(Error::Truncated);
                }
                let ti = be16e(s, q);
                let n = be16e(s, q + 2);
                match p_ev_pairs(s, q + 4, end, n as usize) {
                    Ok((pairs, j)) => Ok(
                        (
                            TypeAnnotation {
                                target_type: tt,
                                target_info: TargetInfo { target_type: tt, target_info_kind: tik },
                                target_path: tp,
                                type_index: ti,
                                num_element_value_pairs: n,
                                element_value_pairs: pairs,
                            },
                            j,
                        ),
                    ),
                    Err(e) => Err(e),
                }
            },
            Err(e) => Err(e),
        },
        Err(e) => Err(e),
    }
}

fn p_type_annotations(s: &[u8], i: usize, end: usize, n: usize) -> (r: Result<
    (Vec<TypeAnnotation>, usize),
    Error,
>)
    requires
        i <= end,
        end <= s@.len(),
    ensures
        match r {
            Ok((v, j)) => sp_type_annotations(s@, i as int, end as int, n as int) == Some(
                (type_annotations_v(v@), j as int),
            ) && i <= j <= end,
            Err(e) => sp_type_annotations(s@, i as int, end as int, n as int) is None && e != Error::Trailing,
        },
    decreases end - i, 2int, n,
{
    if n == 0 {
        let v: Vec<TypeAnnotation> = Vec::new();
        proof {
            assert(type_annotations_v(v@) =~= Seq::<TypeAnnotationV>::empty());
        }
        return Ok((v, i));
    }
    if i >= s.len() {
        return Err(Error::Truncated);
    }
    match p_type_annotation(s, i, end) {
        Ok((x, j)) => match p_type_annotations(s, j, end, n - 1) {
            Ok((mut rest, k)) => {
                let ghost rest0 = rest@;
                let ghost x0 = x;
                let mut v: Vec<TypeAnnotation> = Vec::new();
                v.push(x);
                v.append(&mut rest);
                proof {
                    assert(v@ =~= seq![x0] + rest0);
                    assert(v@.drop_first() =~= rest0);
                    assert(type_annotations_v(v@) =~= seq![type_annotation_v(x0)]
                        + type_annotations_v(rest0));
                }
                Ok((v, k))
            },
            Err(e) => Err(e),
        },
        Err(e) => Err(e),
    }
}

/// Decode a recognized attribute payload at `[i, end)` by its resolved name.
#[verifier::rlimit(100)]
fn p_attribute_kind(
    s: &[u8],
    i: usize,
    end: usize,
    name: &String,
    pool: &Vec<Option<ConstantPoolInfo>>,
) -> (r: Result<AttributeKind, Error>)
    requires
        i <= end,
        end <= s@.len(),
    ensures
        match r {
            Ok(k) => sp_attribute_kind(s@, i as int, end as int, name@, cp_slots_v(pool@)) == Some(
                attribute_kind_v(k),
            ),
            Err(e) => sp_attribute_kind(s@, i as int, end as int, name@, cp_slots_v(pool@))
                is None && e != Error::Trailing,
        },
    decreases end - i, 1int,
{
    if str_is(name, "ConstantValue") {
        if end - i >= 2 {
            Ok(AttributeKind::ConstantValue { constant_value_index: be16e(s, i) })
        } else {
            Err(Error::Truncated)
        }
    } else if str_is(name, "Code") {
        if !(end - i >= 8) {
            return Err(Error::Truncated);
        }
        let code_length = be32e(s, i + 4);
        if !(code_length as usize <= end - (i + 8)) {
            return Err(Error::Truncated);
        }
        let p = i + 8 + code_length as usize;
        let code = vstd::slice::slice_to_vec(&s[i + 8..p]);
        if !(end - p >= 2) {
            return Err(Error::Truncated);
        }
        let etl = be16e(s, p);
        match p_exception_table(s, p + 2, end, etl as usize) {
            Ok((et, q)) => {
                if !(end - q >= 2) {
                    return Err(Error::Truncated);
                }
                let ac = be16e(s, q);
                match p_attrs(s, q + 2, end, ac as usize, pool) {
                    Ok((ats, _)) => Ok(
                        AttributeKind::Code {
                            max_stack: be16e(s, i),
                            max_locals: be16e(s, i + 2),
                            code_length,
                            code,
                            exception_table_length: etl,
                            exception_table: et,
                            attributes_count: ac,
                            attributes: ats,
                        },
                    ),
                    Err(e) => Err(e),
                }
            },
            Err(e) => Err(e),
        }
    } else if str_is(name, "StackMapTable") {
        if !(end - i >= 2) {
            return Err(Error::Truncated);
        }
        let n = be16e(s, i);
        match p_stack_map_frames(s, i + 2, end, n as usize) {
            Ok((entries, _)) => Ok(AttributeKind::StackMapTable { number_of_entries: n, entries }),
            Err(e) => Err(e),
        }
    } else if str_is(name, "BootstrapMethods") {
        if !(end - i >= 2) {
            return Err(Error::Truncated);
        }
        let n = be16e(s, i);
        match p_bootstrap_methods(s, i + 2, end, n as usize) {
            Ok((ms, _)) => Ok(
                AttributeKind::BootstrapMethods { num_bootstrap_methods: n, bootstrap_methods: ms },
            ),
            Err(e) => Err(e),
        }
    } else if str_is(name, "NestHost") {
        if end - i >= 2 {
            Ok(AttributeKind::NestHost { host_class_index: be16e(s, i) })
        } else {
            Err(Error::Truncated)
        }
    } else if str_is(name, "NestMembers") {
        if !(end - i >= 2) {
            return Err(Error::Truncated);
        }
        let n = be16e(s, i);
        match p_u16s(s, i + 2, end, n as usize) {
            Ok((classes, _)) => Ok(AttributeKind::NestMembers { number_of_classes: n, classes }),
            Err(e) => Err(e),
        }
    } else if str_is(name, "PermittedSubclasses") {
        if !(end - i >= 2) {
            return Err(Error::Truncated);
        }
        let n = be16e(s, i);
        match p_u16s(s, i + 2, end, n as usize) {
            Ok((classes, _)) => Ok(
                AttributeKind::PermittedSubclasses { number_of_classes: n, classes },
            ),
            Err(e) => Err(e),
        }
    } else if str_is(name, "Exceptions") {
        if !(end - i >= 2) {
            return Err(Error::Truncated);
        }
        let n = be16e(s, i);
        match p_u16s(s, i + 2, end, n as usize) {
            Ok((tbl, _)) => Ok(
                AttributeKind::Exceptions { number_of_exceptions: n, exception_index_table: tbl },
            ),
            Err(e) => Err(e),
        }
    } else if str_is(name, "InnerClasses") {
        if !(end - i >= 2) {
            return Err(Error::Truncated);
        }
        let n = be16e(s, i);
        match p_inner_classes(s, i + 2, end, n as usize) {
            Ok((classes, _)) => Ok(AttributeKind::InnerClasses { number_of_classes: n, classes }),
            Err(e) => Err(e),
        }
    } else if str_is(name, "EnclosingMethod") {
        if end - i >= 4 {
            Ok(
                AttributeKind::EnclosingMethod {
                    class_index: be16e(s, i),
                    method_index: be16e(s, i + 2),
                },
            )
        } else {
            Err(Error::Truncated)
        }
    } else if str_is(name, "Synthetic") {
        Ok(AttributeKind::Synthetic)
    } else if str_is(name, "Signature") {
        if end - i >= 2 {
            Ok(AttributeKind::Signature { signature_index: be16e(s, i) })
        } else {
            Err(Error::Truncated)
        }
    } else if str_is(name, "Record") {
        if !(end - i >= 2) {
            return Err(Error::Truncated);
        }
        let n = be16e(s, i);
        match p_record_components(s, i + 2, end, n as usize, pool) {
            Ok((components, _)) => Ok(AttributeKind::Record { components_count: n, components }),
            Err(e) => Err(e),
        }
    } else if str_is(name, "SourceFile") {
        if end - i >= 2 {
            Ok(AttributeKind::SourceFile { sourcefile_index: be16e(s, i) })
        } else {
            Err(Error::Truncated)
        }
    } else if str_is(name, "LineNumberTable") {
        if !(end - i >= 2) {
            return Err(Error::Truncated);
        }
        let n = be16e(s, i);
        match p_line_number_table(s, i + 2, end, n as usize) {
            Ok((tbl, _)) => Ok(
                AttributeKind::LineNumberTable {
                    line_number_table_length: n,
                    line_number_table: tbl,
                },
            ),
            Err(e) => Err(e),
        }
    } else if str_is(name, "LocalVariableTable") {
        if !(end - i >= 2) {
            return Err(Error::Truncated);
        }
        let n = be16e(s, i);
        match p_local_variable_table(s, i + 2, end, n as usize) {
            Ok((tbl, _)) => Ok(
                AttributeKind::LocalVariableTable {
                    local_variable_table_length: n,
                    local_variable_table: tbl,
                },
            ),
            Err(e) => Err(e),
        }
    } else if str_is(name, "LocalVariableTypeTable") {
        if !(end - i >= 2) {
            return Err(Error::Truncated);
        }
        let n = be16e(s, i);
        match p_local_variable_type_table(s, i + 2, end, n as usize) {
            Ok((tbl, _)) => Ok(
                AttributeKind::LocalVariableTypeTable {
                    local_variable_type_table_length: n,
                    local_variable_type_table: tbl,
                },
            ),
            Err(e) => Err(e),
        }
    } else if str_is(name, "SourceDebugExtension") {
        let debug_extension = vstd::slice::slice_to_vec(&s[i..end]);
        Ok(AttributeKind::SourceDebugExtension { debug_extension })
    } else if str_is(name, "Deprecated") {
        Ok(AttributeKind::Deprecated)
    } else if str_is(name, "RuntimeVisibleAnnotations") {
        if !(end - i >= 2) {
            return Err(Error::Truncated);
        }
        let n = be16e(s, i);
        match p_annotations(s, i + 2, end, n as usize) {
            Ok((anns, _)) => Ok(
                AttributeKind::RuntimeVisibleAnnotations { num_annotations: n, annotations: anns },
            ),
            Err(e) => Err(e),
        }
    } else if str_is(name, "RuntimeInvisibleAnnotations") {
        if !(end - i >= 2) {
            return Err(Error::Truncated);
        }
        let n = be16e(s, i);
        match p_annotations(s, i + 2, end, n as usize) {
            Ok((anns, _)) => Ok(
                AttributeKind::RuntimeInvisibleAnnotations {
                    num_annotations: n,
                    annotations: anns,
                },
            ),
            Err(e) => Err(e),
        }
    } else if str_is(name, "RuntimeVisibleParameterAnnotations") {
        if !(end - i >= 1) {
            return Err(Error::Truncated);
        }
        let n = s[i];
        match p_param_annotations(s, i + 1, end, n as usize) {
            Ok((pas, _)) => Ok(
                AttributeKind::RuntimeVisibleParameterAnnotations {
                    num_parameters: n,
                    parameter_annotations: pas,
                },
            ),
            Err(e) => Err(e),
        }
    } else if str_is(name, "RuntimeInvisibleParameterAnnotations") {
        if !(end - i >= 1) {
            return Err(Error::Truncated);
        }
        let n = s[i];
        match p_param_annotations(s, i + 1, end, n as usize) {
            Ok((pas, _)) => Ok(
                AttributeKind::RuntimeInvisibleParameterAnnotations {
                    num_parameters: n,
                    parameter_annotations: pas,
                },
            ),
            Err(e) => Err(e),
        }
    } else if str_is(name, "RuntimeVisibleTypeAnnotations") {
        if !(end - i >= 2) {
            return Err(Error::Truncated);
        }
        let n = be16e(s, i);
        match p_type_annotations(s, i + 2, end, n as usize) {
            Ok((tas, _)) => Ok(
                AttributeKind::RuntimeVisibleTypeAnnotations {
                    num_annotations: n,
                    type_annotations: tas,
                },
            ),
            Err(e) => Err(e),
        }
    } else if str_is(name, "RuntimeInvisibleTypeAnnotations") {
        if !(end - i >= 2) {
            return Err(Error::Truncated);
        }
        let n = be16e(s, i);
        match p_type_annotations(s, i + 2, end, n as usize) {
            Ok((tas, _)) => Ok(
                AttributeKind::RuntimeInvisibleTypeAnnotations {
                    num_annotations: n,
                    type_annotations: tas,
                },
            ),
            Err(e) => Err(e),
        }
    } else if str_is(name, "AnnotationDefault") {
        match p_element_value(s, i, end) {
            Ok((v, _)) => Ok(AttributeKind::AnnotationDefault { default_value: v }),
            Err(e) => Err(e),
        }
    } else if str_is(name, "MethodParameters") {
        if !(end - i >= 1) {
            return Err(Error::Truncated);
        }
        let n = s[i];
        match p_method_parameters(s, i + 1, end, n as usize) {
            Ok((ps, _)) => Ok(
                AttributeKind::MethodParameters { parameters_count: n, parameters: ps },
            ),
            Err(e) => Err(e),
        }
    } else if str_is(name, "Module") {
        if !(end - i >= 8) {
            return Err(Error::Truncated);
        }
        let requires_count = be16e(s, i + 6);
        match p_requires_list(s, i + 8, end, requires_count as usize) {
            Ok((reqs, p1)) => {
                if !(end - p1 >= 2) {
                    return Err(Error::Truncated);
                }
                let exports_count = be16e(s, p1);
                match p_exports_list(s, p1 + 2, end, exports_count as usize) {
                    Ok((exps, p2)) => {
                        if !(end - p2 >= 2) {
                            return Err(Error::Truncated);
                        }
                        let opens_count = be16e(s, p2);
                        match p_opens_list(s, p2 + 2, end, opens_count as usize) {
                            Ok((ops, p3)) => {
                                if !(end - p3 >= 2) {
                                    return Err(Error::Truncated);
                                }
                                let uses_count = be16e(s, p3);
                                match p_u16s(s, p3 + 2, end, uses_count as usize) {
                                    Ok((uses, p4)) => {
                                        if !(end - p4 >= 2) {
                                            return Err(Error::Truncated);
                                        }
                                        let provides_count = be16e(s, p4);
                                        match p_provides_list(s, p4 + 2, end,
                                            provides_count as usize) {
                                            Ok((provs, _)) => Ok(
                                                AttributeKind::Module {
                                                    module_name_index: be16e(s, i),
                                                    module_flags: be16e(s, i + 2),
                                                    module_version_index: be16e(s, i + 4),
                                                    requires_count,
                                                    requires_list: reqs,
                                                    exports_count,
                                                    exports: exps,
                                                    opens_count,
                                                    opens: ops,
                                                    uses_count,
                                                    uses_index: uses,
                                                    provides_count,
                                                    provides: provs,
                                                },
                                            ),
                                            Err(e) => Err(e),
                                        }
                                    },
                                    Err(e) => Err(e),
                                }
                            },
                            Err(e) => Err(e),
                        }
                    },
                    Err(e) => Err(e),
                }
            },
            Err(e) => Err(e),
        }
    } else if str_is(name, "ModulePackages") {
        if !(end - i >= 2) {
            return Err(Error::Truncated);
        }
        let n = be16e(s, i);
        match p_u16s(s, i + 2, end, n as usize) {
            Ok((pkgs, _)) => Ok(
                AttributeKind::ModulePackages { package_count: n, package_index: pkgs },
            ),
            Err(e) => Err(e),
        }
    } else if str_is(name, "ModuleMainClass") {
        if end - i >= 2 {
            Ok(AttributeKind::ModuleMainClass { main_class_index: be16e(s, i) })
        } else {
            Err(Error::Truncated)
        }
    } else {
        Ok(AttributeKind::Unknown)
    }
}

proof fn lemma_attr_info_intro(s: Seq<u8>, i: int, end: int, pool: Seq<Option<CpInfoV>>, kind: AttributeKindV)
    requires
        can_read(s, i, 6, end),
        i + 6 + be32(s, i + 2) as int <= end,
        cp_utf8_at(pool, be16(s, i)) is Some,
        sp_attribute_kind(
            s,
            i + 6,
            i + 6 + be32(s, i + 2) as int,
            cp_utf8_at(pool, be16(s, i)).unwrap(),
            pool,
        ) == Some(kind),
    ensures
        sp_attribute_info(s, i, end, pool) == Some(
            (
                AttributeInfoV {
                    attribute_name_index: be16(s, i),
                    attribute_length: be32(s, i + 2),
                    info: s.subrange(i + 6, i + 6 + be32(s, i + 2) as int),
                    kind,
                },
                i + 6 + be32(s, i + 2) as int,
            ),
        ),
{
    let ni = be16(s, i);
    let alen = be32(s, i + 2);
    let name = cp_utf8_at(pool, ni).unwrap();
    assert(cp_utf8_at(pool, ni) == Some(name));
    assert(sp_attribute_kind(s, i + 6, i + 6 + alen as int, name, pool) == Some(kind));
    assert(sp_attribute_info(s, i, end, pool) is Some);
}

/// Parse one attribute: resolve its name in the constant pool, keep the raw
/// payload, and decode the recognized kinds.
#[verifier::rlimit(100)]
fn p_attribute_info(s: &[u8], i: usize, end: usize, pool: &Vec<Option<ConstantPoolInfo>>) -> (r:
    Result<(AttributeInfo, usize), Error>)
    requires
        i <= end,
        end <= s@.len(),
    ensures
        match r {
            Ok((a, j)) => sp_attribute_info(s@, i as int, end as int, cp_slots_v(pool@)) == Some(
                (attr_info_v(a), j as int),
            ) && i < j <= end,
            Err(e) => sp_attribute_info(s@, i as int, end as int, cp_slots_v(pool@)) is None && e != Error::Trailing,
        },
    decreases end - i, 1int,
{
    if !(end - i >= 6) {
        return Err(Error::Truncated);
    }
    let ni = be16e(s, i);
    let alen = be32e(s, i + 2);
    if !(alen as usize <= end - (i + 6)) {
        return Err(Error::Truncated);
    }
    let pend = i + 6 + alen as usize;
    match cp_utf8(pool, ni) {
        Some(name) => match p_attribute_kind(s, i + 6, pend, name, pool) {
            Ok(kind) => {
                proof {
                    assert(sp_attribute_kind(
                        s@,
                        i as int + 6,
                        i as int + 6 + alen as int,
                        name@,
                        cp_slots_v(pool@),
                    ) == Some(attribute_kind_v(kind)));
                }
                let info = vstd::slice::slice_to_vec(&s[i + 6..pend]);
                let a = AttributeInfo { attribute_name_index: ni, attribute_length: alen, info, kind };
                proof {
                    assert(info@ == s@.subrange(i as int + 6, i as int + 6 + alen as int));
                    assert(attr_info_v(a) == AttributeInfoV {
                        attribute_name_index: ni,
                        attribute_length: alen,
                        info: s@.subrange(i as int + 6, i as int + 6 + alen as int),
                        kind: attribute_kind_v(kind),
                    });
                    lemma_attr_info_intro(
                        s@,
                        i as int,
                        end as int,
                        cp_slots_v(pool@),
                        attribute_kind_v(kind),
                    );
                    assert(sp_attribute_info(s@, i as int, end as int, cp_slots_v(pool@)) == Some(
                        (attr_info_v(a), i as int + 6 + alen as int),
                    ));
                }
                Ok((a, pend))
            },
            Err(e) => Err(e),
        },
        None => Err(Error::BadIndex { site: IndexSite::AttributeName, index: ni }),
    }
}

fn p_attrs(s: &[u8], i: usize, end: usize, n: usize, pool: &Vec<Option<ConstantPoolInfo>>) -> (r:
    Result<(Vec<AttributeInfo>, usize), Error>)
    requires
        i <= end,
        end <= s@.len(),
    ensures
        match r {
            Ok((v, j)) => sp_attrs(s@, i as int, end as int, n as int, cp_slots_v(pool@)) == Some(
                (attrs_v(v@), j as int),
            ) && i <= j <= end,
            Err(e) => sp_attrs(s@, i as int, end as int, n as int, cp_slots_v(pool@)) is None && e != Error::Trailing,
        },
    decreases end - i, 2int, n,
{
    if n == 0 {
        let v: Vec<AttributeInfo> = Vec::new();
        proof {
            assert(attrs_v(v@) =~= Seq::<AttributeInfoV>::empty());
        }
        return Ok((v, i));
    }
    if i >= s.len() {
        return Err(Error::Truncated);
    }
    match p_attribute_info(s, i, end, pool) {
        Ok((x, j)) => match p_attrs(s, j, end, n - 1, pool) {
            Ok((mut rest, k)) => {
                let ghost rest0 = rest@;
                let ghost x0 = x;
                let mut v: Vec<AttributeInfo> = Vec::new();
                v.push(x);
                v.append(&mut rest);
                proof {
                    assert(v@ =~= seq![x0] + rest0);
                    assert(v@.drop_first() =~= rest0);
                    assert(attrs_v(v@) =~= seq![attr_info_v(x0)] + attrs_v(rest0));
                }
                Ok((v, k))
            },
            Err(e) => Err(e),
        },
        Err(e) => Err(e),
    }
}

fn p_record_component(s: &[u8], i: usize, end: usize, pool: &Vec<Option<ConstantPoolInfo>>) -> (r:
    Result<(RecordComponent, usize), Error>)
    requires
        i <= end,
        end <= s@.len(),
    ensures
        match r {
            Ok((c, j)) => sp_record_component(s@, i as int, end as int, cp_slots_v(pool@)) == Some(
                (record_component_v(c), j as int),
            ) && i < j <= end,
            Err(e) => sp_record_component(s@, i as int, end as int, cp_slots_v(pool@)) is None && e != Error::Trailing,
        },
    decreases end - i, 1int,
{
    if !(end - i >= 6) {
        return Err(Error::Truncated);
    }
    let ac = be16e(s, i + 4);
    match p_attrs(s, i + 6, end, ac as usize, pool) {
        Ok((ats, j)) => Ok(
            (
                RecordComponent {
                    name_index: be16e(s, i),
                    descriptor_index: be16e(s, i + 2),
                    attributes_count: ac,
                    attributes: ats,
                },
                j,
            ),
        ),
        Err(e) => Err(e),
    }
}

fn p_record_components(
    s: &[u8],
    i: usize,
    end: usize,
    n: usize,
    pool: &Vec<Option<ConstantPoolInfo>>,
) -> (r: Result<(Vec<RecordComponent>, usize), Error>)
    requires
        i <= end,
        end <= s@.len(),
    ensures
        match r {
            Ok((v, j)) => sp_record_components(s@, i as int, end as int, n as int, cp_slots_v(
                pool@,
            )) == Some((record_components_v(v@), j as int)) && i <= j <= end,
            Err(e) => sp_record_components(s@, i as int, end as int, n as int, cp_slots_v(pool@))
                is None && e != Error::Trailing,
        },
    decreases end - i, 2int, n,
{
    if n == 0 {
        let v: Vec<RecordComponent> = Vec::new();
        proof {
            assert(record_components_v(v@) =~= Seq::<RecordComponentV>::empty());
        }
        return Ok((v, i));
    }
    if i >= s.len() {
        return Err(Error::Truncated);
    }
    match p_record_component(s, i, end, pool) {
        Ok((x, j)) => match p_record_components(s, j, end, n - 1, pool) {
            Ok((mut rest, k)) => {
                let ghost rest0 = rest@;
                let ghost x0 = x;
                let mut v: Vec<RecordComponent> = Vec::new();
                v.push(x);
                v.append(&mut rest);
                proof {
                    assert(v@ =~= seq![x0] + rest0);
                    assert(v@.drop_first() =~= rest0);
                    assert(record_components_v(v@) =~= seq![record_component_v(x0)]
                        + record_components_v(rest0));
                }
                Ok((v, k))
            },
            Err(e) => Err(e),
        },
        Err(e) => Err(e),
    }
}

fn p_field_info(s: &[u8], i: usize, pool: &Vec<Option<ConstantPoolInfo>>) -> (r: Result<
    (FieldInfo, usize),
    Error,
>)
    requires
        i <= s@.len(),
    ensures
        match r {
            Ok((f, j)) => sp_field_info(s@, i as int, cp_slots_v(pool@)) == Some(
                (field_info_v(f), j as int),
            ) && i < j <= s@.len(),
            Err(e) => sp_field_info(s@, i as int, cp_slots_v(pool@)) is None && e != Error::Trailing,
        },
{
    let n = s.len();
    if !(n - i >= 8) {
        return Err(Error::Truncated);
    }
    let ac = be16e(s, i + 6);
    match p_attrs(s, i + 8, n, ac as usize, pool) {
        Ok((ats, j)) => Ok(
            (
                FieldInfo {
                    access_flags: FieldAccessFlags { bits: be16e(s, i) },
                    name_index: be16e(s, i + 2),
                    descriptor_index: be16e(s, i + 4),
                    attributes_count: ac,
                    attributes: ats,
                },
                j,
            ),
        ),
        Err(e) => Err(e),
    }
}

fn p_fields(s: &[u8], i: usize, n: usize, pool: &Vec<Option<ConstantPoolInfo>>) -> (r: Result<
    (Vec<FieldInfo>, usize),
    Error,
>)
    requires
        i <= s@.len(),
    ensures
        match r {
            Ok((v, j)) => sp_fields(s@, i as int, n as int, cp_slots_v(pool@)) == Some(
                (fields_v(v@), j as int),
            ) && i <= j <= s@.len(),
            Err(e) => sp_fields(s@, i as int, n as int, cp_slots_v(pool@)) is None && e != Error::Trailing,
        },
    decreases n,
{
    if n == 0 {
        let v: Vec<FieldInfo> = Vec::new();
        proof {
            assert(fields_v(v@) =~= Seq::<FieldInfoV>::empty());
        }
        return Ok((v, i));
    }
    if i >= s.len() {
        return Err(Error::Truncated);
    }
    match p_field_info(s, i, pool) {
        Ok((x, j)) => match p_fields(s, j, n - 1, pool) {
            Ok((mut rest, k)) => {
                let ghost rest0 = rest@;
                let ghost x0 = x;
                let mut v: Vec<FieldInfo> = Vec::new();
                v.push(x);
                v.append(&mut rest);
                proof {
                    assert(v@ =~= seq![x0] + rest0);
                    assert(v@.drop_first() =~= rest0);
                    assert(fields_v(v@) =~= seq![field_info_v(x0)] + fields_v(rest0));
                }
                Ok((v, k))
            },
            Err(e) => Err(e),
        },
        Err(e) => Err(e),
    }
}

fn p_method_info(s: &[u8], i: usize, pool: &Vec<Option<ConstantPoolInfo>>) -> (r: Result<
    (MethodInfo, usize),
    Error,
>)
    requires
        i <= s@.len(),
    ensures
        match r {
            Ok((m, j)) => sp_method_info(s@, i as int, cp_slots_v(pool@)) == Some(
                (method_info_v(m), j as int),
            ) && i < j <= s@.len(),
            Err(e) => sp_method_info(s@, i as int, cp_slots_v(pool@)) is None && e != Error::Trailing,
        },
{
    let n = s.len();
    if !(n - i >= 8) {
        return Err(Error::Truncated);
    }
    let ac = be16e(s, i + 6);
    match p_attrs(s, i + 8, n, ac as usize, pool) {
        Ok((ats, j)) => Ok(
            (
                MethodInfo {
                    access_flags: MethodAccessFlags { bits: be16e(s, i) },
                    name_index: be16e(s, i + 2),
                    descriptor_index: be16e(s, i + 4),
                    attributes_count: ac,
                    attributes: ats,
                },
                j,
            ),
        ),
        Err(e) => Err(e),
    }
}

fn p_methods(s: &[u8], i: usize, n: usize, pool: &Vec<Option<ConstantPoolInfo>>) -> (r: Result<
    (Vec<MethodInfo>, usize),
    Error,
>)
    requires
        i <= s@.len(),
    ensures
        match r {
            Ok((v, j)) => sp_methods(s@, i as int, n as int, cp_slots_v(pool@)) == Some(
                (methods_v(v@), j as int),
            ) && i <= j <= s@.len(),
            Err(e) => sp_methods(s@, i as int, n as int, cp_slots_v(pool@)) is None && e != Error::Trailing,
        },
    decreases n,
{
    if n == 0 {
        let v: Vec<MethodInfo> = Vec::new();
        proof {
            assert(methods_v(v@) =~= Seq::<MethodInfoV>::empty());
        }
        return Ok((v, i));
    }
    if i >= s.len() {
        return Err(Error::Truncated);
    }
    match p_method_info(s, i, pool) {
        Ok((x, j)) => match p_methods(s, j, n - 1, pool) {
            Ok((mut rest, k)) => {
                let ghost rest0 = rest@;
                let ghost x0 = x;
                let mut v: Vec<MethodInfo> = Vec::new();
                v.push(x);
                v.append(&mut rest);
                proof {
                    assert(v@ =~= seq![x0] + rest0);
                    assert(v@.drop_first() =~= rest0);
                    assert(methods_v(v@) =~= seq![method_info_v(x0)] + methods_v(rest0));
                }
                Ok((v, k))
            },
            Err(e) => Err(e),
        },
        Err(e) => Err(e),
    }
}

/// Parse a whole class file. The input must be consumed exactly: trailing
/// bytes are an error, and the magic number must open the file.
#[verifier::rlimit(100)]
pub fn parse_class_file(input: &[u8]) -> (r: Result<ClassFile, Error>)
    ensures
        match r {
            Ok(cf) => sp_class_file(input@) == Some((class_file_v(cf), input@.len() as int)),
            Err(e) => match sp_class_file(input@) {
                Some((_, j)) => e == Error::Trailing && j < input@.len(),
                None => e != Error::Trailing,
            },
        },
{
    let n = input.len();
    if n < 4 {
        return Err(Error::Truncated);
    }
    if !(input[0] == 0xCA && input[1] == 0xFE && input[2] == 0xBA && input[3] == 0xBE) {
        return Err(Error::BadMagic);
    }
    if n < 10 {
        return Err(Error::Truncated);
    }
    let minor_version = be16e(input, 4);
    let major_version = be16e(input, 6);
    let constant_pool_count = be16e(input, 8);
    let slots_wanted: usize = if constant_pool_count == 0 {
        0
    } else {
        constant_pool_count as usize - 1
    };
    let (entries, p) = match p_cp_slots(input, 10, slots_wanted) {
        Ok(x) => x,
        Err(e) => {
            return Err(e);
        },
    };
    let constant_pool: Vec<Option<ConstantPoolInfo>> = if constant_pool_count == 0 {
        entries
    } else {
        let mut pool: Vec<Option<ConstantPoolInfo>> = Vec::new();
        pool.push(None);
        let mut entries = entries;
        let ghost entries0 = entries@;
        pool.append(&mut entries);
        proof {
            assert(pool@ =~= seq![Option::<ConstantPoolInfo>::None] + entries0);
            assert(cp_slots_v(pool@) =~= seq![Option::<CpInfoV>::None] + cp_slots_v(entries0));
        }
        pool
    };
    if !(n - p >= 8) {
        return Err(Error::Truncated);
    }
    let access_flags = AccessFlags { bits: be16e(input, p) };
    let this_class = be16e(input, p + 2);
    let super_class = be16e(input, p + 4);
    let interfaces_count = be16e(input, p + 6);
    let (interfaces, q) = match p_u16s(input, p + 8, n, interfaces_count as usize) {
        Ok(x) => x,
        Err(e) => {
            return Err(e);
        },
    };
    if !(n - q >= 2) {
        return Err(Error::Truncated);
    }
    let fields_count = be16e(input, q);
    let (fields, rr) = match p_fields(input, q + 2, fields_count as usize, &constant_pool) {
        Ok(x) => x,
        Err(e) => {
            return Err(e);
        },
    };
    if !(n - rr >= 2) {
        return Err(Error::Truncated);
    }
    let methods_count = be16e(input, rr);
    let (methods, t) = match p_methods(input, rr + 2, methods_count as usize, &constant_pool) {
        Ok(x) => x,
        Err(e) => {
            return Err(e);
        },
    };
    if !(n - t >= 2) {
        return Err(Error::Truncated);
    }
    let attributes_count = be16e(input, t);
    let (attributes, u) = match p_attrs(input, t + 2, n, attributes_count as usize, &constant_pool) {
        Ok(x) => x,
        Err(e) => {
            return Err(e);
        },
    };
    if u != n {
        return Err(Error::Trailing);
    }
    Ok(
        ClassFile {
            minor_version,
            major_version,
            constant_pool_count,
            constant_pool,
            access_flags,
            this_class,
            super_class,
            interfaces_count,
            interfaces,
            fields_count,
            fields,
            methods_count,
            methods,
            attributes_count,
            attributes,
        },
    )
}


/// Element-wise description of `attrs_v`.
pub proof fn lemma_attrs_v_index(v: Seq<AttributeInfo>)
    ensures
        attrs_v(v).len() == v.len(),
        forall|k: int| 0 <= k < v.len() ==> attrs_v(v)[k] == attr_info_v(v[k]),
    decreases v.len(),
{
    if v.len() > 0 {
        lemma_attrs_v_index(v.drop_first());
    }
}

/// Element-wise description of `annotations_v`.
pub proof fn lemma_annotations_v_index(v: Seq<Annotation>)
    ensures
        annotations_v(v).len() == v.len(),
        forall|k: int| 0 <= k < v.len() ==> annotations_v(v)[k] == annotation_v(v[k]),
    decreases v.len(),
{
    if v.len() > 0 {
        lemma_annotations_v_index(v.drop_first());
    }
}

/// Element-wise description of `param_annotations_v`.
pub proof fn lemma_param_annotations_v_index(v: Seq<ParameterAnnotation>)
    ensures
        param_annotations_v(v).len() == v.len(),
        forall|k: int| 0 <= k < v.len() ==> param_annotations_v(v)[k] == param_annotation_v(v[k]),
    decreases v.len(),
{
    if v.len() > 0 {
        lemma_param_annotations_v_index(v.drop_first());
    }
}

/// Element-wise description of `type_annotations_v`.
pub proof fn lemma_type_annotations_v_index(v: Seq<TypeAnnotation>)
    ensures
        type_annotations_v(v).len() == v.len(),
        forall|k: int| 0 <= k < v.len() ==> type_annotations_v(v)[k] == type_annotation_v(v[k]),
    decreases v.len(),
{
    if v.len() > 0 {
        lemma_type_annotations_v_index(v.drop_first());
    }
}


// ---------------------------------------------------------------------------
// Laws: the complementary encoding, pool shape, and attribute-name
// resolution.
// ---------------------------------------------------------------------------
/// Big-endian bytes of a u16.
pub open spec fn be16b(v: u16) -> Seq<u8> {
    seq![(v as int / 0x100) as u8, (v as int % 0x100) as u8]
}

/// Big-endian bytes of a u32.
pub open spec fn be32b(v: u32) -> Seq<u8> {
    seq![
        (v as int / 0x1000000) as u8,
        ((v as int / 0x10000) % 0x100) as u8,
        ((v as int / 0x100) % 0x100) as u8,
        (v as int % 0x100) as u8,
    ]
}

pub proof fn lemma_be16_rt(s: Seq<u8>, i: int)
    requires
        0 <= i,
        i + 2 <= s.len(),
    ensures
        be16b(be16(s, i)) == s.subrange(i, i + 2),
{
    let a = s[i] as int;
    let b = s[i + 1] as int;
    assert((a * 0x100 + b) / 0x100 == a && (a * 0x100 + b) % 0x100 == b) by (nonlinear_arith)
        requires
            0 <= a < 0x100,
            0 <= b < 0x100,
    ;
    assert(be16b(be16(s, i)) =~= s.subrange(i, i + 2));
}

pub proof fn lemma_be32_rt(s: Seq<u8>, i: int)
    requires
        0 <= i,
        i + 4 <= s.len(),
    ensures
        be32b(be32(s, i)) == s.subrange(i, i + 4),
{
    let a = s[i] as int;
    let b = s[i + 1] as int;
    let c = s[i + 2] as int;
    let d = s[i + 3] as int;
    let v = a * 0x1000000 + b * 0x10000 + c * 0x100 + d;
    assert(v / 0x1000000 == a) by (nonlinear_arith)
        requires
            0 <= a < 0x100,
            0 <= b < 0x100,
            0 <= c < 0x100,
            0 <= d < 0x100,
            v == a * 0x1000000 + b * 0x10000 + c * 0x100 + d,
    ;
    assert((v / 0x10000) % 0x100 == b) by (nonlinear_arith)
        requires
            0 <= a < 0x100,
            0 <= b < 0x100,
            0 <= c < 0x100,
            0 <= d < 0x100,
            v == a * 0x1000000 + b * 0x10000 + c * 0x100 + d,
    ;
    assert((v / 0x100) % 0x100 == c) by (nonlinear_arith)
        requires
            0 <= a < 0x100,
            0 <= b < 0x100,
            0 <= c < 0x100,
            0 <= d < 0x100,
            v == a * 0x1000000 + b * 0x10000 + c * 0x100 + d,
    ;
    assert(v % 0x100 == d) by (nonlinear_arith)
        requires
            0 <= a < 0x100,
            0 <= b < 0x100,
            0 <= c < 0x100,
            0 <= d < 0x100,
            v == a * 0x1000000 + b * 0x10000 + c * 0x100 + d,
    ;
    assert(be32b(be32(s, i)) =~= s.subrange(i, i + 4));
}

/// The bytes a constant-pool entry prints back to.
pub open spec fn ser_cp_entry(e: CpInfoV) -> Seq<u8> {
    match e {
        CpInfoV::Class { name_index } => seq![7u8] + be16b(name_index),
        CpInfoV::Fieldref { class_index, name_and_type_index } => seq![9u8] + be16b(class_index)
            + be16b(name_and_type_index),
        CpInfoV::Methodref { class_index, name_and_type_index } => seq![10u8] + be16b(class_index)
            + be16b(name_and_type_index),
        CpInfoV::InterfaceMethodref { class_index, name_and_type_index } => seq![11u8] + be16b(
            class_index,
        ) + be16b(name_and_type_index),
        CpInfoV::String { string_index } => seq![8u8] + be16b(string_index),
        CpInfoV::Integer { bytes } => seq![3u8] + be32b(bytes),
        CpInfoV::Float { bytes } => seq![4u8] + be32b(bytes),
        CpInfoV::Long { high_bytes, low_bytes } => seq![5u8] + be32b(high_bytes) + be32b(low_bytes),
        CpInfoV::Double { high_bytes, low_bytes } => seq![6u8] + be32b(high_bytes) + be32b(
            low_bytes,
        ),
        CpInfoV::NameAndType { name_index, descriptor_index } => seq![12u8] + be16b(name_index)
            + be16b(descriptor_index),
        CpInfoV::Utf8 { length, bytes, .. } => seq![1u8] + be16b(length) + bytes,
        CpInfoV::MethodHandle { reference_kind, reference_index } => seq![15u8, reference_kind]
            + be16b(reference_index),
        CpInfoV::MethodType { descriptor_index } => seq![16u8] + be16b(descriptor_index),
        CpInfoV::Dynamic { bootstrap_method_attr_index, name_and_type_index } => seq![17u8] + be16b(
            bootstrap_method_attr_index,
        ) + be16b(name_and_type_index),
        CpInfoV::InvokeDynamic { bootstrap_method_attr_index, name_and_type_index } => seq![18u8]
            + be16b(bootstrap_method_attr_index) + be16b(name_and_type_index),
        CpInfoV::Module { name_index } => seq![19u8] + be16b(name_index),
        CpInfoV::Package { name_index } => seq![20u8] + be16b(name_index),
    }
}

/// The bytes the whole pool prints back to: empty slots print nothing.
pub open spec fn ser_pool(slots: Seq<Option<CpInfoV>>) -> Seq<u8>
    decreases slots,
{
    if slots.len() == 0 {
        Seq::empty()
    } else {
        (match slots[0] {
            Some(e) => ser_cp_entry(e),
            None => Seq::empty(),
        }) + ser_pool(slots.drop_first())
    }
}

pub open spec fn ser_u16s(v: Seq<u16>) -> Seq<u8>
    decreases v,
{
    if v.len() == 0 {
        Seq::empty()
    } else {
        be16b(v[0]) + ser_u16s(v.drop_first())
    }
}

/// An attribute prints back to its header followed by its raw payload.
pub open spec fn ser_attr(a: AttributeInfoV) -> Seq<u8> {
    be16b(a.attribute_name_index) + be32b(a.attribute_length) + a.info
}

pub open spec fn ser_attrs(v: Seq<AttributeInfoV>) -> Seq<u8>
    decreases v,
{
    if v.len() == 0 {
        Seq::empty()
    } else {
        ser_attr(v[0]) + ser_attrs(v.drop_first())
    }
}

pub open spec fn ser_field(f: FieldInfoV) -> Seq<u8> {
    be16b(f.access_flags.bits) + be16b(f.name_index) + be16b(f.descriptor_index) + be16b(
        f.attributes_count,
    ) + ser_attrs(f.attributes)
}

pub open spec fn ser_fields(v: Seq<FieldInfoV>) -> Seq<u8>
    decreases v,
{
    if v.len() == 0 {
        Seq::empty()
    } else {
        ser_field(v[0]) + ser_fields(v.drop_first())
    }
}

pub open spec fn ser_method(m: MethodInfoV) -> Seq<u8> {
    be16b(m.access_flags.bits) + be16b(m.name_index) + be16b(m.descriptor_index) + be16b(
        m.attributes_count,
    ) + ser_attrs(m.attributes)
}

pub open spec fn ser_methods(v: Seq<MethodInfoV>) -> Seq<u8>
    decreases v,
{
    if v.len() == 0 {
        Seq::empty()
    } else {
        ser_method(v[0]) + ser_methods(v.drop_first())
    }
}

/// The complementary encoder over the fields the parser captures.
pub open spec fn ser_class_file(cf: ClassFileV) -> Seq<u8> {
    seq![0xCAu8, 0xFEu8, 0xBAu8, 0xBEu8] + be16b(cf.minor_version) + be16b(cf.major_version)
        + be16b(cf.constant_pool_count) + ser_pool(cf.constant_pool) + be16b(cf.access_flags.bits)
        + be16b(cf.this_class) + be16b(cf.super_class) + be16b(cf.interfaces_count) + ser_u16s(
        cf.interfaces,
    ) + be16b(cf.fields_count) + ser_fields(cf.fields) + be16b(cf.methods_count) + ser_methods(
        cf.methods,
    ) + be16b(cf.attributes_count) + ser_attrs(cf.attributes)
}

pub proof fn lemma_cp_entry_bounds(s: Seq<u8>, i: int)
    ensures
        sp_cp_entry(s, i) matches Some((e, j)) ==> i < j <= s.len(),
{
    reveal(sp_cp_entry);
}

pub proof fn lemma_cp_entry_rt(s: Seq<u8>, i: int)
    ensures
        sp_cp_entry(s, i) matches Some((e, j)) ==> ser_cp_entry(e) == s.subrange(i, j),
{
    reveal(sp_cp_entry);
    if let Some((e, j)) = sp_cp_entry(s, i) {
        lemma_cp_entry_bounds(s, i);
        let tag = s[i];
        if tag == 1 {
            let length = be16(s, i + 1);
            lemma_be16_rt(s, i + 1);
            assert(ser_cp_entry(e) =~= s.subrange(i, j));
        } else {
            if i + 3 <= s.len() {
                lemma_be16_rt(s, i + 1);
            }
            if i + 5 <= s.len() {
                lemma_be16_rt(s, i + 3);
                lemma_be32_rt(s, i + 1);
            }
            if i + 9 <= s.len() {
                lemma_be32_rt(s, i + 5);
            }
            if i + 4 <= s.len() {
                lemma_be16_rt(s, i + 2);
            }
            assert(ser_cp_entry(e) =~= s.subrange(i, j));
        }
    }
}

#[verifier::rlimit(100)]
pub proof fn lemma_cp_slots_rt(s: Seq<u8>, i: int, m: int)
    requires
        0 <= i <= s.len(),
    ensures
        sp_cp_slots(s, i, m) matches Some((slots, j)) ==> {
            &&& i <= j <= s.len()
            &&& ser_pool(slots) == s.subrange(i, j)
            &&& slots.len() == (if m >= 0 { m } else { 0 })
        },
    decreases s.len() - i, 1int,
{
    if m <= 0 {
        assert(sp_cp_slots(s, i, m) == Some((Seq::<Option<CpInfoV>>::empty(), i)));
        assert(ser_pool(Seq::<Option<CpInfoV>>::empty()) =~= s.subrange(i, i));
    } else if i < s.len() {
        lemma_cp_entry_bounds(s, i);
        lemma_cp_entry_rt(s, i);
        if let Some((e, j)) = sp_cp_entry(s, i) {
            assert(adv(i, j, s.len() as int) == j);
            if cp_is_wide(e) {
                if m >= 2 {
                    lemma_cp_slots_rt(s, j, m - 2);
                    if let Some((rest, k)) = sp_cp_slots(s, j, m - 2) {
                        let whole = seq![Some(e), Option::<CpInfoV>::None] + rest;
                        let mid = seq![Option::<CpInfoV>::None] + rest;
                        assert(whole.drop_first() =~= mid);
                        assert(mid.drop_first() =~= rest);
                        assert(ser_pool(whole) =~= s.subrange(i, k)) by {
                            assert(whole[0] == Some(e));
                            assert(mid[0] is None);
                            assert(ser_pool(whole) == ser_cp_entry(e) + ser_pool(mid));
                            assert(ser_pool(mid) == Seq::<u8>::empty() + ser_pool(rest));
                            assert(Seq::<u8>::empty() + ser_pool(rest) =~= ser_pool(rest));
                            assert(ser_cp_entry(e) + ser_pool(mid) =~= s.subrange(i, j)
                                + s.subrange(j, k));
                            assert(s.subrange(i, j) + s.subrange(j, k) =~= s.subrange(i, k));
                        };
                    }
                }
            } else {
                lemma_cp_slots_rt(s, j, m - 1);
                if let Some((rest, k)) = sp_cp_slots(s, j, m - 1) {
                    let whole = seq![Some(e)] + rest;
                    assert(whole.drop_first() =~= rest);
                    assert(ser_pool(whole) =~= s.subrange(i, k)) by {
                        assert(ser_pool(whole) == ser_cp_entry(e) + ser_pool(rest));
                        assert(ser_cp_entry(e) + ser_pool(rest) =~= s.subrange(i, j) + s.subrange(
                            j,
                            k,
                        ));
                        assert(s.subrange(i, j) + s.subrange(j, k) =~= s.subrange(i, k));
                    };
                }
            }
        }
    }
}

pub proof fn lemma_u16s_rt(s: Seq<u8>, i: int, end: int, n: int)
    requires
        0 <= i <= s.len(),
    ensures
        sp_u16s(s, i, end, n) matches Some((v, j)) ==> {
            &&& i <= j <= end <= s.len() || n <= 0
            &&& i <= j
            &&& j <= s.len() || n <= 0 && j == i
            &&& ser_u16s(v) == s.subrange(i, j)
        },
    decreases s.len() - i, 1int,
{
    if n <= 0 {
        assert(ser_u16s(Seq::<u16>::empty()) =~= s.subrange(i, i));
    } else if can_read(s, i, 2, end) {
        lemma_be16_rt(s, i);
        lemma_u16s_rt(s, i + 2, end, n - 1);
        if let Some((rest, k)) = sp_u16s(s, i + 2, end, n - 1) {
            let whole = seq![be16(s, i)] + rest;
            assert(whole.drop_first() =~= rest);
            assert(ser_u16s(whole) =~= s.subrange(i, k)) by {
                assert(ser_u16s(whole) == be16b(be16(s, i)) + ser_u16s(rest));
                assert(be16b(be16(s, i)) + ser_u16s(rest) =~= s.subrange(i, i + 2) + s.subrange(
                    i + 2,
                    k,
                ));
                assert(s.subrange(i, i + 2) + s.subrange(i + 2, k) =~= s.subrange(i, k));
            };
        }
    }
}

#[verifier::rlimit(100)]
pub proof fn lemma_attr_info_rt(s: Seq<u8>, i: int, end: int, pool: Seq<Option<CpInfoV>>)
    ensures
        sp_attribute_info(s, i, end, pool) matches Some((a, j)) ==> {
            &&& i < j <= end <= s.len()
            &&& ser_attr(a) == s.subrange(i, j)
        },
{
    if let Some((a, j)) = sp_attribute_info(s, i, end, pool) {
        lemma_be16_rt(s, i);
        lemma_be32_rt(s, i + 2);
        assert(ser_attr(a) =~= s.subrange(i, j));
    }
}

#[verifier::rlimit(100)]
pub proof fn lemma_attrs_rt(s: Seq<u8>, i: int, end: int, n: int, pool: Seq<Option<CpInfoV>>)
    requires
        0 <= i <= s.len(),
    ensures
        sp_attrs(s, i, end, n, pool) matches Some((v, j)) ==> {
            &&& i <= j
            &&& j <= s.len() || n <= 0 && j == i
            &&& ser_attrs(v) == s.subrange(i, j)
        },
    decreases s.len() - i, 3int,
{
    if n <= 0 {
        assert(ser_attrs(Seq::<AttributeInfoV>::empty()) =~= s.subrange(i, i));
    } else if i < s.len() {
        lemma_attr_info_rt(s, i, end, pool);
        if let Some((a, j)) = sp_attribute_info(s, i, end, pool) {
            assert(adv(i, j, s.len() as int) == j);
            lemma_attrs_rt(s, j, end, n - 1, pool);
            if let Some((rest, k)) = sp_attrs(s, j, end, n - 1, pool) {
                let whole = seq![a] + rest;
                assert(whole.drop_first() =~= rest);
                assert(ser_attrs(whole) =~= s.subrange(i, k)) by {
                    assert(ser_attrs(whole) == ser_attr(a) + ser_attrs(rest));
                    assert(ser_attr(a) + ser_attrs(rest) =~= s.subrange(i, j) + s.subrange(j, k));
                    assert(s.subrange(i, j) + s.subrange(j, k) =~= s.subrange(i, k));
                };
            }
        }
    }
}

pub proof fn lemma_field_rt(s: Seq<u8>, i: int, pool: Seq<Option<CpInfoV>>)
    requires
        0 <= i,
    ensures
        sp_field_info(s, i, pool) matches Some((f, j)) ==> {
            &&& i < j <= s.len()
            &&& ser_field(f) == s.subrange(i, j)
        },
{
    if let Some((f, j)) = sp_field_info(s, i, pool) {
        let ac = be16(s, i + 6);
        lemma_be16_rt(s, i);
        lemma_be16_rt(s, i + 2);
        lemma_be16_rt(s, i + 4);
        lemma_be16_rt(s, i + 6);
        lemma_attrs_rt(s, i + 8, s.len() as int, ac as int, pool);
        if let Some((ats, k)) = sp_attrs(s, i + 8, s.len() as int, ac as int, pool) {
            assert(ser_field(f) =~= s.subrange(i, j)) by {
                assert(ser_attrs(ats) == s.subrange(i + 8, k));
            };
        }
    }
}

pub proof fn lemma_fields_rt(s: Seq<u8>, i: int, n: int, pool: Seq<Option<CpInfoV>>)
    requires
        0 <= i <= s.len(),
    ensures
        sp_fields(s, i, n, pool) matches Some((v, j)) ==> {
            &&& i <= j
            &&& j <= s.len() || n <= 0 && j == i
            &&& ser_fields(v) == s.subrange(i, j)
        },
    decreases s.len() - i,
{
    if n <= 0 {
        assert(ser_fields(Seq::<FieldInfoV>::empty()) =~= s.subrange(i, i));
    } else if i < s.len() {
        lemma_field_rt(s, i, pool);
        if let Some((f, j)) = sp_field_info(s, i, pool) {
            assert(adv(i, j, s.len() as int) == j);
            lemma_fields_rt(s, j, n - 1, pool);
            if let Some((rest, k)) = sp_fields(s, j, n - 1, pool) {
                let whole = seq![f] + rest;
                assert(whole.drop_first() =~= rest);
                assert(ser_fields(whole) =~= s.subrange(i, k)) by {
                    assert(ser_fields(whole) == ser_field(f) + ser_fields(rest));
                    assert(ser_field(f) + ser_fields(rest) =~= s.subrange(i, j) + s.subrange(j, k));
                    assert(s.subrange(i, j) + s.subrange(j, k) =~= s.subrange(i, k));
                };
            }
        }
    }
}

pub proof fn lemma_method_rt(s: Seq<u8>, i: int, pool: Seq<Option<CpInfoV>>)
    requires
        0 <= i,
    ensures
        sp_method_info(s, i, pool) matches Some((m, j)) ==> {
            &&& i < j <= s.len()
            &&& ser_method(m) == s.subrange(i, j)
        },
{
    if let Some((m, j)) = sp_method_info(s, i, pool) {
        let ac = be16(s, i + 6);
        lemma_be16_rt(s, i);
        lemma_be16_rt(s, i + 2);
        lemma_be16_rt(s, i + 4);
        lemma_be16_rt(s, i + 6);
        lemma_attrs_rt(s, i + 8, s.len() as int, ac as int, pool);
        if let Some((ats, k)) = sp_attrs(s, i + 8, s.len() as int, ac as int, pool) {
            assert(ser_method(m) =~= s.subrange(i, j)) by {
                assert(ser_attrs(ats) == s.subrange(i + 8, k));
            };
        }
    }
}

pub proof fn lemma_methods_rt(s: Seq<u8>, i: int, n: int, pool: Seq<Option<CpInfoV>>)
    requires
        0 <= i <= s.len(),
    ensures
        sp_methods(s, i, n, pool) matches Some((v, j)) ==> {
            &&& i <= j
            &&& j <= s.len() || n <= 0 && j == i
            &&& ser_methods(v) == s.subrange(i, j)
        },
    decreases s.len() - i,
{
    if n <= 0 {
        assert(ser_methods(Seq::<MethodInfoV>::empty()) =~= s.subrange(i, i));
    } else if i < s.len() {
        lemma_method_rt(s, i, pool);
        if let Some((m, j)) = sp_method_info(s, i, pool) {
            assert(adv(i, j, s.len() as int) == j);
            lemma_methods_rt(s, j, n - 1, pool);
            if let Some((rest, k)) = sp_methods(s, j, n - 1, pool) {
                let whole = seq![m] + rest;
                assert(whole.drop_first() =~= rest);
                assert(ser_methods(whole) =~= s.subrange(i, k)) by {
                    assert(ser_methods(whole) == ser_method(m) + ser_methods(rest));
                    assert(ser_method(m) + ser_methods(rest) =~= s.subrange(i, j) + s.subrange(
                        j,
                        k,
                    ));
                    assert(s.subrange(i, j) + s.subrange(j, k) =~= s.subrange(i, k));
                };
            }
        }
    }
}

/// Whatever the class-file grammar accepts prints back, with the
/// complementary encoder, to exactly the bytes it consumed. In particular a
/// fully parsed file prints back to the input byte for byte.
#[verifier::rlimit(100)]
pub proof fn lemma_class_file_round_trip(s: Seq<u8>, cf: ClassFileV, n: int)
    requires
        sp_class_file(s) == Some((cf, n)),
    ensures
        ser_class_file(cf) == s.subrange(0, n),
{
    let count = be16(s, 8);
    let slots_wanted: int = if count == 0 {
        0
    } else {
        count as int - 1
    };
    lemma_be16_rt(s, 4);
    lemma_be16_rt(s, 6);
    lemma_be16_rt(s, 8);
    lemma_cp_slots_rt(s, 10, slots_wanted);
    let (entries, p) = sp_cp_slots(s, 10, slots_wanted).unwrap();
    assert(ser_pool(cf.constant_pool) == s.subrange(10, p)) by {
        if count == 0 {
        } else {
            assert(cf.constant_pool =~= seq![Option::<CpInfoV>::None] + entries);
            assert(cf.constant_pool.drop_first() =~= entries);
            assert(ser_pool(cf.constant_pool) == Seq::<u8>::empty() + ser_pool(entries));
            assert(Seq::<u8>::empty() + ser_pool(entries) =~= ser_pool(entries));
        }
    };
    lemma_be16_rt(s, p);
    lemma_be16_rt(s, p + 2);
    lemma_be16_rt(s, p + 4);
    lemma_be16_rt(s, p + 6);
    let ifc = be16(s, p + 6);
    lemma_u16s_rt(s, p + 8, s.len() as int, ifc as int);
    let (_, q) = sp_u16s(s, p + 8, s.len() as int, ifc as int).unwrap();
    lemma_be16_rt(s, q);
    let fc = be16(s, q);
    lemma_fields_rt(s, q + 2, fc as int, cf.constant_pool);
    let (_, r) = sp_fields(s, q + 2, fc as int, cf.constant_pool).unwrap();
    lemma_be16_rt(s, r);
    let mc = be16(s, r);
    lemma_methods_rt(s, r + 2, mc as int, cf.constant_pool);
    let (_, t) = sp_methods(s, r + 2, mc as int, cf.constant_pool).unwrap();
    lemma_be16_rt(s, t);
    let ac = be16(s, t);
    lemma_attrs_rt(s, t + 2, s.len() as int, ac as int, cf.constant_pool);
    // Assemble prefix by prefix, in the same association as the encoder.
    let a1 = seq![0xCAu8, 0xFEu8, 0xBAu8, 0xBEu8];
    assert(a1 =~= s.subrange(0, 4));
    let a2 = a1 + be16b(cf.minor_version);
    assert(a2 == s.subrange(0, 6)) by {
        assert(s.subrange(0, 4) + s.subrange(4, 6) =~= s.subrange(0, 6));
    };
    let a3 = a2 + be16b(cf.major_version);
    assert(a3 == s.subrange(0, 8)) by {
        assert(s.subrange(0, 6) + s.subrange(6, 8) =~= s.subrange(0, 8));
    };
    let a4 = a3 + be16b(cf.constant_pool_count);
    assert(a4 == s.subrange(0, 10)) by {
        assert(s.subrange(0, 8) + s.subrange(8, 10) =~= s.subrange(0, 10));
    };
    let a5 = a4 + ser_pool(cf.constant_pool);
    assert(a5 == s.subrange(0, p)) by {
        assert(s.subrange(0, 10) + s.subrange(10, p) =~= s.subrange(0, p));
    };
    let a6 = a5 + be16b(cf.access_flags.bits);
    assert(a6 == s.subrange(0, p + 2)) by {
        assert(s.subrange(0, p) + s.subrange(p, p + 2) =~= s.subrange(0, p + 2));
    };
    let a7 = a6 + be16b(cf.this_class);
    assert(a7 == s.subrange(0, p + 4)) by {
        assert(s.subrange(0, p + 2) + s.subrange(p + 2, p + 4) =~= s.subrange(0, p + 4));
    };
    let a8 = a7 + be16b(cf.super_class);
    assert(a8 == s.subrange(0, p + 6)) by {
        assert(s.subrange(0, p + 4) + s.subrange(p + 4, p + 6) =~= s.subrange(0, p + 6));
    };
    let a9 = a8 + be16b(cf.interfaces_count);
    assert(a9 == s.subrange(0, p + 8)) by {
        assert(s.subrange(0, p + 6) + s.subrange(p + 6, p + 8) =~= s.subrange(0, p + 8));
    };
    let a10 = a9 + ser_u16s(cf.interfaces);
    assert(a10 == s.subrange(0, q)) by {
        assert(s.subrange(0, p + 8) + s.subrange(p + 8, q) =~= s.subrange(0, q));
    };
    let a11 = a10 + be16b(cf.fields_count);
    assert(a11 == s.subrange(0, q + 2)) by {
        assert(s.subrange(0, q) + s.subrange(q, q + 2) =~= s.subrange(0, q + 2));
    };
    let a12 = a11 + ser_fields(cf.fields);
    assert(a12 == s.subrange(0, r)) by {
        assert(s.subrange(0, q + 2) + s.subrange(q + 2, r) =~= s.subrange(0, r));
    };
    let a13 = a12 + be16b(cf.methods_count);
    assert(a13 == s.subrange(0, r + 2)) by {
        assert(s.subrange(0, r) + s.subrange(r, r + 2) =~= s.subrange(0, r + 2));
    };
    let a14 = a13 + ser_methods(cf.methods);
    assert(a14 == s.subrange(0, t)) by {
        assert(s.subrange(0, t - (t - r - 2) - 2 + 2) == s.subrange(0, r + 2));
        assert(s.subrange(0, r + 2) + s.subrange(r + 2, t) =~= s.subrange(0, t));
    };
    let a15 = a14 + be16b(cf.attributes_count);
    assert(a15 == s.subrange(0, t + 2)) by {
        assert(s.subrange(0, t) + s.subrange(t, t + 2) =~= s.subrange(0, t + 2));
    };
    let a16 = a15 + ser_attrs(cf.attributes);
    assert(a16 == s.subrange(0, n)) by {
        assert(s.subrange(0, t + 2) + s.subrange(t + 2, n) =~= s.subrange(0, n));
    };
    assert(ser_class_file(cf) == a16);
}

/// The slot after each wide (`Long` / `Double`) pool entry is empty, so it
/// can never resolve for any downstream index.
pub open spec fn pool_slots_wf(pool: Seq<Option<CpInfoV>>) -> bool {
    forall|k: int|
        (0 <= k < pool.len() && ((#[trigger] pool[k]) matches Some(e) && cp_is_wide(e))) ==> k + 1
            < pool.len() && pool[k + 1] is None
}

proof fn lemma_cp_slots_wf(s: Seq<u8>, i: int, m: int)
    requires
        0 <= i,
    ensures
        sp_cp_slots(s, i, m) matches Some((slots, j)) ==> pool_slots_wf(slots),
    decreases s.len() - i, 1int,
{
    if m <= 0 {
    } else if i < s.len() {
        lemma_cp_entry_bounds(s, i);
        if let Some((e, j)) = sp_cp_entry(s, i) {
            assert(adv(i, j, s.len() as int) == j);
            if cp_is_wide(e) {
                if m >= 2 {
                    lemma_cp_slots_wf(s, j, m - 2);
                    lemma_cp_slots_rt(s, j, m - 2);
                    if let Some((rest, _)) = sp_cp_slots(s, j, m - 2) {
                        let whole = seq![Some(e), Option::<CpInfoV>::None] + rest;
                        assert forall|k: int|
                            (0 <= k < whole.len() && ((#[trigger] whole[k]) matches Some(e2)
                                && cp_is_wide(e2))) implies k + 1 < whole.len() && whole[k + 1]
                            is None by {
                            if k >= 2 {
                                assert(whole[k] == rest[k - 2]);
                                assert((rest[k - 2] matches Some(e3) && cp_is_wide(e3)) ==> k - 1
                                    < rest.len() && rest[k - 1] is None);
                            }
                        }
                    }
                }
            } else {
                lemma_cp_slots_wf(s, j, m - 1);
                lemma_cp_slots_rt(s, j, m - 1);
                if let Some((rest, _)) = sp_cp_slots(s, j, m - 1) {
                    let whole = seq![Some(e)] + rest;
                    assert forall|k: int|
                        (0 <= k < whole.len() && ((#[trigger] whole[k]) matches Some(e2) && cp_is_wide(
                            e2,
                        ))) implies k + 1 < whole.len() && whole[k + 1] is None by {
                        if k >= 1 {
                            assert(whole[k] == rest[k - 1]);
                            assert((rest[k - 1] matches Some(e3) && cp_is_wide(e3)) ==> k < rest.len()
                                && rest[k] is None);
                        }
                    }
                }
            }
        }
    }
}

/// The parsed constant pool is one-indexed: slot 0 is empty, the pool spans
/// exactly `constant_pool_count` slots, and the slot after each wide entry is
/// empty.
pub proof fn lemma_pool_shape(s: Seq<u8>, cf: ClassFileV, n: int)
    requires
        sp_class_file(s) == Some((cf, n)),
    ensures
        pool_slots_wf(cf.constant_pool),
        cf.constant_pool_count > 0 ==> cf.constant_pool.len() == cf.constant_pool_count
            && cf.constant_pool[0] is None,
        cf.constant_pool_count == 0 ==> cf.constant_pool.len() == 0,
{
    let count = be16(s, 8);
    let slots_wanted: int = if count == 0 {
        0
    } else {
        count as int - 1
    };
    lemma_cp_slots_wf(s, 10, slots_wanted);
    lemma_cp_slots_rt(s, 10, slots_wanted);
    if let Some((entries, _)) = sp_cp_slots(s, 10, slots_wanted) {
        if count != 0 {
            let whole = seq![Option::<CpInfoV>::None] + entries;
            assert forall|k: int|
                (0 <= k < whole.len() && ((#[trigger] whole[k]) matches Some(e2) && cp_is_wide(e2)))
                    implies k + 1 < whole.len() && whole[k + 1] is None by {
                if k >= 1 {
                    assert(whole[k] == entries[k - 1]);
                    assert((entries[k - 1] matches Some(e3) && cp_is_wide(e3)) ==> k < entries.len()
                        && entries[k] is None);
                }
            }
        }
    }
}


/// Every attribute in the list carries a name index that resolves to a
/// `Utf8` pool entry.
pub open spec fn attr_names_resolve(attrs: Seq<AttributeInfoV>, pool: Seq<Option<CpInfoV>>) -> bool {
    forall|k: int|
        0 <= k < attrs.len() ==> cp_utf8_at(pool, (#[trigger] attrs[k]).attribute_name_index)
            is Some
}

proof fn lemma_attrs_names(s: Seq<u8>, i: int, end: int, n: int, pool: Seq<Option<CpInfoV>>)
    requires
        0 <= i,
    ensures
        sp_attrs(s, i, end, n, pool) matches Some((ats, j)) ==> attr_names_resolve(ats, pool),
    decreases s.len() - i, 3int,
{
    if n <= 0 {
    } else if i < s.len() {
        lemma_attr_info_rt(s, i, end, pool);
        if let Some((a, j)) = sp_attribute_info(s, i, end, pool) {
            assert(adv(i, j, s.len() as int) == j);
            lemma_attrs_names(s, j, end, n - 1, pool);
            if let Some((rest, _)) = sp_attrs(s, j, end, n - 1, pool) {
                let whole = seq![a] + rest;
                assert(cp_utf8_at(pool, a.attribute_name_index) is Some);
                assert forall|k: int|
                    0 <= k < whole.len() implies cp_utf8_at(
                    pool,
                    (#[trigger] whole[k]).attribute_name_index,
                ) is Some by {
                    if k >= 1 {
                        assert(whole[k] == rest[k - 1]);
                    }
                }
            }
        }
    }
}

proof fn lemma_fields_names(s: Seq<u8>, i: int, n: int, pool: Seq<Option<CpInfoV>>)
    requires
        0 <= i,
    ensures
        sp_fields(s, i, n, pool) matches Some((fs, j)) ==> forall|k: int|
            0 <= k < fs.len() ==> attr_names_resolve((#[trigger] fs[k]).attributes, pool),
    decreases s.len() - i,
{
    if n <= 0 {
    } else if i < s.len() {
        if let Some((f, j)) = sp_field_info(s, i, pool) {
            lemma_field_rt(s, i, pool);
            assert(adv(i, j, s.len() as int) == j);
            lemma_attrs_names(s, i + 8, s.len() as int, be16(s, i + 6) as int, pool);
            lemma_fields_names(s, j, n - 1, pool);
            if let Some((rest, _)) = sp_fields(s, j, n - 1, pool) {
                let whole = seq![f] + rest;
                assert forall|k: int|
                    0 <= k < whole.len() implies attr_names_resolve(
                    (#[trigger] whole[k]).attributes,
                    pool,
                ) by {
                    if k >= 1 {
                        assert(whole[k] == rest[k - 1]);
                    }
                }
            }
        }
    }
}

proof fn lemma_methods_names(s: Seq<u8>, i: int, n: int, pool: Seq<Option<CpInfoV>>)
    requires
        0 <= i,
    ensures
        sp_methods(s, i, n, pool) matches Some((ms, j)) ==> forall|k: int|
            0 <= k < ms.len() ==> attr_names_resolve((#[trigger] ms[k]).attributes, pool),
    decreases s.len() - i,
{
    if n <= 0 {
    } else if i < s.len() {
        if let Some((m, j)) = sp_method_info(s, i, pool) {
            lemma_method_rt(s, i, pool);
            assert(adv(i, j, s.len() as int) == j);
            lemma_attrs_names(s, i + 8, s.len() as int, be16(s, i + 6) as int, pool);
            lemma_methods_names(s, j, n - 1, pool);
            if let Some((rest, _)) = sp_methods(s, j, n - 1, pool) {
                let whole = seq![m] + rest;
                assert forall|k: int|
                    0 <= k < whole.len() implies attr_names_resolve(
                    (#[trigger] whole[k]).attributes,
                    pool,
                ) by {
                    if k >= 1 {
                        assert(whole[k] == rest[k - 1]);
                    }
                }
            }
        }
    }
}

/// In a parsed class file, every `attribute_name_index` — at class level and
/// on every field and method — resolves to a `Utf8` constant-pool entry.
pub proof fn lemma_attribute_names_resolve(s: Seq<u8>, cf: ClassFileV, n: int)
    requires
        sp_class_file(s) == Some((cf, n)),
    ensures
        attr_names_resolve(cf.attributes, cf.constant_pool),
        forall|k: int|
            0 <= k < cf.fields.len() ==> attr_names_resolve(
                (#[trigger] cf.fields[k]).attributes,
                cf.constant_pool,
            ),
        forall|k: int|
            0 <= k < cf.methods.len() ==> attr_names_resolve(
                (#[trigger] cf.methods[k]).attributes,
                cf.constant_pool,
            ),
{
    let count = be16(s, 8);
    let slots_wanted: int = if count == 0 {
        0
    } else {
        count as int - 1
    };
    lemma_cp_slots_rt(s, 10, slots_wanted);
    let (_, p) = sp_cp_slots(s, 10, slots_wanted).unwrap();
    let ifc = be16(s, p + 6);
    lemma_u16s_rt(s, p + 8, s.len() as int, ifc as int);
    let (_, q) = sp_u16s(s, p + 8, s.len() as int, ifc as int).unwrap();
    let fc = be16(s, q);
    lemma_fields_rt(s, q + 2, fc as int, cf.constant_pool);
    lemma_fields_names(s, q + 2, fc as int, cf.constant_pool);
    let (_, r) = sp_fields(s, q + 2, fc as int, cf.constant_pool).unwrap();
    let mc = be16(s, r);
    lemma_methods_rt(s, r + 2, mc as int, cf.constant_pool);
    lemma_methods_names(s, r + 2, mc as int, cf.constant_pool);
    let (_, t) = sp_methods(s, r + 2, mc as int, cf.constant_pool).unwrap();
    let ac = be16(s, t);
    lemma_attrs_names(s, t + 2, s.len() as int, ac as int, cf.constant_pool);
}

} // verus!
