//! Extraction of a language-level component from a parsed class file.
//!
//! The extractor resolves constant-pool indirections, parses descriptors and
//! generic signatures, classifies the unit as a class, interface, annotation
//! interface or module, filters members by access modifier, and collects
//! retained annotations.

use vstd::prelude::*;

use crate::class_file::AttributeInfoV;
use crate::class_file::AttributeKind;
use crate::class_file::AttributeKindV;
use crate::class_file::ClassFile;
use crate::class_file::ClassFileV;
use crate::class_file::CpInfoV;
use crate::class_file::FieldAccessFlags;
use crate::class_file::FieldInfoV;
use crate::class_file::MethodAccessFlags;
use crate::class_file::MethodInfoV;
use crate::class_file::ParameterAnnotationV;
use crate::class_file::TypeAnnotationV;
use crate::class_file::class_file_v;
use crate::class_file::cp_utf8_at;
use crate::descriptor::BaseTy;
use crate::descriptor::FieldTyV;
use crate::descriptor::MethodDescV;
use crate::descriptor::RetDescV;
use crate::descriptor::sp_parse_field_ty;
use crate::descriptor::sp_parse_method_desc;
use crate::error::Error;
use crate::error::IndexSite;
use crate::signature::BaseType;
use crate::signature::ClassSignature;
use crate::signature::ClassSigV;
use crate::signature::FieldSignature;
use crate::signature::FieldSigV;
use crate::signature::MethodSignature;
use crate::signature::MethodSigV;
use crate::signature::RefSigV;
use crate::signature::SigResultV;
use crate::signature::TypeParamV;
use crate::signature::TypeSigV;
use crate::signature::class_sig_v;
use crate::signature::field_sig_v;
use crate::signature::method_sig_v;
use crate::signature::sp_class_sig;
use crate::signature::sp_field_sig;
use crate::signature::sp_method_sig;

verus! {

// ---------------------------------------------------------------------------
// The component tree.
// ---------------------------------------------------------------------------
#[derive(Debug, PartialEq, Eq)]
pub struct Component {
    pub minor_version: u16,
    pub major_version: u16,
    pub kind: ComponentKind,
    pub class_file_name: String,
}

#[derive(Debug, PartialEq, Eq)]
pub enum ComponentKind {
    Class(Class),
    Interface(Interface),
    Module(Module),
}

#[derive(Debug, PartialEq, Eq)]
pub struct TyName {
    pub package_name: Option<String>,
    pub name: String,
}

#[derive(Debug, PartialEq, Eq)]
pub enum Ty {
    Prim(PrimTy),
    Reference(TyName),
    TyVar(String),
    Array(Box<Ty>, usize),
    Void,
}

#[derive(Debug, Clone, Copy, PartialEq, Eq, Structural)]
pub enum PrimTy {
    Byte,
    Char,
    Double,
    Float,
    Int,
    Long,
    Short,
    Boolean,
    Void,
}

#[derive(Debug, PartialEq, Eq)]
pub struct Class {
    pub qualified_name: String,
    pub super_class: Option<String>,
    pub interfaces: Vec<String>,
    pub signature: Option<ClassSignature>,
    pub methods: Vec<Method>,
    pub fields: Vec<Field>,
    pub annotations: Vec<Annotation>,
}

#[derive(Debug, PartialEq, Eq)]
pub struct Method {
    pub name: String,
    pub signature: Option<MethodSignature>,
    pub modifiers: String,
    pub param_tys: Vec<Ty>,
    pub ret_ty: Ty,
    pub type_params: Vec<String>,
    pub annotations: Vec<Annotation>,
}

#[derive(Debug, PartialEq, Eq)]
pub struct Field {
    pub name: String,
    pub ty: Ty,
    pub signature: Option<FieldSignature>,
    pub modifiers: String,
    pub annotations: Vec<Annotation>,
}

#[derive(Debug, PartialEq, Eq)]
pub struct Interface {
    pub is_annotation: bool,
    pub qualified_name: String,
    pub interfaces: Vec<String>,
    pub signature: Option<ClassSignature>,
    pub methods: Vec<Method>,
    pub fields: Vec<Field>,
    pub annotations: Vec<Annotation>,
}

#[derive(Debug, PartialEq, Eq)]
pub struct Module {
    pub name: String,
    pub version: String,
}

#[derive(Debug, PartialEq, Eq)]
pub struct Annotation {
    pub kind: AnnotationKind,
    pub ty: Ty,
}

#[derive(Debug, Clone, Copy, PartialEq, Eq, Structural)]
pub enum AnnotationKind {
    RuntimeInvisible,
    RuntimeVisible,
    RuntimeInvisibleParameter,
    RuntimeVisibleParameter,
    RuntimeInvisibleType,
    RuntimeVisibleType,
}

/// The access-modifier classes a member can fall in.
#[derive(Debug, Clone, Copy, PartialEq, Eq, Structural)]
pub struct AccessModifier {
    pub bits: u16,
}

impl AccessModifier {
    pub const PRIVATE: u16 = 0x0001;

    pub const PROTECTED: u16 = 0x0002;

    pub const PUBLIC: u16 = 0x0004;

    pub const DEFAULT: u16 = 0x0008;

    pub fn contains(&self, mask: u16) -> (r: bool)
        ensures
            r == crate::class_file::has_flags(self.bits, mask),
    {
        self.bits & mask == mask
    }

    pub fn is_empty(&self) -> (r: bool)
        ensures
            r == (self.bits == 0),
    {
        self.bits == 0
    }

    pub fn empty() -> (r: AccessModifier)
        ensures
            r.bits == 0,
    {
        AccessModifier { bits: 0 }
    }
}

/// What the extractor is asked to keep: when the set is empty no member is
/// filtered, otherwise only members whose classification intersects it stay.
#[derive(Debug, PartialEq, Eq)]
pub struct ExtractorContext {
    pub target_access_modifiers: AccessModifier,
}

// ---------------------------------------------------------------------------
// Mathematical mirrors.
// ---------------------------------------------------------------------------
pub struct TyNameV {
    pub package_name: Option<Seq<char>>,
    pub name: Seq<char>,
}

pub enum TyV {
    Prim(PrimTy),
    Reference(TyNameV),
    TyVar(Seq<char>),
    Array(Box<TyV>, nat),
    Void,
}

pub struct CAnnotationV {
    pub kind: AnnotationKind,
    pub ty: TyV,
}

pub struct MethodV {
    pub name: Seq<char>,
    pub signature: Option<MethodSigV>,
    pub modifiers: Seq<char>,
    pub param_tys: Seq<TyV>,
    pub ret_ty: TyV,
    pub type_params: Seq<Seq<char>>,
    pub annotations: Seq<CAnnotationV>,
}

pub struct FieldV {
    pub name: Seq<char>,
    pub ty: TyV,
    pub signature: Option<FieldSigV>,
    pub modifiers: Seq<char>,
    pub annotations: Seq<CAnnotationV>,
}

pub struct ClassV {
    pub qualified_name: Seq<char>,
    pub super_class: Option<Seq<char>>,
    pub interfaces: Seq<Seq<char>>,
    pub signature: Option<ClassSigV>,
    pub methods: Seq<MethodV>,
    pub fields: Seq<FieldV>,
    pub annotations: Seq<CAnnotationV>,
}

pub struct InterfaceV {
    pub is_annotation: bool,
    pub qualified_name: Seq<char>,
    pub interfaces: Seq<Seq<char>>,
    pub signature: Option<ClassSigV>,
    pub methods: Seq<MethodV>,
    pub fields: Seq<FieldV>,
    pub annotations: Seq<CAnnotationV>,
}

pub struct ModuleV {
    pub name: Seq<char>,
    pub version: Seq<char>,
}

pub enum ComponentKindV {
    Class(ClassV),
    Interface(InterfaceV),
    Module(ModuleV),
}

pub struct ComponentV {
    pub minor_version: u16,
    pub major_version: u16,
    pub kind: ComponentKindV,
    pub class_file_name: Seq<char>,
}

pub open spec fn ty_v(t: Ty) -> TyV
    decreases t,
{
    match t {
        Ty::Prim(p) => TyV::Prim(p),
        Ty::Reference(n) => TyV::Reference(
            TyNameV {
                package_name: match n.package_name {
                    Some(p) => Some(p@),
                    None => None,
                },
                name: n.name@,
            },
        ),
        Ty::TyVar(s) => TyV::TyVar(s@),
        Ty::Array(inner, dims) => TyV::Array(Box::new(ty_v(*inner)), dims as nat),
        Ty::Void => TyV::Void,
    }
}

pub open spec fn tys_v(v: Seq<Ty>) -> Seq<TyV> {
    v.map_values(|t: Ty| ty_v(t))
}

pub open spec fn c_annotation_v(a: Annotation) -> CAnnotationV {
    CAnnotationV { kind: a.kind, ty: ty_v(a.ty) }
}

pub open spec fn c_annotations_v(v: Seq<Annotation>) -> Seq<CAnnotationV> {
    v.map_values(|a: Annotation| c_annotation_v(a))
}

pub open spec fn strings_v(v: Seq<String>) -> Seq<Seq<char>> {
    v.map_values(|s: String| s@)
}

pub open spec fn opt_method_sig_v(o: Option<MethodSignature>) -> Option<MethodSigV> {
    match o {
        Some(m) => Some(method_sig_v(m)),
        None => None,
    }
}

pub open spec fn opt_field_sig_v(o: Option<FieldSignature>) -> Option<FieldSigV> {
    match o {
        Some(f) => Some(field_sig_v(f)),
        None => None,
    }
}

pub open spec fn opt_class_sig_v(o: Option<ClassSignature>) -> Option<ClassSigV> {
    match o {
        Some(c) => Some(class_sig_v(c)),
        None => None,
    }
}

pub open spec fn method_v(m: Method) -> MethodV {
    MethodV {
        name: m.name@,
        signature: opt_method_sig_v(m.signature),
        modifiers: m.modifiers@,
        param_tys: tys_v(m.param_tys@),
        ret_ty: ty_v(m.ret_ty),
        type_params: strings_v(m.type_params@),
        annotations: c_annotations_v(m.annotations@),
    }
}

pub open spec fn comp_methods_v(v: Seq<Method>) -> Seq<MethodV> {
    v.map_values(|m: Method| method_v(m))
}

pub open spec fn field_v(f: Field) -> FieldV {
    FieldV {
        name: f.name@,
        ty: ty_v(f.ty),
        signature: opt_field_sig_v(f.signature),
        modifiers: f.modifiers@,
        annotations: c_annotations_v(f.annotations@),
    }
}

pub open spec fn comp_fields_v(v: Seq<Field>) -> Seq<FieldV> {
    v.map_values(|f: Field| field_v(f))
}

pub open spec fn opt_string_v(o: Option<String>) -> Option<Seq<char>> {
    match o {
        Some(s) => Some(s@),
        None => None,
    }
}

pub open spec fn component_kind_v(k: ComponentKind) -> ComponentKindV {
    match k {
        ComponentKind::Class(c) => ComponentKindV::Class(
            ClassV {
                qualified_name: c.qualified_name@,
                super_class: opt_string_v(c.super_class),
                interfaces: strings_v(c.interfaces@),
                signature: opt_class_sig_v(c.signature),
                methods: comp_methods_v(c.methods@),
                fields: comp_fields_v(c.fields@),
                annotations: c_annotations_v(c.annotations@),
            },
        ),
        ComponentKind::Interface(i) => ComponentKindV::Interface(
            InterfaceV {
                is_annotation: i.is_annotation,
                qualified_name: i.qualified_name@,
                interfaces: strings_v(i.interfaces@),
                signature: opt_class_sig_v(i.signature),
                methods: comp_methods_v(i.methods@),
                fields: comp_fields_v(i.fields@),
                annotations: c_annotations_v(i.annotations@),
            },
        ),
        ComponentKind::Module(m) => ComponentKindV::Module(
            ModuleV { name: m.name@, version: m.version@ },
        ),
    }
}

pub open spec fn component_v(c: Component) -> ComponentV {
    ComponentV {
        minor_version: c.minor_version,
        major_version: c.major_version,
        kind: component_kind_v(c.kind),
        class_file_name: c.class_file_name@,
    }
}

// ---------------------------------------------------------------------------
// The extraction pipeline as spec functions.
// ---------------------------------------------------------------------------
/// Internal names use `/` as the package separator; qualified names use `.`.
pub open spec fn dots(s: Seq<char>) -> Seq<char> {
    s.map_values(
        |c: char|
            if c == '/' {
                '.'
            } else {
                c
            },
    )
}

/// The access classification of a member: `PUBLIC`, else `PROTECTED`, else
/// `PRIVATE`, else package-private (`DEFAULT`).
pub open spec fn classify_bits(bits: u16) -> u16 {
    if bits & 0x0001 == 0x0001 {
        AccessModifier::PUBLIC
    } else if bits & 0x0004 == 0x0004 {
        AccessModifier::PROTECTED
    } else if bits & 0x0002 == 0x0002 {
        AccessModifier::PRIVATE
    } else {
        AccessModifier::DEFAULT
    }
}

/// A member is filtered out exactly when the target set is non-empty and does
/// not contain the member's classification.
pub open spec fn skippable(target: u16, member_bits: u16) -> bool {
    target != 0 && !(target & classify_bits(member_bits) == classify_bits(member_bits))
}

/// The `Class` entry's name at a pool slot, when the slot holds one.
pub open spec fn cp_class_name_at(pool: Seq<Option<CpInfoV>>, idx: u16) -> Option<Seq<char>> {
    if 0 < idx && (idx as int) < pool.len() {
        match pool[idx as int] {
            Some(CpInfoV::Class { name_index }) => cp_utf8_at(pool, name_index),
            _ => None,
        }
    } else {
        None
    }
}

/// The source-file name: the last `SourceFile` attribute whose index
/// resolves to a `Utf8` entry.
pub open spec fn sp_source_file(attrs: Seq<AttributeInfoV>, pool: Seq<Option<CpInfoV>>) -> Option<
    Seq<char>,
>
    decreases attrs.len(),
{
    if attrs.len() == 0 {
        None
    } else {
        let rest = sp_source_file(attrs.drop_last(), pool);
        match attrs.last().kind {
            AttributeKindV::SourceFile { sourcefile_index } => match cp_utf8_at(
                pool,
                sourcefile_index,
            ) {
                Some(name) => Some(name),
                None => rest,
            },
            _ => rest,
        }
    }
}

/// The index carried by the first `Signature` attribute, if any.
pub open spec fn sp_first_signature(attrs: Seq<AttributeInfoV>) -> Option<u16>
    decreases attrs.len(),
{
    if attrs.len() == 0 {
        None
    } else {
        match attrs[0].kind {
            AttributeKindV::Signature { signature_index } => Some(signature_index),
            _ => sp_first_signature(attrs.drop_first()),
        }
    }
}

/// The index carried by the first `Module` attribute, if any.
pub open spec fn sp_first_module(attrs: Seq<AttributeInfoV>) -> Option<(u16, u16)>
    decreases attrs.len(),
{
    if attrs.len() == 0 {
        None
    } else {
        match attrs[0].kind {
            AttributeKindV::Module { module_name_index, module_version_index, .. } => Some(
                (module_name_index, module_version_index),
            ),
            _ => sp_first_module(attrs.drop_first()),
        }
    }
}

pub open spec fn ty_of_base(b: BaseTy) -> TyV {
    match b {
        BaseTy::Boolean => TyV::Prim(PrimTy::Boolean),
        BaseTy::Byte => TyV::Prim(PrimTy::Byte),
        BaseTy::Char => TyV::Prim(PrimTy::Char),
        BaseTy::Double => TyV::Prim(PrimTy::Double),
        BaseTy::Float => TyV::Prim(PrimTy::Float),
        BaseTy::Int => TyV::Prim(PrimTy::Int),
        BaseTy::Long => TyV::Prim(PrimTy::Long),
        BaseTy::Short => TyV::Prim(PrimTy::Short),
        BaseTy::Void => TyV::Prim(PrimTy::Void),
    }
}

/// A descriptor type as a component type: objects keep their internal name
/// with no package split; arrays keep their dimension count.
pub open spec fn ty_of_field_ty(t: FieldTyV) -> TyV
    decreases t,
{
    match t {
        FieldTyV::Base(b) => ty_of_base(b),
        FieldTyV::Obj(name) => TyV::Reference(TyNameV { package_name: None, name }),
        FieldTyV::Array(inner, dims) => TyV::Array(Box::new(ty_of_field_ty(*inner)), dims),
    }
}

/// One more array dimension; the count saturates at the pointer width,
/// which no representable signature can reach.
pub open spec fn bump_dims(d: nat) -> nat {
    if d < usize::MAX as nat {
        d + 1
    } else {
        d
    }
}

pub open spec fn ty_of_base_type(b: BaseType) -> TyV {
    match b {
        BaseType::Byte => TyV::Prim(PrimTy::Byte),
        BaseType::Char => TyV::Prim(PrimTy::Char),
        BaseType::Double => TyV::Prim(PrimTy::Double),
        BaseType::Float => TyV::Prim(PrimTy::Float),
        BaseType::Int => TyV::Prim(PrimTy::Int),
        BaseType::Long => TyV::Prim(PrimTy::Long),
        BaseType::Short => TyV::Prim(PrimTy::Short),
        BaseType::Boolean => TyV::Prim(PrimTy::Boolean),
    }
}

/// A signature reference type as a component type: nested array signatures
/// collapse into one `Array` node with a dimension count.
pub open spec fn ty_of_ref_sig(r: RefSigV) -> TyV
    decreases r,
{
    match r {
        RefSigV::Class(c) => TyV::Reference(
            TyNameV { package_name: c.package_specifier, name: c.simple.identifier },
        ),
        RefSigV::TypeVariable(id) => TyV::TyVar(id),
        RefSigV::Array(inner) => match ty_of_type_sig(*inner) {
            TyV::Array(t, d) => TyV::Array(t, bump_dims(d)),
            other => TyV::Array(Box::new(other), 1nat),
        },
    }
}

pub open spec fn ty_of_type_sig(t: TypeSigV) -> TyV
    decreases t,
{
    match t {
        TypeSigV::Base(b) => ty_of_base_type(b),
        TypeSigV::Reference(r) => ty_of_ref_sig(r),
    }
}

pub open spec fn ret_ty_of_desc(m: MethodDescV) -> TyV {
    match m.ret {
        RetDescV::TyDesc(d) => ty_of_field_ty(d.ty),
        RetDescV::Void => TyV::Void,
    }
}

pub open spec fn tys_of_desc_list(ds: Seq<crate::descriptor::FieldDescV>, k: int) -> Seq<TyV>
    decreases ds.len() - k,
{
    if k >= ds.len() || k < 0 {
        Seq::empty()
    } else {
        seq![ty_of_field_ty(ds[k].ty)] + tys_of_desc_list(ds, k + 1)
    }
}

pub open spec fn param_tys_of_desc(m: MethodDescV) -> Seq<TyV> {
    tys_of_desc_list(m.params, 0)
}

pub open spec fn ret_ty_of_sig(m: MethodSigV) -> TyV {
    match m.result {
        SigResultV::JavaTypeSignature(t) => ty_of_type_sig(t),
        SigResultV::VoidDescriptor => TyV::Void,
    }
}

pub open spec fn tys_of_sig_list(ts: Seq<TypeSigV>, k: int) -> Seq<TyV>
    decreases ts.len() - k,
{
    if k >= ts.len() || k < 0 {
        Seq::empty()
    } else {
        seq![ty_of_type_sig(ts[k])] + tys_of_sig_list(ts, k + 1)
    }
}

pub open spec fn param_tys_of_sig(m: MethodSigV) -> Seq<TyV> {
    tys_of_sig_list(m.parameters, 0)
}

pub open spec fn idents_of_params(ps: Seq<TypeParamV>, k: int) -> Seq<Seq<char>>
    decreases ps.len() - k,
{
    if k >= ps.len() || k < 0 {
        Seq::empty()
    } else {
        seq![ps[k].identifier] + idents_of_params(ps, k + 1)
    }
}

pub open spec fn type_params_of_sig(m: MethodSigV) -> Seq<Seq<char>> {
    match m.type_parameters {
        Some(ps) => idents_of_params(ps, 0),
        None => Seq::empty(),
    }
}

/// One annotation entry: its `type_index` must resolve to a `Utf8` field
/// descriptor, which converts to the annotation's type.
pub open spec fn sp_one_annotation(
    pool: Seq<Option<CpInfoV>>,
    type_index: u16,
    kind: AnnotationKind,
) -> Result<CAnnotationV, Error> {
    match cp_utf8_at(pool, type_index) {
        Some(text) => match sp_parse_field_ty(text, 0) {
            Some((t, _)) => Ok(CAnnotationV { kind, ty: ty_of_field_ty(t) }),
            None => Err(Error::BadDescriptor),
        },
        None => Err(Error::BadIndex { site: IndexSite::AnnotationType, index: type_index }),
    }
}

pub open spec fn sp_anns_list(
    pool: Seq<Option<CpInfoV>>,
    anns: Seq<crate::class_file::AnnotationV>,
    k: int,
    kind: AnnotationKind,
) -> Result<Seq<CAnnotationV>, Error>
    decreases anns.len() - k,
{
    if k >= anns.len() || k < 0 {
        Ok(Seq::empty())
    } else {
        match sp_one_annotation(pool, anns[k].type_index, kind) {
            Ok(a) => match sp_anns_list(pool, anns, k + 1, kind) {
                Ok(rest) => Ok(seq![a] + rest),
                Err(e) => Err(e),
            },
            Err(e) => Err(e),
        }
    }
}

pub open spec fn sp_anns_params(
    pool: Seq<Option<CpInfoV>>,
    pas: Seq<ParameterAnnotationV>,
    k: int,
    kind: AnnotationKind,
) -> Result<Seq<CAnnotationV>, Error>
    decreases pas.len() - k,
{
    if k >= pas.len() || k < 0 {
        Ok(Seq::empty())
    } else {
        match sp_anns_list(pool, pas[k].annotations, 0, kind) {
            Ok(here) => match sp_anns_params(pool, pas, k + 1, kind) {
                Ok(rest) => Ok(here + rest),
                Err(e) => Err(e),
            },
            Err(e) => Err(e),
        }
    }
}

pub open spec fn sp_anns_types(
    pool: Seq<Option<CpInfoV>>,
    tas: Seq<TypeAnnotationV>,
    k: int,
    kind: AnnotationKind,
) -> Result<Seq<CAnnotationV>, Error>
    decreases tas.len() - k,
{
    if k >= tas.len() || k < 0 {
        Ok(Seq::empty())
    } else {
        match sp_one_annotation(pool, tas[k].type_index, kind) {
            Ok(a) => match sp_anns_types(pool, tas, k + 1, kind) {
                Ok(rest) => Ok(seq![a] + rest),
                Err(e) => Err(e),
            },
            Err(e) => Err(e),
        }
    }
}

/// All annotations carried by an attribute list, in attribute order, each
/// tagged with one of the six annotation kinds.
pub open spec fn sp_annotations_of(
    pool: Seq<Option<CpInfoV>>,
    attrs: Seq<AttributeInfoV>,
    k: int,
) -> Result<Seq<CAnnotationV>, Error>
    decreases attrs.len() - k,
{
    if k >= attrs.len() || k < 0 {
        Ok(Seq::empty())
    } else {
        let here: Result<Seq<CAnnotationV>, Error> = match attrs[k].kind {
            AttributeKindV::RuntimeVisibleAnnotations { annotations, .. } => sp_anns_list(
                pool,
                annotations,
                0,
                AnnotationKind::RuntimeVisible,
            ),
            AttributeKindV::RuntimeInvisibleAnnotations { annotations, .. } => sp_anns_list(
                pool,
                annotations,
                0,
                AnnotationKind::RuntimeInvisible,
            ),
            AttributeKindV::RuntimeVisibleParameterAnnotations {
                parameter_annotations,
                ..
            } => sp_anns_params(pool, parameter_annotations, 0, AnnotationKind::RuntimeVisibleParameter),
            AttributeKindV::RuntimeInvisibleParameterAnnotations {
                parameter_annotations,
                ..
            } => sp_anns_params(
                pool,
                parameter_annotations,
                0,
                AnnotationKind::RuntimeInvisibleParameter,
            ),
            AttributeKindV::RuntimeVisibleTypeAnnotations { type_annotations, .. } => sp_anns_types(
                pool,
                type_annotations,
                0,
                AnnotationKind::RuntimeVisibleType,
            ),
            AttributeKindV::RuntimeInvisibleTypeAnnotations {
                type_annotations,
                ..
            } => sp_anns_types(pool, type_annotations, 0, AnnotationKind::RuntimeInvisibleType),
            _ => Ok(Seq::empty()),
        };
        match here {
            Ok(hs) => match sp_annotations_of(pool, attrs, k + 1) {
                Ok(rest) => Ok(hs + rest),
                Err(e) => Err(e),
            },
            Err(e) => Err(e),
        }
    }
}

/// One method, unless it is filtered out.
pub open spec fn sp_extract_method(
    pool: Seq<Option<CpInfoV>>,
    m: MethodInfoV,
    target: u16,
) -> Result<Option<MethodV>, Error> {
    if skippable(target, m.access_flags.bits) {
        Ok(None)
    } else {
        match cp_utf8_at(pool, m.name_index) {
            Some(name) => {
                let sig: Result<Option<MethodSigV>, Error> = match sp_first_signature(m.attributes) {
                    Some(idx) => match cp_utf8_at(pool, idx) {
                        Some(text) => match sp_method_sig(text, 0) {
                            Some((ms, _)) => Ok(Some(ms)),
                            None => Err(Error::BadSignature { offset: 0 }),
                        },
                        None => Err(Error::BadIndex { site: IndexSite::SignatureText, index: idx }),
                    },
                    None => Ok(None),
                };
                match sig {
                    Ok(sig) => match cp_utf8_at(pool, m.descriptor_index) {
                        Some(desc_text) => match sp_parse_method_desc(desc_text) {
                            Some(md) => match sp_annotations_of(pool, m.attributes, 0) {
                                Ok(anns) => Ok(
                                    Some(
                                        MethodV {
                                            name,
                                            signature: sig,
                                            modifiers: Seq::empty(),
                                            param_tys: match sig {
                                                Some(ms) => param_tys_of_sig(ms),
                                                None => param_tys_of_desc(md),
                                            },
                                            ret_ty: match sig {
                                                Some(ms) => ret_ty_of_sig(ms),
                                                None => ret_ty_of_desc(md),
                                            },
                                            type_params: match sig {
                                                Some(ms) => type_params_of_sig(ms),
                                                None => Seq::empty(),
                                            },
                                            annotations: anns,
                                        },
                                    ),
                                ),
                                Err(e) => Err(e),
                            },
                            None => Err(Error::BadDescriptor),
                        },
                        None => Err(
                            Error::BadIndex {
                                site: IndexSite::MemberDescriptor,
                                index: m.descriptor_index,
                            },
                        ),
                    },
                    Err(e) => Err(e),
                }
            },
            None => Err(Error::BadIndex { site: IndexSite::MemberName, index: m.name_index }),
        }
    }
}

pub open spec fn sp_extract_methods(
    pool: Seq<Option<CpInfoV>>,
    ms: Seq<MethodInfoV>,
    k: int,
    target: u16,
) -> Result<Seq<MethodV>, Error>
    decreases ms.len() - k,
{
    if k >= ms.len() || k < 0 {
        Ok(Seq::empty())
    } else {
        match sp_extract_method(pool, ms[k], target) {
            Ok(here) => match sp_extract_methods(pool, ms, k + 1, target) {
                Ok(rest) => Ok(
                    (match here {
                        Some(m) => seq![m],
                        None => Seq::empty(),
                    }) + rest,
                ),
                Err(e) => Err(e),
            },
            Err(e) => Err(e),
        }
    }
}

/// One field, unless it is filtered out.
pub open spec fn sp_extract_field(
    pool: Seq<Option<CpInfoV>>,
    f: FieldInfoV,
    target: u16,
) -> Result<Option<FieldV>, Error> {
    if skippable(target, f.access_flags.bits) {
        Ok(None)
    } else {
        match cp_utf8_at(pool, f.name_index) {
            Some(name) => match cp_utf8_at(pool, f.descriptor_index) {
                Some(desc_text) => match sp_parse_field_ty(desc_text, 0) {
                    Some((dt, _)) => {
                        let sig: Result<Option<FieldSigV>, Error> = match sp_first_signature(
                            f.attributes,
                        ) {
                            Some(idx) => match cp_utf8_at(pool, idx) {
                                Some(text) => match sp_field_sig(text, 0) {
                                    Some((fs, _)) => Ok(Some(fs)),
                                    None => Err(Error::BadSignature { offset: 0 }),
                                },
                                None => Err(
                                    Error::BadIndex { site: IndexSite::SignatureText, index: idx },
                                ),
                            },
                            None => Ok(None),
                        };
                        match sig {
                            Ok(sig) => match sp_annotations_of(pool, f.attributes, 0) {
                                Ok(anns) => Ok(
                                    Some(
                                        FieldV {
                                            name,
                                            ty: match sig {
                                                Some(fs) => ty_of_ref_sig(
                                                    fs.reference_type_signature,
                                                ),
                                                None => ty_of_field_ty(dt),
                                            },
                                            signature: sig,
                                            modifiers: Seq::empty(),
                                            annotations: anns,
                                        },
                                    ),
                                ),
                                Err(e) => Err(e),
                            },
                            Err(e) => Err(e),
                        }
                    },
                    None => Err(Error::BadDescriptor),
                },
                None => Err(
                    Error::BadIndex {
                        site: IndexSite::MemberDescriptor,
                        index: f.descriptor_index,
                    },
                ),
            },
            None => Err(Error::BadIndex { site: IndexSite::MemberName, index: f.name_index }),
        }
    }
}

pub open spec fn sp_extract_fields(
    pool: Seq<Option<CpInfoV>>,
    fs: Seq<FieldInfoV>,
    k: int,
    target: u16,
) -> Result<Seq<FieldV>, Error>
    decreases fs.len() - k,
{
    if k >= fs.len() || k < 0 {
        Ok(Seq::empty())
    } else {
        match sp_extract_field(pool, fs[k], target) {
            Ok(here) => match sp_extract_fields(pool, fs, k + 1, target) {
                Ok(rest) => Ok(
                    (match here {
                        Some(f) => seq![f],
                        None => Seq::empty(),
                    }) + rest,
                ),
                Err(e) => Err(e),
            },
            Err(e) => Err(e),
        }
    }
}

/// The implemented interfaces: each index resolves through `Class` to a
/// `Utf8` internal name, converted to dotted form.
pub open spec fn sp_extract_interfaces(
    pool: Seq<Option<CpInfoV>>,
    idxs: Seq<u16>,
    k: int,
) -> Result<Seq<Seq<char>>, Error>
    decreases idxs.len() - k,
{
    if k >= idxs.len() || k < 0 {
        Ok(Seq::empty())
    } else {
        match cp_class_name_at(pool, idxs[k]) {
            Some(name) => match sp_extract_interfaces(pool, idxs, k + 1) {
                Ok(rest) => Ok(seq![dots(name)] + rest),
                Err(e) => Err(e),
            },
            None => Err(Error::BadIndex { site: IndexSite::Interface, index: idxs[k] }),
        }
    }
}

/// The superclass in dotted form: index 0 is allowed only for
/// `java/lang/Object` itself; a resolved `java.lang.Object`, or a `Class`
/// entry whose name index is 0, counts as "no superclass".
pub open spec fn sp_extract_super(cf: ClassFileV, raw_name: Seq<char>) -> Result<
    Option<Seq<char>>,
    Error,
> {
    if cf.super_class == 0 {
        if raw_name == "java/lang/Object"@ {
            Ok(None)
        } else {
            Err(Error::BadStructure)
        }
    } else {
        if 0 < cf.super_class && (cf.super_class as int) < cf.constant_pool.len() {
            match cf.constant_pool[cf.super_class as int] {
                Some(CpInfoV::Class { name_index }) => if name_index != 0 {
                    match cp_utf8_at(cf.constant_pool, name_index) {
                        Some(name) => if dots(name) == "java.lang.Object"@ {
                            Ok(None)
                        } else {
                            Ok(Some(dots(name)))
                        },
                        None => Err(
                            Error::BadIndex { site: IndexSite::SuperClass, index: name_index },
                        ),
                    }
                } else {
                    Ok(None)
                },
                _ => Err(Error::BadIndex { site: IndexSite::SuperClass, index: cf.super_class }),
            }
        } else {
            Err(Error::BadIndex { site: IndexSite::SuperClass, index: cf.super_class })
        }
    }
}

/// The class signature attached at class level, parsed, if present.
pub open spec fn sp_extract_class_sig(cf: ClassFileV) -> Result<Option<ClassSigV>, Error> {
    match sp_first_signature(cf.attributes) {
        Some(idx) => match cp_utf8_at(cf.constant_pool, idx) {
            Some(text) => match sp_class_sig(text, 0) {
                Some((cs, _)) => Ok(Some(cs)),
                None => Err(Error::BadSignature { offset: 0 }),
            },
            None => Err(Error::BadIndex { site: IndexSite::SignatureText, index: idx }),
        },
        None => Ok(None),
    }
}

/// A class or interface component. Interfaces must have no superclass other
/// than `java.lang.Object`.
pub open spec fn sp_extract_class_kind(
    cf: ClassFileV,
    target: u16,
    is_interface: bool,
    is_annotation: bool,
) -> Result<ComponentKindV, Error> {
    match cp_class_name_at(cf.constant_pool, cf.this_class) {
        Some(raw_name) => match sp_extract_super(cf, raw_name) {
            Ok(super_class) => match sp_extract_class_sig(cf) {
                Ok(signature) => match sp_extract_interfaces(cf.constant_pool, cf.interfaces, 0) {
                    Ok(interfaces) => match sp_extract_methods(cf.constant_pool, cf.methods, 0, target) {
                        Ok(methods) => match sp_extract_fields(cf.constant_pool, cf.fields, 0, target) {
                            Ok(fields) => match sp_annotations_of(cf.constant_pool, cf.attributes, 0) {
                                Ok(annotations) => if !is_interface {
                                    Ok(
                                        ComponentKindV::Class(
                                            ClassV {
                                                qualified_name: dots(raw_name),
                                                super_class,
                                                interfaces,
                                                signature,
                                                methods,
                                                fields,
                                                annotations,
                                            },
                                        ),
                                    )
                                } else if super_class is Some {
                                    Err(Error::BadStructure)
                                } else {
                                    Ok(
                                        ComponentKindV::Interface(
                                            InterfaceV {
                                                is_annotation,
                                                qualified_name: dots(raw_name),
                                                interfaces,
                                                signature,
                                                methods,
                                                fields,
                                                annotations,
                                            },
                                        ),
                                    )
                                },
                                Err(e) => Err(e),
                            },
                            Err(e) => Err(e),
                        },
                        Err(e) => Err(e),
                    },
                    Err(e) => Err(e),
                },
                Err(e) => Err(e),
            },
            Err(e) => Err(e),
        },
        None => Err(Error::BadIndex { site: IndexSite::ThisClass, index: cf.this_class }),
    }
}

/// A module component: resolved through the `Module` attribute's name and
/// version indices. A missing `Module` attribute is a structural error; a
/// version index of 0 yields the empty version string.
pub open spec fn sp_extract_module_kind(cf: ClassFileV) -> Result<ComponentKindV, Error> {
    match sp_first_module(cf.attributes) {
        Some((name_idx, version_idx)) => {
            let name: Result<Seq<char>, Error> = if 0 < name_idx && (name_idx as int)
                < cf.constant_pool.len() {
                match cf.constant_pool[name_idx as int] {
                    Some(CpInfoV::Module { name_index }) => match cp_utf8_at(
                        cf.constant_pool,
                        name_index,
                    ) {
                        Some(n) => Ok(n),
                        None => Err(Error::BadIndex { site: IndexSite::ModuleName, index: name_index }),
                    },
                    _ => Err(Error::BadIndex { site: IndexSite::ModuleName, index: name_idx }),
                }
            } else {
                Err(Error::BadIndex { site: IndexSite::ModuleName, index: name_idx })
            };
            match name {
                Ok(n) => if version_idx == 0 {
                    Ok(ComponentKindV::Module(ModuleV { name: n, version: Seq::empty() }))
                } else {
                    match cp_utf8_at(cf.constant_pool, version_idx) {
                        Some(v) => Ok(ComponentKindV::Module(ModuleV { name: n, version: v })),
                        None => Err(
                            Error::BadIndex { site: IndexSite::ModuleVersion, index: version_idx },
                        ),
                    }
                },
                Err(e) => Err(e),
            }
        },
        None => Err(Error::BadStructure),
    }
}

/// The whole extraction: dispatch on the class-level access flags, and carry
/// the versions and the source-file name (empty when absent).
pub open spec fn sp_extract_component(cf: ClassFileV, target: u16) -> Result<ComponentV, Error> {
    let kind: Result<ComponentKindV, Error> = if crate::class_file::has_flags(
        cf.access_flags.bits,
        0x0200,
    ) {
        sp_extract_class_kind(
            cf,
            target,
            true,
            crate::class_file::has_flags(cf.access_flags.bits, 0x2000),
        )
    } else if crate::class_file::has_flags(cf.access_flags.bits, 0x8000) {
        sp_extract_module_kind(cf)
    } else {
        sp_extract_class_kind(cf, target, false, false)
    };
    match kind {
        Ok(k) => Ok(
            ComponentV {
                minor_version: cf.minor_version,
                major_version: cf.major_version,
                kind: k,
                class_file_name: match sp_source_file(cf.attributes, cf.constant_pool) {
                    Some(n) => n,
                    None => Seq::empty(),
                },
            },
        ),
        Err(e) => Err(e),
    }
}

/// Errors agree, except that a signature error's offset is not tracked
/// through extraction.
pub open spec fn err_like(e: Error, se: Error) -> bool {
    match se {
        Error::BadSignature { .. } => e is BadSignature,
        _ => e == se,
    }
}


// ---------------------------------------------------------------------------
// The executable extractor.
// ---------------------------------------------------------------------------
/// Convert an internal name (slash-separated) to a dotted qualified name.
fn to_dotted(s: &str) -> (r: String)
    ensures
        r@ == dots(s@),
{
    let len = s.unicode_len();
    let mut out = String::new();
    let mut i: usize = 0;
    while i < len
        invariant
            i <= len,
            len == s@.len(),
            out@ =~= dots(s@.take(i as int)),
        decreases len - i,
    {
        let c = s.get_char(i);
        if c == '/' {
            crate::class_file::push_char(&mut out, '.');
        } else {
            crate::class_file::push_char(&mut out, c);
        }
        proof {
            assert(s@.take(i + 1).drop_last() =~= s@.take(i as int));
            assert(out@ =~= dots(s@.take(i + 1)));
        }
        i = i + 1;
    }
    proof {
        assert(s@.take(len as int) =~= s@);
    }
    out
}

fn clone_opt_string(o: &Option<String>) -> (r: Option<String>)
    ensures
        r == *o,
{
    match o {
        Some(s) => Some(s.clone()),
        None => None,
    }
}

fn ty_from_field_ty(t: &crate::descriptor::FieldTy) -> (r: Ty)
    ensures
        ty_v(r) == ty_of_field_ty(crate::descriptor::field_ty_v(*t)),
    decreases *t,
{
    match t {
        crate::descriptor::FieldTy::Base(b) => match b {
            BaseTy::Boolean => Ty::Prim(PrimTy::Boolean),
            BaseTy::Byte => Ty::Prim(PrimTy::Byte),
            BaseTy::Char => Ty::Prim(PrimTy::Char),
            BaseTy::Double => Ty::Prim(PrimTy::Double),
            BaseTy::Float => Ty::Prim(PrimTy::Float),
            BaseTy::Int => Ty::Prim(PrimTy::Int),
            BaseTy::Long => Ty::Prim(PrimTy::Long),
            BaseTy::Short => Ty::Prim(PrimTy::Short),
            BaseTy::Void => Ty::Prim(PrimTy::Void),
        },
        crate::descriptor::FieldTy::Obj(o) => Ty::Reference(
            TyName { package_name: None, name: o.class_name.clone() },
        ),
        crate::descriptor::FieldTy::Array(a) => Ty::Array(
            Box::new(ty_from_field_ty(&a.ty)),
            a.dims,
        ),
    }
}

fn ty_from_type_sig(t: &crate::signature::TypeSignature) -> (r: Ty)
    ensures
        ty_v(r) == ty_of_type_sig(crate::signature::type_sig_v(*t)),
    decreases *t, 1int,
{
    match t {
        crate::signature::TypeSignature::Base(b) => match b {
            BaseType::Byte => Ty::Prim(PrimTy::Byte),
            BaseType::Char => Ty::Prim(PrimTy::Char),
            BaseType::Double => Ty::Prim(PrimTy::Double),
            BaseType::Float => Ty::Prim(PrimTy::Float),
            BaseType::Int => Ty::Prim(PrimTy::Int),
            BaseType::Long => Ty::Prim(PrimTy::Long),
            BaseType::Short => Ty::Prim(PrimTy::Short),
            BaseType::Boolean => Ty::Prim(PrimTy::Boolean),
        },
        crate::signature::TypeSignature::Reference(r) => ty_from_ref_sig(r),
    }
}

fn ty_from_ref_sig(r: &crate::signature::ReferenceTypeSignature) -> (out: Ty)
    ensures
        ty_v(out) == ty_of_ref_sig(crate::signature::ref_sig_v(*r)),
    decreases *r, 0int,
{
    match r {
        crate::signature::ReferenceTypeSignature::Class(c) => {
            let out2 = Ty::Reference(
                TyName {
                    package_name: clone_opt_string(&c.package_specifier),
                    name: c.simple_class_type_signature.identifier.clone(),
                },
            );
            proof {
                assert(crate::signature::ref_sig_v(*r) == RefSigV::Class(
                    crate::signature::class_type_sig_v(*c),
                ));
                assert(ty_v(out2) == ty_of_ref_sig(crate::signature::ref_sig_v(*r)));
            }
            out2
        },
        crate::signature::ReferenceTypeSignature::TypeVariable(v) => {
            let out2 = Ty::TyVar(v.identifier.clone());
            proof {
                assert(ty_v(out2) == ty_of_ref_sig(crate::signature::ref_sig_v(*r)));
            }
            out2
        },
        crate::signature::ReferenceTypeSignature::Array(a) => {
            let inner = ty_from_type_sig(&a.java_type_signature);
            proof {
                assert(ty_v(inner) == ty_of_type_sig(
                    crate::signature::type_sig_v(*a.java_type_signature),
                ));
            }
            match inner {
                Ty::Array(t, d) => {
                    let nd: usize = if d < usize::MAX {
                        d + 1
                    } else {
                        d
                    };
                    let out2 = Ty::Array(t, nd);
                    proof {
                        assert(ty_v(out2) == ty_of_ref_sig(crate::signature::ref_sig_v(*r)));
                    }
                    out2
                },
                other => {
                    proof {
                        assert(!(ty_v(other) is Array));
                    }
                    Ty::Array(Box::new(other), 1)
                },
            }
        },
    }
}

/// One annotation entry from its `type_index`.
fn one_annotation(
    pool: &Vec<Option<crate::class_file::ConstantPoolInfo>>,
    type_index: u16,
    kind: AnnotationKind,
) -> (r: Result<Annotation, Error>)
    ensures
        match r {
            Ok(a) => sp_one_annotation(crate::class_file::cp_slots_v(pool@), type_index, kind)
                == Ok::<CAnnotationV, Error>(c_annotation_v(a)),
            Err(e) => sp_one_annotation(crate::class_file::cp_slots_v(pool@), type_index, kind)
                == Err::<CAnnotationV, Error>(e),
        },
{
    match crate::class_file::cp_utf8(pool, type_index) {
        Some(text) => match crate::descriptor::parse_field_descriptor(text.as_str()) {
            Ok(fd) => Ok(Annotation { kind, ty: ty_from_field_ty(&fd.ty) }),
            Err(e) => Err(e),
        },
        None => Err(Error::BadIndex { site: IndexSite::AnnotationType, index: type_index }),
    }
}

fn anns_from_list(
    pool: &Vec<Option<crate::class_file::ConstantPoolInfo>>,
    anns: &Vec<crate::class_file::Annotation>,
    k: usize,
    kind: AnnotationKind,
) -> (r: Result<Vec<Annotation>, Error>)
    requires
        k <= anns@.len(),
    ensures
        match r {
            Ok(v) => sp_anns_list(
                crate::class_file::cp_slots_v(pool@),
                crate::class_file::annotations_v(anns@),
                k as int,
                kind,
            ) == Ok::<Seq<CAnnotationV>, Error>(c_annotations_v(v@)),
            Err(e) => sp_anns_list(
                crate::class_file::cp_slots_v(pool@),
                crate::class_file::annotations_v(anns@),
                k as int,
                kind,
            ) == Err::<Seq<CAnnotationV>, Error>(e),
        },
    decreases anns@.len() - k,
{
    proof {
        crate::class_file::lemma_annotations_v_index(anns@);
    }
    if k >= anns.len() {
        let v: Vec<Annotation> = Vec::new();
        proof {
            assert(c_annotations_v(v@) =~= Seq::<CAnnotationV>::empty());
        }
        return Ok(v);
    }
    match one_annotation(pool, anns[k].type_index, kind) {
        Ok(a) => match anns_from_list(pool, anns, k + 1, kind) {
            Ok(mut rest) => {
                let ghost rest0 = rest@;
                let ghost a0 = a;
                let mut v: Vec<Annotation> = Vec::new();
                v.push(a);
                v.append(&mut rest);
                proof {
                    assert(v@ =~= seq![a0] + rest0);
                    assert(c_annotations_v(v@) =~= seq![c_annotation_v(a0)] + c_annotations_v(
                        rest0,
                    ));
                }
                Ok(v)
            },
            Err(e) => Err(e),
        },
        Err(e) => Err(e),
    }
}

fn anns_from_params(
    pool: &Vec<Option<crate::class_file::ConstantPoolInfo>>,
    pas: &Vec<crate::class_file::ParameterAnnotation>,
    k: usize,
    kind: AnnotationKind,
) -> (r: Result<Vec<Annotation>, Error>)
    requires
        k <= pas@.len(),
    ensures
        match r {
            Ok(v) => sp_anns_params(
                crate::class_file::cp_slots_v(pool@),
                crate::class_file::param_annotations_v(pas@),
                k as int,
                kind,
            ) == Ok::<Seq<CAnnotationV>, Error>(c_annotations_v(v@)),
            Err(e) => sp_anns_params(
                crate::class_file::cp_slots_v(pool@),
                crate::class_file::param_annotations_v(pas@),
                k as int,
                kind,
            ) == Err::<Seq<CAnnotationV>, Error>(e),
        },
    decreases pas@.len() - k,
{
    proof {
        crate::class_file::lemma_param_annotations_v_index(pas@);
    }
    if k >= pas.len() {
        let v: Vec<Annotation> = Vec::new();
        proof {
            assert(c_annotations_v(v@) =~= Seq::<CAnnotationV>::empty());
        }
        return Ok(v);
    }
    match anns_from_list(pool, &pas[k].annotations, 0, kind) {
        Ok(mut here) => match anns_from_params(pool, pas, k + 1, kind) {
            Ok(mut rest) => {
                let ghost here0 = here@;
                let ghost rest0 = rest@;
                here.append(&mut rest);
                proof {
                    assert(here@ =~= here0 + rest0);
                    assert(c_annotations_v(here@) =~= c_annotations_v(here0) + c_annotations_v(
                        rest0,
                    ));
                }
                Ok(here)
            },
            Err(e) => Err(e),
        },
        Err(e) => Err(e),
    }
}

fn anns_from_types(
    pool: &Vec<Option<crate::class_file::ConstantPoolInfo>>,
    tas: &Vec<crate::class_file::TypeAnnotation>,
    k: usize,
    kind: AnnotationKind,
) -> (r: Result<Vec<Annotation>, Error>)
    requires
        k <= tas@.len(),
    ensures
        match r {
            Ok(v) => sp_anns_types(
                crate::class_file::cp_slots_v(pool@),
                crate::class_file::type_annotations_v(tas@),
                k as int,
                kind,
            ) == Ok::<Seq<CAnnotationV>, Error>(c_annotations_v(v@)),
            Err(e) => sp_anns_types(
                crate::class_file::cp_slots_v(pool@),
                crate::class_file::type_annotations_v(tas@),
                k as int,
                kind,
            ) == Err::<Seq<CAnnotationV>, Error>(e),
        },
    decreases tas@.len() - k,
{
    proof {
        crate::class_file::lemma_type_annotations_v_index(tas@);
    }
    if k >= tas.len() {
        let v: Vec<Annotation> = Vec::new();
        proof {
            assert(c_annotations_v(v@) =~= Seq::<CAnnotationV>::empty());
        }
        return Ok(v);
    }
    match one_annotation(pool, tas[k].type_index, kind) {
        Ok(a) => match anns_from_types(pool, tas, k + 1, kind) {
            Ok(mut rest) => {
                let ghost rest0 = rest@;
                let ghost a0 = a;
                let mut v: Vec<Annotation> = Vec::new();
                v.push(a);
                v.append(&mut rest);
                proof {
                    assert(v@ =~= seq![a0] + rest0);
                    assert(c_annotations_v(v@) =~= seq![c_annotation_v(a0)] + c_annotations_v(
                        rest0,
                    ));
                }
                Ok(v)
            },
            Err(e) => Err(e),
        },
        Err(e) => Err(e),
    }
}

fn annotations_of(
    pool: &Vec<Option<crate::class_file::ConstantPoolInfo>>,
    attrs: &Vec<crate::class_file::AttributeInfo>,
    k: usize,
) -> (r: Result<Vec<Annotation>, Error>)
    requires
        k <= attrs@.len(),
    ensures
        match r {
            Ok(v) => sp_annotations_of(
                crate::class_file::cp_slots_v(pool@),
                crate::class_file::attrs_v(attrs@),
                k as int,
            ) == Ok::<Seq<CAnnotationV>, Error>(c_annotations_v(v@)),
            Err(e) => sp_annotations_of(
                crate::class_file::cp_slots_v(pool@),
                crate::class_file::attrs_v(attrs@),
                k as int,
            ) == Err::<Seq<CAnnotationV>, Error>(e),
        },
    decreases attrs@.len() - k,
{
    proof {
        crate::class_file::lemma_attrs_v_index(attrs@);
    }
    if k >= attrs.len() {
        let v: Vec<Annotation> = Vec::new();
        proof {
            assert(c_annotations_v(v@) =~= Seq::<CAnnotationV>::empty());
        }
        return Ok(v);
    }
    let here: Result<Vec<Annotation>, Error> = match &attrs[k].kind {
        AttributeKind::RuntimeVisibleAnnotations { annotations, .. } => anns_from_list(
            pool,
            annotations,
            0,
            AnnotationKind::RuntimeVisible,
        ),
        AttributeKind::RuntimeInvisibleAnnotations { annotations, .. } => anns_from_list(
            pool,
            annotations,
            0,
            AnnotationKind::RuntimeInvisible,
        ),
        AttributeKind::RuntimeVisibleParameterAnnotations {
            parameter_annotations,
            ..
        } => anns_from_params(pool, parameter_annotations, 0, AnnotationKind::RuntimeVisibleParameter),
        AttributeKind::RuntimeInvisibleParameterAnnotations {
            parameter_annotations,
            ..
        } => anns_from_params(
            pool,
            parameter_annotations,
            0,
            AnnotationKind::RuntimeInvisibleParameter,
        ),
        AttributeKind::RuntimeVisibleTypeAnnotations { type_annotations, .. } => anns_from_types(
            pool,
            type_annotations,
            0,
            AnnotationKind::RuntimeVisibleType,
        ),
        AttributeKind::RuntimeInvisibleTypeAnnotations { type_annotations, .. } => anns_from_types(
            pool,
            type_annotations,
            0,
            AnnotationKind::RuntimeInvisibleType,
        ),
        _ => {
            let v: Vec<Annotation> = Vec::new();
            proof {
                assert(c_annotations_v(v@) =~= Seq::<CAnnotationV>::empty());
            }
            Ok(v)
        },
    };
    match here {
        Ok(mut hs) => match annotations_of(pool, attrs, k + 1) {
            Ok(mut rest) => {
                let ghost hs0 = hs@;
                let ghost rest0 = rest@;
                hs.append(&mut rest);
                proof {
                    assert(hs@ =~= hs0 + rest0);
                    assert(c_annotations_v(hs@) =~= c_annotations_v(hs0) + c_annotations_v(rest0));
                }
                Ok(hs)
            },
            Err(e) => Err(e),
        },
        Err(e) => Err(e),
    }
}

/// First `Signature` attribute's index at or after `k`.
fn first_signature_from(attrs: &Vec<crate::class_file::AttributeInfo>, k: usize) -> (r: Option<
    u16,
>)
    requires
        k <= attrs@.len(),
    ensures
        r == sp_first_signature(crate::class_file::attrs_v(attrs@).skip(k as int)),
    decreases attrs@.len() - k,
{
    proof {
        crate::class_file::lemma_attrs_v_index(attrs@);
    }
    if k >= attrs.len() {
        return None;
    }
    let ghost av = crate::class_file::attrs_v(attrs@);
    proof {
        assert(av.skip(k as int).drop_first() =~= av.skip(k + 1));
        assert(av.skip(k as int)[0] == av[k as int]);
    }
    match &attrs[k].kind {
        AttributeKind::Signature { signature_index } => Some(*signature_index),
        _ => first_signature_from(attrs, k + 1),
    }
}

/// First `Module` attribute's name and version indices at or after `k`.
fn first_module_from(attrs: &Vec<crate::class_file::AttributeInfo>, k: usize) -> (r: Option<
    (u16, u16),
>)
    requires
        k <= attrs@.len(),
    ensures
        r == sp_first_module(crate::class_file::attrs_v(attrs@).skip(k as int)),
    decreases attrs@.len() - k,
{
    proof {
        crate::class_file::lemma_attrs_v_index(attrs@);
    }
    if k >= attrs.len() {
        return None;
    }
    let ghost av = crate::class_file::attrs_v(attrs@);
    proof {
        assert(av.skip(k as int).drop_first() =~= av.skip(k + 1));
        assert(av.skip(k as int)[0] == av[k as int]);
    }
    match &attrs[k].kind {
        AttributeKind::Module { module_name_index, module_version_index, .. } => Some(
            (*module_name_index, *module_version_index),
        ),
        _ => first_module_from(attrs, k + 1),
    }
}

/// Last `SourceFile` attribute that resolves, among the first `k` attributes.
fn source_file_upto<'a>(
    pool: &'a Vec<Option<crate::class_file::ConstantPoolInfo>>,
    attrs: &Vec<crate::class_file::AttributeInfo>,
    k: usize,
) -> (r: Option<&'a String>)
    requires
        k <= attrs@.len(),
    ensures
        match r {
            Some(n) => sp_source_file(
                crate::class_file::attrs_v(attrs@).take(k as int),
                crate::class_file::cp_slots_v(pool@),
            ) == Some(n@),
            None => sp_source_file(
                crate::class_file::attrs_v(attrs@).take(k as int),
                crate::class_file::cp_slots_v(pool@),
            ) is None,
        },
    decreases k,
{
    proof {
        crate::class_file::lemma_attrs_v_index(attrs@);
    }
    if k == 0 {
        return None;
    }
    let ghost av = crate::class_file::attrs_v(attrs@);
    proof {
        assert(av.take(k as int).drop_last() =~= av.take(k - 1));
        assert(av.take(k as int).last() == av[k - 1]);
    }
    match &attrs[k - 1].kind {
        AttributeKind::SourceFile { sourcefile_index } => match crate::class_file::cp_utf8(
            pool,
            *sourcefile_index,
        ) {
            Some(n) => Some(n),
            None => source_file_upto(pool, attrs, k - 1),
        },
        _ => source_file_upto(pool, attrs, k - 1),
    }
}

/// Look up a `Class` entry's name text.
fn cp_class_name<'a>(pool: &'a Vec<Option<crate::class_file::ConstantPoolInfo>>, idx: u16) -> (r:
    Option<&'a String>)
    ensures
        match r {
            Some(n) => cp_class_name_at(crate::class_file::cp_slots_v(pool@), idx) == Some(n@),
            None => cp_class_name_at(crate::class_file::cp_slots_v(pool@), idx) is None,
        },
{
    if idx == 0 || idx as usize >= pool.len() {
        return None;
    }
    match &pool[idx as usize] {
        Some(crate::class_file::ConstantPoolInfo::Class { name_index }) => crate::class_file::cp_utf8(
            pool,
            *name_index,
        ),
        _ => None,
    }
}

struct ComponentExtractor<'a, 'b> {
    class_file: &'a ClassFile,
    context: &'b ExtractorContext,
}

impl<'a, 'b> ComponentExtractor<'a, 'b> {
    spec fn cfv(&self) -> ClassFileV {
        class_file_v(*self.class_file)
    }

    spec fn target(&self) -> u16 {
        self.context.target_access_modifiers.bits
    }

    fn is_skippable_field(&self, access_flag: &FieldAccessFlags) -> (r: bool)
        ensures
            r == skippable(self.target(), access_flag.bits),
    {
        if self.context.target_access_modifiers.is_empty() {
            false
        } else {
            let cls: u16 = if access_flag.contains(0x0001) {
                AccessModifier::PUBLIC
            } else if access_flag.contains(0x0004) {
                AccessModifier::PROTECTED
            } else if access_flag.contains(0x0002) {
                AccessModifier::PRIVATE
            } else {
                AccessModifier::DEFAULT
            };
            !self.context.target_access_modifiers.contains(cls)
        }
    }

    fn is_skippable_method(&self, access_flag: &MethodAccessFlags) -> (r: bool)
        ensures
            r == skippable(self.target(), access_flag.bits),
    {
        if self.context.target_access_modifiers.is_empty() {
            false
        } else {
            let cls: u16 = if access_flag.contains(0x0001) {
                AccessModifier::PUBLIC
            } else if access_flag.contains(0x0004) {
                AccessModifier::PROTECTED
            } else if access_flag.contains(0x0002) {
                AccessModifier::PRIVATE
            } else {
                AccessModifier::DEFAULT
            };
            !self.context.target_access_modifiers.contains(cls)
        }
    }

    fn get_source_file_name(&self) -> (r: Option<&'a String>)
        ensures
            match r {
                Some(n) => sp_source_file(self.cfv().attributes, self.cfv().constant_pool) == Some(
                    n@,
                ),
                None => sp_source_file(self.cfv().attributes, self.cfv().constant_pool) is None,
            },
    {
        let n = self.class_file.attributes.len();
        let r = source_file_upto(&self.class_file.constant_pool, &self.class_file.attributes, n);
        proof {
            assert(crate::class_file::attrs_v(self.class_file.attributes@).take(n as int)
                =~= crate::class_file::attrs_v(self.class_file.attributes@)) by {
                crate::class_file::lemma_attrs_v_index(self.class_file.attributes@);
            }
        }
        r
    }

    /// The raw text of the class-level `Signature` attribute, if present.
    fn extract_class_signature(&self) -> (r: Result<Option<&'a String>, Error>)
        ensures
            match r {
                Ok(Some(text)) => {
                    &&& sp_first_signature(self.cfv().attributes) matches Some(idx)
                    &&& cp_utf8_at(self.cfv().constant_pool, sp_first_signature(
                        self.cfv().attributes,
                    ).unwrap()) == Some(text@)
                },
                Ok(None) => sp_first_signature(self.cfv().attributes) is None,
                Err(e) => {
                    &&& sp_first_signature(self.cfv().attributes) matches Some(idx)
                    &&& cp_utf8_at(self.cfv().constant_pool, sp_first_signature(
                        self.cfv().attributes,
                    ).unwrap()) is None
                    &&& e == (Error::BadIndex {
                        site: IndexSite::SignatureText,
                        index: sp_first_signature(self.cfv().attributes).unwrap(),
                    })
                },
            },
    {
        proof {
            assert(crate::class_file::attrs_v(self.class_file.attributes@).skip(0)
                =~= crate::class_file::attrs_v(self.class_file.attributes@));
        }
        match first_signature_from(&self.class_file.attributes, 0) {
            Some(idx) => match crate::class_file::cp_utf8(&self.class_file.constant_pool, idx) {
                Some(text) => Ok(Some(text)),
                None => Err(Error::BadIndex { site: IndexSite::SignatureText, index: idx }),
            },
            None => Ok(None),
        }
    }

    /// The parsed `Signature` attribute of a method, if present.
    fn extract_method_signature(&self, method_info: &crate::class_file::MethodInfo) -> (r: Result<
        Option<MethodSignature>,
        Error,
    >)
        ensures
            ({
                let sp = sp_method_sig_of(
                    self.cfv().constant_pool,
                    crate::class_file::method_info_v(*method_info),
                );
                match r {
                    Ok(o) => sp == Ok::<Option<MethodSigV>, Error>(opt_method_sig_v(o)),
                    Err(e) => sp is Err && err_like(e, sp->Err_0),
                }
            }),
    {
        proof {
            assert(crate::class_file::attrs_v(method_info.attributes@).skip(0)
                =~= crate::class_file::attrs_v(method_info.attributes@));
        }
        match first_signature_from(&method_info.attributes, 0) {
            Some(idx) => match crate::class_file::cp_utf8(&self.class_file.constant_pool, idx) {
                Some(text) => match crate::signature::parse_method_signature(text.as_str()) {
                    Ok((_, ms)) => Ok(Some(ms)),
                    Err(e) => Err(e),
                },
                None => Err(Error::BadIndex { site: IndexSite::SignatureText, index: idx }),
            },
            None => Ok(None),
        }
    }

    /// The parsed `Signature` attribute of a field, if present.
    fn extract_field_signature(&self, field_info: &crate::class_file::FieldInfo) -> (r: Result<
        Option<FieldSignature>,
        Error,
    >)
        ensures
            ({
                let sp = sp_field_sig_of(
                    self.cfv().constant_pool,
                    crate::class_file::field_info_v(*field_info),
                );
                match r {
                    Ok(o) => sp == Ok::<Option<FieldSigV>, Error>(opt_field_sig_v(o)),
                    Err(e) => sp is Err && err_like(e, sp->Err_0),
                }
            }),
    {
        proof {
            assert(crate::class_file::attrs_v(field_info.attributes@).skip(0)
                =~= crate::class_file::attrs_v(field_info.attributes@));
        }
        match first_signature_from(&field_info.attributes, 0) {
            Some(idx) => match crate::class_file::cp_utf8(&self.class_file.constant_pool, idx) {
                Some(text) => match crate::signature::parse_field_signature(text.as_str()) {
                    Ok((_, fs)) => Ok(Some(fs)),
                    Err(e) => Err(e),
                },
                None => Err(Error::BadIndex { site: IndexSite::SignatureText, index: idx }),
            },
            None => Ok(None),
        }
    }

    fn extract_annotations(&self, attributes: &Vec<crate::class_file::AttributeInfo>) -> (r:
        Result<Vec<Annotation>, Error>)
        ensures
            match r {
                Ok(v) => sp_annotations_of(
                    self.cfv().constant_pool,
                    crate::class_file::attrs_v(attributes@),
                    0,
                ) == Ok::<Seq<CAnnotationV>, Error>(c_annotations_v(v@)),
                Err(e) => sp_annotations_of(
                    self.cfv().constant_pool,
                    crate::class_file::attrs_v(attributes@),
                    0,
                ) == Err::<Seq<CAnnotationV>, Error>(e),
            },
    {
        annotations_of(&self.class_file.constant_pool, attributes, 0)
    }
}

/// The parsed method `Signature` as the spec pipeline sees it.
pub open spec fn sp_method_sig_of(pool: Seq<Option<CpInfoV>>, m: MethodInfoV) -> Result<
    Option<MethodSigV>,
    Error,
> {
    match sp_first_signature(m.attributes) {
        Some(idx) => match cp_utf8_at(pool, idx) {
            Some(text) => match sp_method_sig(text, 0) {
                Some((ms, _)) => Ok(Some(ms)),
                None => Err(Error::BadSignature { offset: 0 }),
            },
            None => Err(Error::BadIndex { site: IndexSite::SignatureText, index: idx }),
        },
        None => Ok(None),
    }
}

/// The parsed field `Signature` as the spec pipeline sees it.
pub open spec fn sp_field_sig_of(pool: Seq<Option<CpInfoV>>, f: FieldInfoV) -> Result<
    Option<FieldSigV>,
    Error,
> {
    match sp_first_signature(f.attributes) {
        Some(idx) => match cp_utf8_at(pool, idx) {
            Some(text) => match sp_field_sig(text, 0) {
                Some((fs, _)) => Ok(Some(fs)),
                None => Err(Error::BadSignature { offset: 0 }),
            },
            None => Err(Error::BadIndex { site: IndexSite::SignatureText, index: idx }),
        },
        None => Ok(None),
    }
}


pub open spec fn opt_method_v(o: Option<Method>) -> Option<MethodV> {
    match o {
        Some(m) => Some(method_v(m)),
        None => None,
    }
}

pub open spec fn opt_field_v(o: Option<Field>) -> Option<FieldV> {
    match o {
        Some(f) => Some(field_v(f)),
        None => None,
    }
}

fn tys_from_sig_list(v: &Vec<crate::signature::TypeSignature>, k: usize) -> (r: Vec<Ty>)
    requires
        k <= v@.len(),
    ensures
        tys_v(r@) == tys_of_sig_list(crate::signature::type_sigs_v(v@), k as int),
    decreases v@.len() - k,
{
    proof {
        crate::signature::lemma_type_sigs_v_index(v@);
    }
    if k >= v.len() {
        let out: Vec<Ty> = Vec::new();
        proof {
            assert(tys_v(out@) =~= Seq::<TyV>::empty());
        }
        return out;
    }
    let t = ty_from_type_sig(&v[k]);
    let mut rest = tys_from_sig_list(v, k + 1);
    let ghost rest0 = rest@;
    let ghost t0 = t;
    let mut out: Vec<Ty> = Vec::new();
    out.push(t);
    out.append(&mut rest);
    proof {
        assert(out@ =~= seq![t0] + rest0);
        assert(tys_v(out@) =~= seq![ty_v(t0)] + tys_v(rest0));
    }
    out
}

fn tys_from_desc_list(v: &Vec<crate::descriptor::FieldDescriptor>, k: usize) -> (r: Vec<Ty>)
    requires
        k <= v@.len(),
    ensures
        tys_v(r@) == tys_of_desc_list(
            v@.map_values(|d: crate::descriptor::FieldDescriptor| crate::descriptor::field_desc_v(d)),
            k as int,
        ),
    decreases v@.len() - k,
{
    if k >= v.len() {
        let out: Vec<Ty> = Vec::new();
        proof {
            assert(tys_v(out@) =~= Seq::<TyV>::empty());
        }
        return out;
    }
    let t = ty_from_field_ty(&v[k].ty);
    let mut rest = tys_from_desc_list(v, k + 1);
    let ghost rest0 = rest@;
    let ghost t0 = t;
    let mut out: Vec<Ty> = Vec::new();
    out.push(t);
    out.append(&mut rest);
    proof {
        assert(out@ =~= seq![t0] + rest0);
        assert(tys_v(out@) =~= seq![ty_v(t0)] + tys_v(rest0));
    }
    out
}

fn idents_from_params(v: &Vec<crate::signature::TypeParameter>, k: usize) -> (r: Vec<String>)
    requires
        k <= v@.len(),
    ensures
        strings_v(r@) == idents_of_params(crate::signature::type_params_v(v@), k as int),
    decreases v@.len() - k,
{
    proof {
        crate::signature::lemma_type_params_v_index(v@);
    }
    if k >= v.len() {
        let out: Vec<String> = Vec::new();
        proof {
            assert(strings_v(out@) =~= Seq::<Seq<char>>::empty());
        }
        return out;
    }
    let id = v[k].identifier.clone();
    let mut rest = idents_from_params(v, k + 1);
    let ghost rest0 = rest@;
    let ghost id0 = id@;
    let mut out: Vec<String> = Vec::new();
    out.push(id);
    out.append(&mut rest);
    proof {
        assert(strings_v(out@) =~= seq![id0] + strings_v(rest0));
    }
    out
}

impl<'a, 'b> ComponentExtractor<'a, 'b> {
    fn extract_method_info(&self, method_info: &crate::class_file::MethodInfo) -> (r: Result<
        Option<Method>,
        Error,
    >)
        ensures
            ({
                let sp = sp_extract_method(
                    self.cfv().constant_pool,
                    crate::class_file::method_info_v(*method_info),
                    self.target(),
                );
                match r {
                    Ok(o) => sp == Ok::<Option<MethodV>, Error>(opt_method_v(o)),
                    Err(e) => sp is Err && err_like(e, sp->Err_0),
                }
            }),
    {
        if self.is_skippable_method(&method_info.access_flags) {
            return Ok(None);
        }
        let name = match crate::class_file::cp_utf8(
            &self.class_file.constant_pool,
            method_info.name_index,
        ) {
            Some(n) => n.clone(),
            None => {
                return Err(
                    Error::BadIndex { site: IndexSite::MemberName, index: method_info.name_index },
                );
            },
        };
        let sig = match self.extract_method_signature(method_info) {
            Ok(s) => s,
            Err(e) => {
                return Err(e);
            },
        };
        let desc_text = match crate::class_file::cp_utf8(
            &self.class_file.constant_pool,
            method_info.descriptor_index,
        ) {
            Some(t) => t,
            None => {
                return Err(
                    Error::BadIndex {
                        site: IndexSite::MemberDescriptor,
                        index: method_info.descriptor_index,
                    },
                );
            },
        };
        let md = match crate::descriptor::parse_method_descriptor(desc_text.as_str()) {
            Ok(md) => md,
            Err(e) => {
                return Err(e);
            },
        };
        let annotations = match self.extract_annotations(&method_info.attributes) {
            Ok(a) => a,
            Err(e) => {
                return Err(e);
            },
        };
        match sig {
            Some(ms) => {
                let param_tys = tys_from_sig_list(&ms.parameters, 0);
                let ret_ty = match &ms.result {
                    crate::signature::SigResult::JavaTypeSignature(t) => ty_from_type_sig(t),
                    crate::signature::SigResult::VoidDescriptor => Ty::Void,
                };
                let type_params = match &ms.type_parameters {
                    Some(ps) => idents_from_params(ps, 0),
                    None => Vec::new(),
                };
                proof {
                    assert(strings_v(Seq::<String>::empty()) =~= Seq::<Seq<char>>::empty());
                }
                Ok(
                    Some(
                        Method {
                            name,
                            signature: Some(ms),
                            modifiers: String::new(),
                            param_tys,
                            ret_ty,
                            type_params,
                            annotations,
                        },
                    ),
                )
            },
            None => {
                let param_tys = tys_from_desc_list(&md.param_descs, 0);
                let ret_ty = match &md.ret_desc {
                    crate::descriptor::ReturnDescriptor::TyDesc(d) => ty_from_field_ty(&d.ty),
                    crate::descriptor::ReturnDescriptor::Void => Ty::Void,
                };
                proof {
                    assert(strings_v(Seq::<String>::empty()) =~= Seq::<Seq<char>>::empty());
                }
                Ok(
                    Some(
                        Method {
                            name,
                            signature: None,
                            modifiers: String::new(),
                            param_tys,
                            ret_ty,
                            type_params: Vec::new(),
                            annotations,
                        },
                    ),
                )
            },
        }
    }

    fn extract_field_info(&self, field_info: &crate::class_file::FieldInfo) -> (r: Result<
        Option<Field>,
        Error,
    >)
        ensures
            ({
                let sp = sp_extract_field(
                    self.cfv().constant_pool,
                    crate::class_file::field_info_v(*field_info),
                    self.target(),
                );
                match r {
                    Ok(o) => sp == Ok::<Option<FieldV>, Error>(opt_field_v(o)),
                    Err(e) => sp is Err && err_like(e, sp->Err_0),
                }
            }),
    {
        if self.is_skippable_field(&field_info.access_flags) {
            return Ok(None);
        }
        let name = match crate::class_file::cp_utf8(
            &self.class_file.constant_pool,
            field_info.name_index,
        ) {
            Some(n) => n.clone(),
            None => {
                return Err(
                    Error::BadIndex { site: IndexSite::MemberName, index: field_info.name_index },
                );
            },
        };
        let desc_text = match crate::class_file::cp_utf8(
            &self.class_file.constant_pool,
            field_info.descriptor_index,
        ) {
            Some(t) => t,
            None => {
                return Err(
                    Error::BadIndex {
                        site: IndexSite::MemberDescriptor,
                        index: field_info.descriptor_index,
                    },
                );
            },
        };
        let fd = match crate::descriptor::parse_field_descriptor(desc_text.as_str()) {
            Ok(fd) => fd,
            Err(e) => {
                return Err(e);
            },
        };
        let sig = match self.extract_field_signature(field_info) {
            Ok(s) => s,
            Err(e) => {
                return Err(e);
            },
        };
        let annotations = match self.extract_annotations(&field_info.attributes) {
            Ok(a) => a,
            Err(e) => {
                return Err(e);
            },
        };
        let ty = match &sig {
            Some(fs) => ty_from_ref_sig(&fs.reference_type_signature),
            None => ty_from_field_ty(&fd.ty),
        };
        Ok(Some(Field { name, ty, signature: sig, modifiers: String::new(), annotations }))
    }

    fn extract_methods_from(&self, k: usize) -> (r: Result<Vec<Method>, Error>)
        requires
            k <= self.class_file.methods@.len(),
        ensures
            ({
                let sp = sp_extract_methods(
                    self.cfv().constant_pool,
                    self.cfv().methods,
                    k as int,
                    self.target(),
                );
                match r {
                    Ok(v) => sp == Ok::<Seq<MethodV>, Error>(comp_methods_v(v@)),
                    Err(e) => sp is Err && err_like(e, sp->Err_0),
                }
            }),
        decreases self.class_file.methods@.len() - k,
    {
        if k >= self.class_file.methods.len() {
            let v: Vec<Method> = Vec::new();
            proof {
                assert(comp_methods_v(v@) =~= Seq::<MethodV>::empty());
            }
            return Ok(v);
        }
        match self.extract_method_info(&self.class_file.methods[k]) {
            Ok(here) => match self.extract_methods_from(k + 1) {
                Ok(mut rest) => match here {
                    Some(m) => {
                        let ghost rest0 = rest@;
                        let ghost m0 = m;
                        let mut v: Vec<Method> = Vec::new();
                        v.push(m);
                        v.append(&mut rest);
                        proof {
                            assert(v@ =~= seq![m0] + rest0);
                            assert(comp_methods_v(v@) =~= seq![method_v(m0)] + comp_methods_v(
                                rest0,
                            ));
                        }
                        Ok(v)
                    },
                    None => {
                        proof {
                            assert(Seq::<MethodV>::empty() + comp_methods_v(rest@)
                                =~= comp_methods_v(rest@));
                        }
                        Ok(rest)
                    },
                },
                Err(e) => Err(e),
            },
            Err(e) => Err(e),
        }
    }

    fn extract_fields_from(&self, k: usize) -> (r: Result<Vec<Field>, Error>)
        requires
            k <= self.class_file.fields@.len(),
        ensures
            ({
                let sp = sp_extract_fields(
                    self.cfv().constant_pool,
                    self.cfv().fields,
                    k as int,
                    self.target(),
                );
                match r {
                    Ok(v) => sp == Ok::<Seq<FieldV>, Error>(comp_fields_v(v@)),
                    Err(e) => sp is Err && err_like(e, sp->Err_0),
                }
            }),
        decreases self.class_file.fields@.len() - k,
    {
        if k >= self.class_file.fields.len() {
            let v: Vec<Field> = Vec::new();
            proof {
                assert(comp_fields_v(v@) =~= Seq::<FieldV>::empty());
            }
            return Ok(v);
        }
        match self.extract_field_info(&self.class_file.fields[k]) {
            Ok(here) => match self.extract_fields_from(k + 1) {
                Ok(mut rest) => match here {
                    Some(f) => {
                        let ghost rest0 = rest@;
                        let ghost f0 = f;
                        let mut v: Vec<Field> = Vec::new();
                        v.push(f);
                        v.append(&mut rest);
                        proof {
                            assert(v@ =~= seq![f0] + rest0);
                            assert(comp_fields_v(v@) =~= seq![field_v(f0)] + comp_fields_v(rest0));
                        }
                        Ok(v)
                    },
                    None => {
                        proof {
                            assert(Seq::<FieldV>::empty() + comp_fields_v(rest@) =~= comp_fields_v(
                                rest@,
                            ));
                        }
                        Ok(rest)
                    },
                },
                Err(e) => Err(e),
            },
            Err(e) => Err(e),
        }
    }

    fn extract_interfaces_from(&self, k: usize) -> (r: Result<Vec<String>, Error>)
        requires
            k <= self.class_file.interfaces@.len(),
        ensures
            ({
                let sp = sp_extract_interfaces(
                    self.cfv().constant_pool,
                    self.cfv().interfaces,
                    k as int,
                );
                match r {
                    Ok(v) => sp == Ok::<Seq<Seq<char>>, Error>(strings_v(v@)),
                    Err(e) => sp == Err::<Seq<Seq<char>>, Error>(e),
                }
            }),
        decreases self.class_file.interfaces@.len() - k,
    {
        if k >= self.class_file.interfaces.len() {
            let v: Vec<String> = Vec::new();
            proof {
                assert(strings_v(v@) =~= Seq::<Seq<char>>::empty());
            }
            return Ok(v);
        }
        let idx = self.class_file.interfaces[k];
        match cp_class_name(&self.class_file.constant_pool, idx) {
            Some(raw) => {
                let dotted = to_dotted(raw.as_str());
                match self.extract_interfaces_from(k + 1) {
                    Ok(mut rest) => {
                        let ghost rest0 = rest@;
                        let ghost d0 = dotted@;
                        let mut v: Vec<String> = Vec::new();
                        v.push(dotted);
                        v.append(&mut rest);
                        proof {
                            assert(strings_v(v@) =~= seq![d0] + strings_v(rest0));
                        }
                        Ok(v)
                    },
                    Err(e) => Err(e),
                }
            },
            None => Err(Error::BadIndex { site: IndexSite::Interface, index: idx }),
        }
    }

    fn extract_class_component(&self, kind: Kind) -> (r: Result<ComponentKind, Error>)
        ensures
            ({
                let sp = sp_extract_class_kind(
                    self.cfv(),
                    self.target(),
                    !(kind is Class),
                    kind is AnnotationInterface,
                );
                match r {
                    Ok(k) => sp == Ok::<ComponentKindV, Error>(component_kind_v(k)),
                    Err(e) => sp is Err && err_like(e, sp->Err_0),
                }
            }),
    {
        let raw_name = match cp_class_name(
            &self.class_file.constant_pool,
            self.class_file.this_class,
        ) {
            Some(n) => n,
            None => {
                return Err(
                    Error::BadIndex {
                        site: IndexSite::ThisClass,
                        index: self.class_file.this_class,
                    },
                );
            },
        };
        // Superclass: pool index 0 is allowed only for java/lang/Object.
        let super_class: Option<String> = if self.class_file.super_class == 0 {
            if crate::class_file::str_is(raw_name, "java/lang/Object") {
                None
            } else {
                return Err(Error::BadStructure);
            }
        } else {
            let sidx = self.class_file.super_class;
            if sidx as usize >= self.class_file.constant_pool.len() {
                return Err(Error::BadIndex { site: IndexSite::SuperClass, index: sidx });
            }
            match &self.class_file.constant_pool[sidx as usize] {
                Some(crate::class_file::ConstantPoolInfo::Class { name_index }) => {
                    if *name_index != 0 {
                        match crate::class_file::cp_utf8(
                            &self.class_file.constant_pool,
                            *name_index,
                        ) {
                            Some(n) => {
                                let dotted = to_dotted(n.as_str());
                                if crate::class_file::str_is(&dotted, "java.lang.Object") {
                                    None
                                } else {
                                    Some(dotted)
                                }
                            },
                            None => {
                                return Err(
                                    Error::BadIndex {
                                        site: IndexSite::SuperClass,
                                        index: *name_index,
                                    },
                                );
                            },
                        }
                    } else {
                        None
                    }
                },
                _ => {
                    return Err(Error::BadIndex { site: IndexSite::SuperClass, index: sidx });
                },
            }
        };
        let signature: Option<ClassSignature> = match self.extract_class_signature() {
            Ok(Some(text)) => match crate::signature::parse_class_signature(text.as_str()) {
                Ok((_, cs)) => Some(cs),
                Err(e) => {
                    return Err(e);
                },
            },
            Ok(None) => None,
            Err(e) => {
                return Err(e);
            },
        };
        let interfaces = match self.extract_interfaces_from(0) {
            Ok(v) => v,
            Err(e) => {
                return Err(e);
            },
        };
        let methods = match self.extract_methods_from(0) {
            Ok(v) => v,
            Err(e) => {
                return Err(e);
            },
        };
        let fields = match self.extract_fields_from(0) {
            Ok(v) => v,
            Err(e) => {
                return Err(e);
            },
        };
        let annotations = match self.extract_annotations(&self.class_file.attributes) {
            Ok(v) => v,
            Err(e) => {
                return Err(e);
            },
        };
        let qualified_name = to_dotted(raw_name.as_str());
        match kind {
            Kind::Class => Ok(
                ComponentKind::Class(
                    Class {
                        qualified_name,
                        super_class,
                        interfaces,
                        signature,
                        methods,
                        fields,
                        annotations,
                    },
                ),
            ),
            _ => {
                if super_class.is_some() {
                    return Err(Error::BadStructure);
                }
                let is_annotation = match kind {
                    Kind::AnnotationInterface => true,
                    _ => false,
                };
                Ok(
                    ComponentKind::Interface(
                        Interface {
                            is_annotation,
                            qualified_name,
                            interfaces,
                            signature,
                            methods,
                            fields,
                            annotations,
                        },
                    ),
                )
            },
        }
    }

    fn extract_module_component(&self) -> (r: Result<ComponentKind, Error>)
        ensures
            ({
                let sp = sp_extract_module_kind(self.cfv());
                match r {
                    Ok(k) => sp == Ok::<ComponentKindV, Error>(component_kind_v(k)),
                    Err(e) => sp == Err::<ComponentKindV, Error>(e),
                }
            }),
    {
        proof {
            assert(crate::class_file::attrs_v(self.class_file.attributes@).skip(0)
                =~= crate::class_file::attrs_v(self.class_file.attributes@));
        }
        let (name_idx, version_idx) = match first_module_from(&self.class_file.attributes, 0) {
            Some(x) => x,
            None => {
                return Err(Error::BadStructure);
            },
        };
        if name_idx == 0 || name_idx as usize >= self.class_file.constant_pool.len() {
            return Err(Error::BadIndex { site: IndexSite::ModuleName, index: name_idx });
        }
        let name = match &self.class_file.constant_pool[name_idx as usize] {
            Some(crate::class_file::ConstantPoolInfo::Module { name_index }) => {
                match crate::class_file::cp_utf8(&self.class_file.constant_pool, *name_index) {
                    Some(n) => n.clone(),
                    None => {
                        return Err(
                            Error::BadIndex { site: IndexSite::ModuleName, index: *name_index },
                        );
                    },
                }
            },
            _ => {
                return Err(Error::BadIndex { site: IndexSite::ModuleName, index: name_idx });
            },
        };
        if version_idx == 0 {
            return Ok(ComponentKind::Module(Module { name, version: String::new() }));
        }
        match crate::class_file::cp_utf8(&self.class_file.constant_pool, version_idx) {
            Some(v) => Ok(ComponentKind::Module(Module { name, version: v.clone() })),
            None => Err(Error::BadIndex { site: IndexSite::ModuleVersion, index: version_idx }),
        }
    }

    fn extract_component(&self) -> (r: Result<Component, Error>)
        ensures
            ({
                let sp = sp_extract_component(self.cfv(), self.target());
                match r {
                    Ok(c) => sp == Ok::<ComponentV, Error>(component_v(c)),
                    Err(e) => sp is Err && err_like(e, sp->Err_0),
                }
            }),
    {
        let kind: Result<ComponentKind, Error> = if self.class_file.access_flags.contains(0x0200) {
            if self.class_file.access_flags.contains(0x2000) {
                self.extract_class_component(Kind::AnnotationInterface)
            } else {
                self.extract_class_component(Kind::Interface)
            }
        } else if self.class_file.access_flags.contains(0x8000) {
            self.extract_module_component()
        } else {
            self.extract_class_component(Kind::Class)
        };
        match kind {
            Ok(k) => {
                let class_file_name = match self.get_source_file_name() {
                    Some(n) => n.clone(),
                    None => String::new(),
                };
                Ok(
                    Component {
                        minor_version: self.class_file.minor_version,
                        major_version: self.class_file.major_version,
                        kind: k,
                        class_file_name,
                    },
                )
            },
            Err(e) => Err(e),
        }
    }
}

enum Kind {
    Class,
    Interface,
    AnnotationInterface,
}

/// Extract the language-level component of a parsed class file, filtering
/// members by the context's target access modifiers.
pub fn extract_component(class_file: &ClassFile, context: &ExtractorContext) -> (r: Result<
    Component,
    Error,
>)
    ensures
        ({
            let sp = sp_extract_component(
                class_file_v(*class_file),
                context.target_access_modifiers.bits,
            );
            match r {
                Ok(c) => sp == Ok::<ComponentV, Error>(component_v(c)),
                Err(e) => sp is Err && err_like(e, sp->Err_0),
            }
        }),
{
    let extractor = ComponentExtractor { class_file, context };
    extractor.extract_component()
}


// ---------------------------------------------------------------------------
// Laws about extraction.
// ---------------------------------------------------------------------------
proof fn lemma_tys_of_desc_list_index(ds: Seq<crate::descriptor::FieldDescV>, k: int)
    requires
        0 <= k <= ds.len(),
    ensures
        tys_of_desc_list(ds, k).len() == ds.len() - k,
        forall|j: int|
            k <= j < ds.len() ==> tys_of_desc_list(ds, k)[j - k] == ty_of_field_ty(
                (#[trigger] ds[j]).ty,
            ),
    decreases ds.len() - k,
{
    if k < ds.len() {
        lemma_tys_of_desc_list_index(ds, k + 1);
    }
}

proof fn lemma_tys_of_sig_list_index(ts: Seq<TypeSigV>, k: int)
    requires
        0 <= k <= ts.len(),
    ensures
        tys_of_sig_list(ts, k).len() == ts.len() - k,
        forall|j: int|
            k <= j < ts.len() ==> tys_of_sig_list(ts, k)[j - k] == ty_of_type_sig(
                #[trigger] ts[j],
            ),
    decreases ts.len() - k,
{
    if k < ts.len() {
        lemma_tys_of_sig_list_index(ts, k + 1);
    }
}

/// A method without a `Signature` attribute takes its parameter types from
/// its descriptor: the counts agree and the types agree element-wise.
pub proof fn lemma_method_params_from_descriptor(
    pool: Seq<Option<CpInfoV>>,
    m: MethodInfoV,
    target: u16,
    mv: MethodV,
    md: MethodDescV,
)
    requires
        sp_extract_method(pool, m, target) == Ok::<Option<MethodV>, Error>(Some(mv)),
        sp_first_signature(m.attributes) is None,
        cp_utf8_at(pool, m.descriptor_index) matches Some(text) && sp_parse_method_desc(text)
            == Some(md),
    ensures
        mv.param_tys.len() == md.params.len(),
        forall|j: int|
            0 <= j < md.params.len() ==> mv.param_tys[j] == ty_of_field_ty(
                (#[trigger] md.params[j]).ty,
            ),
        mv.ret_ty == ret_ty_of_desc(md),
        mv.signature is None,
{
    lemma_tys_of_desc_list_index(md.params, 0);
}

/// A method with a `Signature` attribute takes its parameter types from the
/// signature: the counts agree and the types agree element-wise.
pub proof fn lemma_method_params_from_signature(
    pool: Seq<Option<CpInfoV>>,
    m: MethodInfoV,
    target: u16,
    mv: MethodV,
    ms: MethodSigV,
)
    requires
        sp_extract_method(pool, m, target) == Ok::<Option<MethodV>, Error>(Some(mv)),
        sp_method_sig_of(pool, m) == Ok::<Option<MethodSigV>, Error>(Some(ms)),
    ensures
        mv.signature == Some(ms),
        mv.param_tys.len() == ms.parameters.len(),
        forall|j: int|
            0 <= j < ms.parameters.len() ==> mv.param_tys[j] == ty_of_type_sig(
                #[trigger] ms.parameters[j],
            ),
        mv.ret_ty == ret_ty_of_sig(ms),
        mv.type_params == type_params_of_sig(ms),
    decreases 0int,
{
    lemma_tys_of_sig_list_index(ms.parameters, 0);
}

/// An extracted interface carries no superclass: the class file's superclass
/// slot resolved to "none" (index 0 on `java/lang/Object`, a zero name index,
/// or `java.lang.Object` itself).
pub proof fn lemma_interface_has_no_superclass(cf: ClassFileV, target: u16, cv: ComponentV)
    requires
        sp_extract_component(cf, target) == Ok::<ComponentV, Error>(cv),
        cv.kind is Interface,
    ensures
        cp_class_name_at(cf.constant_pool, cf.this_class) matches Some(raw) && sp_extract_super(
            cf,
            raw,
        ) == Ok::<Option<Seq<char>>, Error>(None),
{
}

/// With superclass index 0, extraction of a class succeeds with no superclass
/// exactly when the class is `java/lang/Object` itself; any other class fails
/// with a structural error.
pub proof fn lemma_super_zero(cf: ClassFileV, raw_name: Seq<char>)
    requires
        cf.super_class == 0,
    ensures
        raw_name == "java/lang/Object"@ ==> sp_extract_super(cf, raw_name) == Ok::<
            Option<Seq<char>>,
            Error,
        >(None),
        raw_name != "java/lang/Object"@ ==> sp_extract_super(cf, raw_name) == Err::<
            Option<Seq<char>>,
            Error,
        >(Error::BadStructure),
{
}

/// A superclass that resolves to `java.lang.Object` is dropped; any other
/// resolved superclass is kept in dotted form.
pub proof fn lemma_super_object_dropped(cf: ClassFileV, raw_name: Seq<char>, name: Seq<char>)
    requires
        cf.super_class != 0,
        0 < cf.super_class && (cf.super_class as int) < cf.constant_pool.len(),
        cf.constant_pool[cf.super_class as int] matches Some(CpInfoV::Class { name_index })
            && name_index != 0 && cp_utf8_at(cf.constant_pool, name_index) == Some(name),
    ensures
        dots(name) == "java.lang.Object"@ ==> sp_extract_super(cf, raw_name) == Ok::<
            Option<Seq<char>>,
            Error,
        >(None),
        dots(name) != "java.lang.Object"@ ==> sp_extract_super(cf, raw_name) == Ok::<
            Option<Seq<char>>,
            Error,
        >(Some(dots(name))),
{
}

/// Filtering: a member appears in the output only when the target set is
/// empty or contains the member's classification, and a filtered member
/// yields nothing.
pub proof fn lemma_member_filtering(pool: Seq<Option<CpInfoV>>, m: MethodInfoV, target: u16)
    ensures
        sp_extract_method(pool, m, target) matches Ok(Some(_)) ==> !skippable(
            target,
            m.access_flags.bits,
        ),
        skippable(target, m.access_flags.bits) ==> sp_extract_method(pool, m, target) == Ok::<
            Option<MethodV>,
            Error,
        >(None),
{
}

/// Filtering for fields, in the same form.
pub proof fn lemma_field_filtering(pool: Seq<Option<CpInfoV>>, f: FieldInfoV, target: u16)
    ensures
        sp_extract_field(pool, f, target) matches Ok(Some(_)) ==> !skippable(
            target,
            f.access_flags.bits,
        ),
        skippable(target, f.access_flags.bits) ==> sp_extract_field(pool, f, target) == Ok::<
            Option<FieldV>,
            Error,
        >(None),
{
}

} // verus!
