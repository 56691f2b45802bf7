//! The JVM generic signature grammar.
//!
//! Signatures describe generic types: class signatures (type parameters,
//! superclass, superinterfaces), method signatures (type parameters,
//! parameters, result, throws) and field signatures (a reference type).
//! The grammar is parsed by recursive descent with one-character lookahead;
//! package segments are joined with `.` in the tree.

use vstd::prelude::*;

use crate::error::Error;

verus! {

// ---------------------------------------------------------------------------
// The signature tree.
// ---------------------------------------------------------------------------
#[derive(Debug, PartialEq, Eq)]
pub enum TypeSignature {
    Reference(ReferenceTypeSignature),
    Base(BaseType),
}

#[derive(Debug, Clone, Copy, PartialEq, Eq, Structural)]
pub enum BaseType {
    Byte,
    Char,
    Double,
    Float,
    Int,
    Long,
    Short,
    Boolean,
}

#[derive(Debug, PartialEq, Eq)]
pub enum ReferenceTypeSignature {
    TypeVariable(TypeVariableSignature),
    Class(ClassTypeSignature),
    Array(ArrayTypeSignature),
}

#[derive(Debug, PartialEq, Eq)]
pub struct ClassTypeSignature {
    pub package_specifier: Option<String>,
    pub simple_class_type_signature: SimpleClassTypeSignature,
    pub class_type_signature_suffixes: Vec<SimpleClassTypeSignature>,
}

#[derive(Debug, PartialEq, Eq)]
pub struct SimpleClassTypeSignature {
    pub identifier: String,
    pub type_arguments: Option<Vec<TypeArgument>>,
}

#[derive(Debug, PartialEq, Eq)]
pub enum TypeArgument {
    ReferenceType(Option<WildcardIndicator>, ReferenceTypeSignature),
    Any,
}

#[derive(Debug, Clone, Copy, PartialEq, Eq, Structural)]
pub enum WildcardIndicator {
    Plus,
    Minus,
}

#[derive(Debug, PartialEq, Eq)]
pub struct TypeVariableSignature {
    pub identifier: String,
}

#[derive(Debug, PartialEq, Eq)]
pub struct ArrayTypeSignature {
    pub java_type_signature: Box<TypeSignature>,
}

#[derive(Debug, PartialEq, Eq)]
pub struct ClassSignature {
    pub type_parameters: Option<Vec<TypeParameter>>,
    pub superclass_signature: ClassTypeSignature,
    pub superinterface_signatures: Vec<ClassTypeSignature>,
}

#[derive(Debug, PartialEq, Eq)]
pub struct TypeParameter {
    pub identifier: String,
    pub class_bound: Option<ReferenceTypeSignature>,
    pub interface_bounds: Vec<ReferenceTypeSignature>,
}

#[derive(Debug, PartialEq, Eq)]
pub struct MethodSignature {
    pub type_parameters: Option<Vec<TypeParameter>>,
    pub parameters: Vec<TypeSignature>,
    pub result: SigResult,
    pub throws_signatures: Vec<ThrowsSignature>,
}

/// The result clause of a method signature: a type or `V`.
#[derive(Debug, PartialEq, Eq)]
pub enum SigResult {
    JavaTypeSignature(TypeSignature),
    VoidDescriptor,
}

#[derive(Debug, PartialEq, Eq)]
pub enum ThrowsSignature {
    ClassTypeSignature(ClassTypeSignature),
    TypeVariableSignature(TypeVariableSignature),
}

#[derive(Debug, PartialEq, Eq)]
pub struct FieldSignature {
    pub reference_type_signature: ReferenceTypeSignature,
}

// ---------------------------------------------------------------------------
// Mathematical mirrors: identifiers as character sequences.
// ---------------------------------------------------------------------------
pub enum TypeSigV {
    Reference(RefSigV),
    Base(BaseType),
}

pub enum RefSigV {
    TypeVariable(Seq<char>),
    Class(ClassTypeSigV),
    Array(Box<TypeSigV>),
}

pub struct ClassTypeSigV {
    pub package_specifier: Option<Seq<char>>,
    pub simple: SimpleSigV,
    pub suffixes: Seq<SimpleSigV>,
}

pub struct SimpleSigV {
    pub identifier: Seq<char>,
    pub type_arguments: Option<Seq<TypeArgV>>,
}

pub enum TypeArgV {
    ReferenceType(Option<WildcardIndicator>, RefSigV),
    Any,
}

pub struct TypeParamV {
    pub identifier: Seq<char>,
    pub class_bound: Option<RefSigV>,
    pub interface_bounds: Seq<RefSigV>,
}

pub struct ClassSigV {
    pub type_parameters: Option<Seq<TypeParamV>>,
    pub superclass_signature: ClassTypeSigV,
    pub superinterface_signatures: Seq<ClassTypeSigV>,
}

pub enum SigResultV {
    JavaTypeSignature(TypeSigV),
    VoidDescriptor,
}

pub enum ThrowsV {
    ClassTypeSignature(ClassTypeSigV),
    TypeVariableSignature(Seq<char>),
}

pub struct MethodSigV {
    pub type_parameters: Option<Seq<TypeParamV>>,
    pub parameters: Seq<TypeSigV>,
    pub result: SigResultV,
    pub throws_signatures: Seq<ThrowsV>,
}

pub struct FieldSigV {
    pub reference_type_signature: RefSigV,
}

pub open spec fn opt_str_v(o: Option<String>) -> Option<Seq<char>> {
    match o {
        Some(x) => Some(x@),
        None => None,
    }
}

pub open spec fn type_sig_v(t: TypeSignature) -> TypeSigV
    decreases t,
{
    match t {
        TypeSignature::Reference(r) => TypeSigV::Reference(ref_sig_v(r)),
        TypeSignature::Base(b) => TypeSigV::Base(b),
    }
}

pub open spec fn ref_sig_v(r: ReferenceTypeSignature) -> RefSigV
    decreases r,
{
    match r {
        ReferenceTypeSignature::TypeVariable(v) => RefSigV::TypeVariable(v.identifier@),
        ReferenceTypeSignature::Class(c) => RefSigV::Class(class_type_sig_v(c)),
        ReferenceTypeSignature::Array(a) => RefSigV::Array(
            Box::new(type_sig_v(*a.java_type_signature)),
        ),
    }
}

pub open spec fn class_type_sig_v(c: ClassTypeSignature) -> ClassTypeSigV
    decreases c,
{
    ClassTypeSigV {
        package_specifier: opt_str_v(c.package_specifier),
        simple: simple_v(c.simple_class_type_signature),
        suffixes: suffixes_v(c.class_type_signature_suffixes@),
    }
}

pub open spec fn simple_v(x: SimpleClassTypeSignature) -> SimpleSigV
    decreases x,
{
    SimpleSigV {
        identifier: x.identifier@,
        type_arguments: match x.type_arguments {
            Some(v) => Some(type_args_v(v@)),
            None => None,
        },
    }
}

pub open spec fn type_args_v(v: Seq<TypeArgument>) -> Seq<TypeArgV>
    decreases v,
{
    if v.len() == 0 {
        Seq::empty()
    } else {
        seq![type_arg_v(v[0])] + type_args_v(v.drop_first())
    }
}

pub open spec fn type_arg_v(a: TypeArgument) -> TypeArgV
    decreases a,
{
    match a {
        TypeArgument::ReferenceType(w, r) => TypeArgV::ReferenceType(w, ref_sig_v(r)),
        TypeArgument::Any => TypeArgV::Any,
    }
}

pub open spec fn suffixes_v(v: Seq<SimpleClassTypeSignature>) -> Seq<SimpleSigV>
    decreases v,
{
    if v.len() == 0 {
        Seq::empty()
    } else {
        seq![simple_v(v[0])] + suffixes_v(v.drop_first())
    }
}

pub open spec fn ref_sigs_v(v: Seq<ReferenceTypeSignature>) -> Seq<RefSigV>
    decreases v,
{
    if v.len() == 0 {
        Seq::empty()
    } else {
        seq![ref_sig_v(v[0])] + ref_sigs_v(v.drop_first())
    }
}

pub open spec fn type_param_v(p: TypeParameter) -> TypeParamV {
    TypeParamV {
        identifier: p.identifier@,
        class_bound: match p.class_bound {
            Some(r) => Some(ref_sig_v(r)),
            None => None,
        },
        interface_bounds: ref_sigs_v(p.interface_bounds@),
    }
}

pub open spec fn type_params_v(v: Seq<TypeParameter>) -> Seq<TypeParamV>
    decreases v,
{
    if v.len() == 0 {
        Seq::empty()
    } else {
        seq![type_param_v(v[0])] + type_params_v(v.drop_first())
    }
}

pub open spec fn class_type_sigs_v(v: Seq<ClassTypeSignature>) -> Seq<ClassTypeSigV>
    decreases v,
{
    if v.len() == 0 {
        Seq::empty()
    } else {
        seq![class_type_sig_v(v[0])] + class_type_sigs_v(v.drop_first())
    }
}

pub open spec fn type_sigs_v(v: Seq<TypeSignature>) -> Seq<TypeSigV>
    decreases v,
{
    if v.len() == 0 {
        Seq::empty()
    } else {
        seq![type_sig_v(v[0])] + type_sigs_v(v.drop_first())
    }
}

pub open spec fn throws_sig_v(t: ThrowsSignature) -> ThrowsV {
    match t {
        ThrowsSignature::ClassTypeSignature(c) => ThrowsV::ClassTypeSignature(class_type_sig_v(c)),
        ThrowsSignature::TypeVariableSignature(v) => ThrowsV::TypeVariableSignature(v.identifier@),
    }
}

pub open spec fn throws_sigs_v(v: Seq<ThrowsSignature>) -> Seq<ThrowsV>
    decreases v,
{
    if v.len() == 0 {
        Seq::empty()
    } else {
        seq![throws_sig_v(v[0])] + throws_sigs_v(v.drop_first())
    }
}

pub open spec fn opt_type_params_v(o: Option<Vec<TypeParameter>>) -> Option<Seq<TypeParamV>> {
    match o {
        Some(v) => Some(type_params_v(v@)),
        None => None,
    }
}

pub open spec fn class_sig_v(c: ClassSignature) -> ClassSigV {
    ClassSigV {
        type_parameters: opt_type_params_v(c.type_parameters),
        superclass_signature: class_type_sig_v(c.superclass_signature),
        superinterface_signatures: class_type_sigs_v(c.superinterface_signatures@),
    }
}

pub open spec fn sig_result_v(r: SigResult) -> SigResultV {
    match r {
        SigResult::JavaTypeSignature(t) => SigResultV::JavaTypeSignature(type_sig_v(t)),
        SigResult::VoidDescriptor => SigResultV::VoidDescriptor,
    }
}

pub open spec fn method_sig_v(m: MethodSignature) -> MethodSigV {
    MethodSigV {
        type_parameters: opt_type_params_v(m.type_parameters),
        parameters: type_sigs_v(m.parameters@),
        result: sig_result_v(m.result),
        throws_signatures: throws_sigs_v(m.throws_signatures@),
    }
}

pub open spec fn field_sig_v(f: FieldSignature) -> FieldSigV {
    FieldSigV { reference_type_signature: ref_sig_v(f.reference_type_signature) }
}

// ---------------------------------------------------------------------------
// The grammar as spec functions: each takes the text and a position and
// yields the parsed node and the position just past it.
// ---------------------------------------------------------------------------
/// A JVM identifier starts with an ASCII letter, `_` or `$` …
pub open spec fn is_ident_start(c: char) -> bool {
    (('A' as u32) <= (c as u32) && (c as u32) <= ('Z' as u32)) || (('a' as u32) <= (c as u32) && (
    c as u32) <= ('z' as u32)) || c == '_' || c == '$'
}

/// … and continues with identifier starters or ASCII digits.
pub open spec fn is_ident_char(c: char) -> bool {
    is_ident_start(c) || (('0' as u32) <= (c as u32) && (c as u32) <= ('9' as u32))
}

/// The one-letter base types accepted inside signatures (no `V`).
pub open spec fn is_sig_base_char(c: char) -> bool {
    c == 'B' || c == 'C' || c == 'D' || c == 'F' || c == 'I' || c == 'J' || c == 'S' || c == 'Z'
}

pub open spec fn sig_base_ty_of(c: char) -> BaseType {
    if c == 'B' {
        BaseType::Byte
    } else if c == 'C' {
        BaseType::Char
    } else if c == 'D' {
        BaseType::Double
    } else if c == 'F' {
        BaseType::Float
    } else if c == 'I' {
        BaseType::Int
    } else if c == 'J' {
        BaseType::Long
    } else if c == 'S' {
        BaseType::Short
    } else {
        BaseType::Boolean
    }
}

/// Clamp a continuation position so that recursion visibly advances; every
/// parser in fact returns a position strictly past its start and at most the
/// length, so the clamp never fires on real results.
pub open spec fn step_at(i: int, j: int, len: int) -> int {
    if i < j && j <= len {
        j
    } else if i + 1 <= len {
        i + 1
    } else {
        len
    }
}

/// Number of identifier characters running from `i`.
pub open spec fn sp_ident_cont_len(s: Seq<char>, i: int) -> nat
    decreases s.len() - i,
{
    if i < s.len() && is_ident_char(s[i]) {
        (1 + sp_ident_cont_len(s, i + 1)) as nat
    } else {
        0
    }
}

/// An identifier: a starter character followed by the run of identifier
/// characters.
pub open spec fn sp_ident(s: Seq<char>, i: int) -> Option<(Seq<char>, int)> {
    if i < s.len() && is_ident_start(s[i]) {
        let j = i + 1 + sp_ident_cont_len(s, i + 1);
        Some((s.subrange(i, j), j))
    } else {
        None
    }
}

/// Zero or more `Identifier /` package segments; yields the segments joined
/// with `.` (empty when there is no package) and the position after the last
/// `/`.
pub open spec fn sp_pkg(s: Seq<char>, i: int) -> (Seq<char>, int)
    decreases s.len() - i,
{
    if i < s.len() {
        match sp_ident(s, i) {
            Some((id, j)) => if j < s.len() && s[j] == '/' {
                let (rest, k) = sp_pkg(s, step_at(i, j + 1, s.len() as int));
                if rest.len() == 0 {
                    (id, k)
                } else {
                    (id + seq!['.'] + rest, k)
                }
            } else {
                (Seq::empty(), i)
            },
            None => (Seq::empty(), i),
        }
    } else {
        (Seq::empty(), i)
    }
}

/// `BaseType | ReferenceTypeSignature`.
pub open spec fn sp_type_sig(s: Seq<char>, i: int) -> Option<(TypeSigV, int)>
    decreases s.len() - i, 4int,
{
    if i < s.len() {
        if is_sig_base_char(s[i]) {
            Some((TypeSigV::Base(sig_base_ty_of(s[i])), i + 1))
        } else {
            match sp_ref_type_sig(s, i) {
                Some((r, j)) => Some((TypeSigV::Reference(r), j)),
                None => None,
            }
        }
    } else {
        None
    }
}

/// `ClassTypeSignature | TypeVariableSignature | ArrayTypeSignature`.
pub open spec fn sp_ref_type_sig(s: Seq<char>, i: int) -> Option<(RefSigV, int)>
    decreases s.len() - i, 1int,
{
    if i < s.len() {
        if s[i] == 'L' {
            match sp_class_type_sig(s, i) {
                Some((c, j)) => Some((RefSigV::Class(c), j)),
                None => None,
            }
        } else if s[i] == 'T' {
            match sp_ident(s, i + 1) {
                Some((id, j)) => if j < s.len() && s[j] == ';' {
                    Some((RefSigV::TypeVariable(id), j + 1))
                } else {
                    None
                },
                None => None,
            }
        } else if s[i] == '[' {
            match sp_type_sig(s, i + 1) {
                Some((t, j)) => Some((RefSigV::Array(Box::new(t)), j)),
                None => None,
            }
        } else {
            None
        }
    } else {
        None
    }
}

/// `'L' PackageSpecifier? SimpleClassTypeSignature Suffix* ';'`.
pub open spec fn sp_class_type_sig(s: Seq<char>, i: int) -> Option<(ClassTypeSigV, int)>
    decreases s.len() - i, 0int,
{
    if i < s.len() && s[i] == 'L' {
        let (pkg, p) = sp_pkg(s, i + 1);
        match sp_simple(s, step_at(i, p, s.len() as int)) {
            Some((sim, q)) => {
                let (sufs, r) = sp_suffixes_star(s, step_at(i, q, s.len() as int));
                if r < s.len() && s[r] == ';' {
                    Some(
                        (
                            ClassTypeSigV {
                                package_specifier: if pkg.len() == 0 {
                                    None
                                } else {
                                    Some(pkg)
                                },
                                simple: sim,
                                suffixes: sufs,
                            },
                            r + 1,
                        ),
                    )
                } else {
                    None
                }
            },
            None => None,
        }
    } else {
        None
    }
}

/// `Identifier TypeArguments?`.
pub open spec fn sp_simple(s: Seq<char>, i: int) -> Option<(SimpleSigV, int)>
    decreases s.len() - i, 0int,
{
    if i < s.len() {
        match sp_ident(s, i) {
            Some((id, j)) => if j < s.len() && s[j] == '<' {
                let (args, k) = sp_type_args_star(s, step_at(i, j + 1, s.len() as int));
                if args.len() >= 1 && k < s.len() && s[k] == '>' {
                    Some((SimpleSigV { identifier: id, type_arguments: Some(args) }, k + 1))
                } else {
                    None
                }
            } else {
                Some((SimpleSigV { identifier: id, type_arguments: None }, j))
            },
            None => None,
        }
    } else {
        None
    }
}

/// Greedy run of type arguments; never fails.
pub open spec fn sp_type_args_star(s: Seq<char>, i: int) -> (Seq<TypeArgV>, int)
    decreases s.len() - i, 3int,
{
    if i < s.len() {
        match sp_type_arg(s, i) {
            Some((a, j)) => {
                let (rest, k) = sp_type_args_star(s, step_at(i, j, s.len() as int));
                (seq![a] + rest, k)
            },
            None => (Seq::empty(), i),
        }
    } else {
        (Seq::empty(), i)
    }
}

/// `'*' | WildcardIndicator? ReferenceTypeSignature`.
pub open spec fn sp_type_arg(s: Seq<char>, i: int) -> Option<(TypeArgV, int)>
    decreases s.len() - i, 2int,
{
    if i < s.len() {
        if s[i] == '*' {
            Some((TypeArgV::Any, i + 1))
        } else {
            let w: Option<WildcardIndicator> = if s[i] == '+' {
                Some(WildcardIndicator::Plus)
            } else if s[i] == '-' {
                Some(WildcardIndicator::Minus)
            } else {
                None
            };
            let p: int = if w is Some {
                i + 1
            } else {
                i
            };
            match sp_ref_type_sig(s, p) {
                Some((r, j)) => Some((TypeArgV::ReferenceType(w, r), j)),
                None => None,
            }
        }
    } else {
        None
    }
}

/// Greedy run of `. SimpleClassTypeSignature` suffixes; never fails.
pub open spec fn sp_suffixes_star(s: Seq<char>, i: int) -> (Seq<SimpleSigV>, int)
    decreases s.len() - i, 0int,
{
    if i < s.len() && s[i] == '.' {
        match sp_simple(s, i + 1) {
            Some((sim, j)) => {
                let (rest, k) = sp_suffixes_star(s, step_at(i, j, s.len() as int));
                (seq![sim] + rest, k)
            },
            None => (Seq::empty(), i),
        }
    } else {
        (Seq::empty(), i)
    }
}

/// `':' ReferenceTypeSignature?` — the bound is absent exactly when the next
/// character opens another bound or closes the parameter list.
pub open spec fn sp_class_bound(s: Seq<char>, i: int) -> Option<(Option<RefSigV>, int)> {
    if i < s.len() && s[i] == ':' {
        let p = i + 1;
        if p < s.len() && (s[p] == ':' || s[p] == '>') {
            Some((None, p))
        } else {
            match sp_ref_type_sig(s, p) {
                Some((r, j)) => Some((Some(r), j)),
                None => None,
            }
        }
    } else {
        None
    }
}

/// Greedy run of `':' ReferenceTypeSignature` interface bounds.
pub open spec fn sp_iface_bounds_star(s: Seq<char>, i: int) -> (Seq<RefSigV>, int)
    decreases s.len() - i,
{
    if i < s.len() && s[i] == ':' {
        match sp_ref_type_sig(s, i + 1) {
            Some((r, j)) => {
                let (rest, k) = sp_iface_bounds_star(s, step_at(i, j, s.len() as int));
                (seq![r] + rest, k)
            },
            None => (Seq::empty(), i),
        }
    } else {
        (Seq::empty(), i)
    }
}

/// `Identifier ClassBound InterfaceBound*`.
pub open spec fn sp_type_param(s: Seq<char>, i: int) -> Option<(TypeParamV, int)> {
    match sp_ident(s, i) {
        Some((id, j)) => match sp_class_bound(s, j) {
            Some((cb, k)) => {
                let (ibs, m) = sp_iface_bounds_star(s, k);
                Some((TypeParamV { identifier: id, class_bound: cb, interface_bounds: ibs }, m))
            },
            None => None,
        },
        None => None,
    }
}

/// Greedy run of type parameters.
pub open spec fn sp_type_params_star(s: Seq<char>, i: int) -> (Seq<TypeParamV>, int)
    decreases s.len() - i,
{
    if i < s.len() {
        match sp_type_param(s, i) {
            Some((p, j)) => {
                let (rest, k) = sp_type_params_star(s, step_at(i, j, s.len() as int));
                (seq![p] + rest, k)
            },
            None => (Seq::empty(), i),
        }
    } else {
        (Seq::empty(), i)
    }
}

/// `'<' TypeParameter+ '>'` when present; `None` tree part when absent.
pub open spec fn sp_type_params_opt(s: Seq<char>, i: int) -> Option<
    (Option<Seq<TypeParamV>>, int),
> {
    if i < s.len() && s[i] == '<' {
        let (ps, k) = sp_type_params_star(s, i + 1);
        if ps.len() >= 1 && k < s.len() && s[k] == '>' {
            Some((Some(ps), k + 1))
        } else {
            None
        }
    } else {
        Some((None, i))
    }
}

/// Greedy run of superinterface class-type signatures.
pub open spec fn sp_class_type_sigs_star(s: Seq<char>, i: int) -> (Seq<ClassTypeSigV>, int)
    decreases s.len() - i,
{
    if i < s.len() {
        match sp_class_type_sig(s, i) {
            Some((c, j)) => {
                let (rest, k) = sp_class_type_sigs_star(s, step_at(i, j, s.len() as int));
                (seq![c] + rest, k)
            },
            None => (Seq::empty(), i),
        }
    } else {
        (Seq::empty(), i)
    }
}

/// `TypeParameters? SuperclassSignature SuperinterfaceSignature*`.
pub open spec fn sp_class_sig(s: Seq<char>, i: int) -> Option<(ClassSigV, int)> {
    match sp_type_params_opt(s, i) {
        Some((tps, j)) => match sp_class_type_sig(s, j) {
            Some((sup, k)) => {
                let (ifaces, m) = sp_class_type_sigs_star(s, k);
                Some(
                    (
                        ClassSigV {
                            type_parameters: tps,
                            superclass_signature: sup,
                            superinterface_signatures: ifaces,
                        },
                        m,
                    ),
                )
            },
            None => None,
        },
        None => None,
    }
}

/// Greedy run of method-parameter type signatures.
pub open spec fn sp_type_sigs_star(s: Seq<char>, i: int) -> (Seq<TypeSigV>, int)
    decreases s.len() - i,
{
    if i < s.len() {
        match sp_type_sig(s, i) {
            Some((t, j)) => {
                let (rest, k) = sp_type_sigs_star(s, step_at(i, j, s.len() as int));
                (seq![t] + rest, k)
            },
            None => (Seq::empty(), i),
        }
    } else {
        (Seq::empty(), i)
    }
}

/// One `'^' (ClassTypeSignature | TypeVariableSignature)` throws clause.
pub open spec fn sp_throws(s: Seq<char>, i: int) -> Option<(ThrowsV, int)> {
    if i < s.len() && s[i] == '^' {
        match sp_ref_type_sig(s, i + 1) {
            Some((RefSigV::Class(c), j)) => Some((ThrowsV::ClassTypeSignature(c), j)),
            Some((RefSigV::TypeVariable(v), j)) => Some((ThrowsV::TypeVariableSignature(v), j)),
            _ => None,
        }
    } else {
        None
    }
}

/// Greedy run of throws clauses.
pub open spec fn sp_throws_star(s: Seq<char>, i: int) -> (Seq<ThrowsV>, int)
    decreases s.len() - i,
{
    if i < s.len() {
        match sp_throws(s, i) {
            Some((t, j)) => {
                let (rest, k) = sp_throws_star(s, step_at(i, j, s.len() as int));
                (seq![t] + rest, k)
            },
            None => (Seq::empty(), i),
        }
    } else {
        (Seq::empty(), i)
    }
}

/// `TypeParameters? '(' JavaTypeSignature* ')' Result ThrowsSignature*`.
pub open spec fn sp_method_sig(s: Seq<char>, i: int) -> Option<(MethodSigV, int)> {
    match sp_type_params_opt(s, i) {
        Some((tps, j)) => if j < s.len() && s[j] == '(' {
            let (params, k) = sp_type_sigs_star(s, j + 1);
            if k < s.len() && s[k] == ')' {
                let rp = k + 1;
                if rp < s.len() && s[rp] == 'V' {
                    let (throws, m) = sp_throws_star(s, rp + 1);
                    Some(
                        (
                            MethodSigV {
                                type_parameters: tps,
                                parameters: params,
                                result: SigResultV::VoidDescriptor,
                                throws_signatures: throws,
                            },
                            m,
                        ),
                    )
                } else {
                    match sp_type_sig(s, rp) {
                        Some((t, q)) => {
                            let (throws, m) = sp_throws_star(s, q);
                            Some(
                                (
                                    MethodSigV {
                                        type_parameters: tps,
                                        parameters: params,
                                        result: SigResultV::JavaTypeSignature(t),
                                        throws_signatures: throws,
                                    },
                                    m,
                                ),
                            )
                        },
                        None => None,
                    }
                }
            } else {
                None
            }
        } else {
            None
        },
        None => None,
    }
}

/// `ReferenceTypeSignature`.
pub open spec fn sp_field_sig(s: Seq<char>, i: int) -> Option<(FieldSigV, int)> {
    match sp_ref_type_sig(s, i) {
        Some((r, j)) => Some((FieldSigV { reference_type_signature: r }, j)),
        None => None,
    }
}


// ---------------------------------------------------------------------------
// Executable recursive-descent parsers, each proved equal to its grammar
// function.
// ---------------------------------------------------------------------------
pub open spec fn opt_ref_sig_v(o: Option<ReferenceTypeSignature>) -> Option<RefSigV> {
    match o {
        Some(r) => Some(ref_sig_v(r)),
        None => None,
    }
}

fn ident_start_char(c: char) -> (b: bool)
    ensures
        b == is_ident_start(c),
{
    let u = c as u32;
    (u >= 'A' as u32 && u <= 'Z' as u32) || (u >= 'a' as u32 && u <= 'z' as u32) || c == '_' || c
        == '$'
}

fn ident_char(c: char) -> (b: bool)
    ensures
        b == is_ident_char(c),
{
    let u = c as u32;
    ident_start_char(c) || (u >= '0' as u32 && u <= '9' as u32)
}

fn sig_base_char(c: char) -> (b: bool)
    ensures
        b == is_sig_base_char(c),
{
    c == 'B' || c == 'C' || c == 'D' || c == 'F' || c == 'I' || c == 'J' || c == 'S' || c == 'Z'
}

fn p_ident(s: &str, i: usize, len: usize) -> (r: Option<(String, usize)>)
    requires
        i <= len,
        len == s@.len(),
    ensures
        match r {
            Some((id, j)) => sp_ident(s@, i as int) == Some((id@, j as int)) && i < j <= len,
            None => sp_ident(s@, i as int) is None,
        },
{
    if i >= len {
        return None;
    }
    if !ident_start_char(s.get_char(i)) {
        return None;
    }
    let mut j: usize = i + 1;
    loop
        invariant
            i + 1 <= j <= len,
            len == s@.len(),
            sp_ident_cont_len(s@, (i + 1) as int) == j - i - 1 + sp_ident_cont_len(s@, j as int),
        ensures
            j <= len,
            j == i + 1 + sp_ident_cont_len(s@, (i + 1) as int),
        decreases len - j,
    {
        if j >= len || !ident_char(s.get_char(j)) {
            break;
        }
        j = j + 1;
    }
    let id = s.substring_char(i, j).to_owned();
    Some((id, j))
}

fn p_pkg(s: &str, i: usize, len: usize) -> (r: (String, usize))
    requires
        i <= len,
        len == s@.len(),
    ensures
        ({
            let (p, k) = sp_pkg(s@, i as int);
            p == r.0@ && k == r.1 as int && i <= r.1 <= len
        }),
    decreases len - i,
{
    if i >= len {
        return (String::new(), i);
    }
    match p_ident(s, i, len) {
        Some((id, j)) => {
            if j < len && s.get_char(j) == '/' {
                let (rest, k) = p_pkg(s, j + 1, len);
                if rest.as_str().is_empty() {
                    (id, k)
                } else {
                    let joined = id.concat(".").concat(rest.as_str());
                    proof {
                        reveal_strlit(".");
                        assert("."@ =~= seq!['.']);
                    }
                    (joined, k)
                }
            } else {
                (String::new(), i)
            }
        },
        None => (String::new(), i),
    }
}

fn p_type_sig(s: &str, i: usize, len: usize) -> (r: Result<(TypeSignature, usize), Error>)
    requires
        i <= len,
        len == s@.len(),
    ensures
        match r {
            Ok((t, j)) => sp_type_sig(s@, i as int) == Some((type_sig_v(t), j as int)) && i < j
                <= len,
            Err(e) => sp_type_sig(s@, i as int) is None && e matches Error::BadSignature { .. },
        },
    decreases len - i, 4int,
{
    if i >= len {
        return Err(Error::BadSignature { offset: i });
    }
    let c = s.get_char(i);
    if sig_base_char(c) {
        let b = if c == 'B' {
            BaseType::Byte
        } else if c == 'C' {
            BaseType::Char
        } else if c == 'D' {
            BaseType::Double
        } else if c == 'F' {
            BaseType::Float
        } else if c == 'I' {
            BaseType::Int
        } else if c == 'J' {
            BaseType::Long
        } else if c == 'S' {
            BaseType::Short
        } else {
            BaseType::Boolean
        };
        Ok((TypeSignature::Base(b), i + 1))
    } else {
        match p_ref_type_sig(s, i, len) {
            Ok((t, j)) => Ok((TypeSignature::Reference(t), j)),
            Err(e) => Err(e),
        }
    }
}

fn p_ref_type_sig(s: &str, i: usize, len: usize) -> (r: Result<
    (ReferenceTypeSignature, usize),
    Error,
>)
    requires
        i <= len,
        len == s@.len(),
    ensures
        match r {
            Ok((t, j)) => sp_ref_type_sig(s@, i as int) == Some((ref_sig_v(t), j as int)) && i < j
                <= len,
            Err(e) => sp_ref_type_sig(s@, i as int) is None && e matches Error::BadSignature {
                ..
            },
        },
    decreases len - i, 1int,
{
    if i >= len {
        return Err(Error::BadSignature { offset: i });
    }
    let c = s.get_char(i);
    if c == 'L' {
        match p_class_type_sig(s, i, len) {
            Ok((t, j)) => Ok((ReferenceTypeSignature::Class(t), j)),
            Err(e) => Err(e),
        }
    } else if c == 'T' {
        match p_ident(s, i + 1, len) {
            Some((id, j)) => {
                if j < len && s.get_char(j) == ';' {
                    Ok(
                        (
                            ReferenceTypeSignature::TypeVariable(
                                TypeVariableSignature { identifier: id },
                            ),
                            j + 1,
                        ),
                    )
                } else {
                    Err(Error::BadSignature { offset: j })
                }
            },
            None => Err(Error::BadSignature { offset: i }),
        }
    } else if c == '[' {
        match p_type_sig(s, i + 1, len) {
            Ok((t, j)) => Ok(
                (
                    ReferenceTypeSignature::Array(
                        ArrayTypeSignature { java_type_signature: Box::new(t) },
                    ),
                    j,
                ),
            ),
            Err(e) => Err(e),
        }
    } else {
        Err(Error::BadSignature { offset: i })
    }
}

fn p_class_type_sig(s: &str, i: usize, len: usize) -> (r: Result<(ClassTypeSignature, usize), Error>)
    requires
        i <= len,
        len == s@.len(),
    ensures
        match r {
            Ok((t, j)) => sp_class_type_sig(s@, i as int) == Some((class_type_sig_v(t), j as int))
                && i < j <= len,
            Err(e) => sp_class_type_sig(s@, i as int) is None && e matches Error::BadSignature {
                ..
            },
        },
    decreases len - i, 0int,
{
    if i >= len || s.get_char(i) != 'L' {
        return Err(Error::BadSignature { offset: i });
    }
    let (pkg, p) = p_pkg(s, i + 1, len);
    match p_simple(s, p, len) {
        Ok((sim, q)) => {
            let (sufs, rr) = p_suffixes_star(s, q, len);
            if rr < len && s.get_char(rr) == ';' {
                let package_specifier = if pkg.as_str().is_empty() {
                    None
                } else {
                    Some(pkg)
                };
                Ok(
                    (
                        ClassTypeSignature {
                            package_specifier,
                            simple_class_type_signature: sim,
                            class_type_signature_suffixes: sufs,
                        },
                        rr + 1,
                    ),
                )
            } else {
                Err(Error::BadSignature { offset: rr })
            }
        },
        Err(e) => Err(e),
    }
}

fn p_simple(s: &str, i: usize, len: usize) -> (r: Result<(SimpleClassTypeSignature, usize), Error>)
    requires
        i <= len,
        len == s@.len(),
    ensures
        match r {
            Ok((t, j)) => sp_simple(s@, i as int) == Some((simple_v(t), j as int)) && i < j <= len,
            Err(e) => sp_simple(s@, i as int) is None && e matches Error::BadSignature { .. },
        },
    decreases len - i, 0int,
{
    if i >= len {
        return Err(Error::BadSignature { offset: i });
    }
    match p_ident(s, i, len) {
        Some((id, j)) => {
            if j < len && s.get_char(j) == '<' {
                let (args, k) = p_type_args_star(s, j + 1, len);
                if args.len() >= 1 && k < len && s.get_char(k) == '>' {
                    Ok(
                        (
                            SimpleClassTypeSignature {
                                identifier: id,
                                type_arguments: Some(args),
                            },
                            k + 1,
                        ),
                    )
                } else {
                    Err(Error::BadSignature { offset: k })
                }
            } else {
                Ok((SimpleClassTypeSignature { identifier: id, type_arguments: None }, j))
            }
        },
        None => Err(Error::BadSignature { offset: i }),
    }
}

fn p_type_args_star(s: &str, i: usize, len: usize) -> (r: (Vec<TypeArgument>, usize))
    requires
        i <= len,
        len == s@.len(),
    ensures
        ({
            let (vs, j) = sp_type_args_star(s@, i as int);
            vs == type_args_v(r.0@) && j == r.1 as int && i <= r.1 <= len
        }),
    decreases len - i, 3int,
{
    if i >= len {
        return (Vec::new(), i);
    }
    match p_type_arg(s, i, len) {
        Ok((a, j)) => {
            let (mut rest, k) = p_type_args_star(s, j, len);
            let ghost rest0 = rest@;
            let ghost a0 = a;
            let mut v: Vec<TypeArgument> = Vec::new();
            v.push(a);
            v.append(&mut rest);
            proof {
                assert(v@ =~= seq![a0] + rest0);
                assert(v@.drop_first() =~= rest0);
                assert(type_args_v(v@) =~= seq![type_arg_v(a0)] + type_args_v(rest0));
            }
            (v, k)
        },
        Err(_) => (Vec::new(), i),
    }
}

fn p_type_arg(s: &str, i: usize, len: usize) -> (r: Result<(TypeArgument, usize), Error>)
    requires
        i <= len,
        len == s@.len(),
    ensures
        match r {
            Ok((t, j)) => sp_type_arg(s@, i as int) == Some((type_arg_v(t), j as int)) && i < j
                <= len,
            Err(e) => sp_type_arg(s@, i as int) is None && e matches Error::BadSignature { .. },
        },
    decreases len - i, 2int,
{
    if i >= len {
        return Err(Error::BadSignature { offset: i });
    }
    let c = s.get_char(i);
    if c == '*' {
        return Ok((TypeArgument::Any, i + 1));
    }
    let (w, p): (Option<WildcardIndicator>, usize) = if c == '+' {
        (Some(WildcardIndicator::Plus), i + 1)
    } else if c == '-' {
        (Some(WildcardIndicator::Minus), i + 1)
    } else {
        (None, i)
    };
    match p_ref_type_sig(s, p, len) {
        Ok((t, j)) => Ok((TypeArgument::ReferenceType(w, t), j)),
        Err(e) => Err(e),
    }
}

fn p_suffixes_star(s: &str, i: usize, len: usize) -> (r: (Vec<SimpleClassTypeSignature>, usize))
    requires
        i <= len,
        len == s@.len(),
    ensures
        ({
            let (vs, j) = sp_suffixes_star(s@, i as int);
            vs == suffixes_v(r.0@) && j == r.1 as int && i <= r.1 <= len
        }),
    decreases len - i, 0int,
{
    if i >= len || s.get_char(i) != '.' {
        return (Vec::new(), i);
    }
    match p_simple(s, i + 1, len) {
        Ok((sim, j)) => {
            let (mut rest, k) = p_suffixes_star(s, j, len);
            let ghost rest0 = rest@;
            let ghost sim0 = sim;
            let mut v: Vec<SimpleClassTypeSignature> = Vec::new();
            v.push(sim);
            v.append(&mut rest);
            proof {
                assert(v@ =~= seq![sim0] + rest0);
                assert(v@.drop_first() =~= rest0);
                assert(suffixes_v(v@) =~= seq![simple_v(sim0)] + suffixes_v(rest0));
            }
            (v, k)
        },
        Err(_) => (Vec::new(), i),
    }
}

fn p_class_bound(s: &str, i: usize, len: usize) -> (r: Result<
    (Option<ReferenceTypeSignature>, usize),
    Error,
>)
    requires
        i <= len,
        len == s@.len(),
    ensures
        match r {
            Ok((cb, j)) => sp_class_bound(s@, i as int) == Some((opt_ref_sig_v(cb), j as int)) && i
                < j <= len,
            Err(e) => sp_class_bound(s@, i as int) is None && e matches Error::BadSignature { .. },
        },
{
    if i >= len || s.get_char(i) != ':' {
        return Err(Error::BadSignature { offset: i });
    }
    let p = i + 1;
    if p < len && (s.get_char(p) == ':' || s.get_char(p) == '>') {
        return Ok((None, p));
    }
    match p_ref_type_sig(s, p, len) {
        Ok((t, j)) => Ok((Some(t), j)),
        Err(e) => Err(e),
    }
}

fn p_iface_bounds_star(s: &str, i: usize, len: usize) -> (r: (Vec<ReferenceTypeSignature>, usize))
    requires
        i <= len,
        len == s@.len(),
    ensures
        ({
            let (vs, j) = sp_iface_bounds_star(s@, i as int);
            vs == ref_sigs_v(r.0@) && j == r.1 as int && i <= r.1 <= len
        }),
    decreases len - i,
{
    if i >= len || s.get_char(i) != ':' {
        return (Vec::new(), i);
    }
    match p_ref_type_sig(s, i + 1, len) {
        Ok((t, j)) => {
            let (mut rest, k) = p_iface_bounds_star(s, j, len);
            let ghost rest0 = rest@;
            let ghost t0 = t;
            let mut v: Vec<ReferenceTypeSignature> = Vec::new();
            v.push(t);
            v.append(&mut rest);
            proof {
                assert(v@ =~= seq![t0] + rest0);
                assert(v@.drop_first() =~= rest0);
                assert(ref_sigs_v(v@) =~= seq![ref_sig_v(t0)] + ref_sigs_v(rest0));
            }
            (v, k)
        },
        Err(_) => (Vec::new(), i),
    }
}

fn p_type_param(s: &str, i: usize, len: usize) -> (r: Result<(TypeParameter, usize), Error>)
    requires
        i <= len,
        len == s@.len(),
    ensures
        match r {
            Ok((t, j)) => sp_type_param(s@, i as int) == Some((type_param_v(t), j as int)) && i < j
                <= len,
            Err(e) => sp_type_param(s@, i as int) is None && e matches Error::BadSignature { .. },
        },
{
    match p_ident(s, i, len) {
        Some((id, j)) => match p_class_bound(s, j, len) {
            Ok((cb, k)) => {
                let (ibs, m) = p_iface_bounds_star(s, k, len);
                Ok(
                    (
                        TypeParameter { identifier: id, class_bound: cb, interface_bounds: ibs },
                        m,
                    ),
                )
            },
            Err(e) => Err(e),
        },
        None => Err(Error::BadSignature { offset: i }),
    }
}

fn p_type_params_star(s: &str, i: usize, len: usize) -> (r: (Vec<TypeParameter>, usize))
    requires
        i <= len,
        len == s@.len(),
    ensures
        ({
            let (vs, j) = sp_type_params_star(s@, i as int);
            vs == type_params_v(r.0@) && j == r.1 as int && i <= r.1 <= len
        }),
    decreases len - i,
{
    if i >= len {
        return (Vec::new(), i);
    }
    match p_type_param(s, i, len) {
        Ok((p, j)) => {
            let (mut rest, k) = p_type_params_star(s, j, len);
            let ghost rest0 = rest@;
            let ghost p0 = p;
            let mut v: Vec<TypeParameter> = Vec::new();
            v.push(p);
            v.append(&mut rest);
            proof {
                assert(v@ =~= seq![p0] + rest0);
                assert(v@.drop_first() =~= rest0);
                assert(type_params_v(v@) =~= seq![type_param_v(p0)] + type_params_v(rest0));
            }
            (v, k)
        },
        Err(_) => (Vec::new(), i),
    }
}

fn p_type_params_opt(s: &str, i: usize, len: usize) -> (r: Result<
    (Option<Vec<TypeParameter>>, usize),
    Error,
>)
    requires
        i <= len,
        len == s@.len(),
    ensures
        match r {
            Ok((o, j)) => sp_type_params_opt(s@, i as int) == Some((opt_type_params_v(o), j as int))
                && i <= j <= len,
            Err(e) => sp_type_params_opt(s@, i as int) is None && e matches Error::BadSignature {
                ..
            },
        },
{
    if i < len && s.get_char(i) == '<' {
        let (ps, k) = p_type_params_star(s, i + 1, len);
        if ps.len() >= 1 && k < len && s.get_char(k) == '>' {
            Ok((Some(ps), k + 1))
        } else {
            Err(Error::BadSignature { offset: k })
        }
    } else {
        Ok((None, i))
    }
}

fn p_class_type_sigs_star(s: &str, i: usize, len: usize) -> (r: (Vec<ClassTypeSignature>, usize))
    requires
        i <= len,
        len == s@.len(),
    ensures
        ({
            let (vs, j) = sp_class_type_sigs_star(s@, i as int);
            vs == class_type_sigs_v(r.0@) && j == r.1 as int && i <= r.1 <= len
        }),
    decreases len - i,
{
    if i >= len {
        return (Vec::new(), i);
    }
    match p_class_type_sig(s, i, len) {
        Ok((c, j)) => {
            let (mut rest, k) = p_class_type_sigs_star(s, j, len);
            let ghost rest0 = rest@;
            let ghost c0 = c;
            let mut v: Vec<ClassTypeSignature> = Vec::new();
            v.push(c);
            v.append(&mut rest);
            proof {
                assert(v@ =~= seq![c0] + rest0);
                assert(v@.drop_first() =~= rest0);
                assert(class_type_sigs_v(v@) =~= seq![class_type_sig_v(c0)] + class_type_sigs_v(
                    rest0,
                ));
            }
            (v, k)
        },
        Err(_) => (Vec::new(), i),
    }
}

fn p_type_sigs_star(s: &str, i: usize, len: usize) -> (r: (Vec<TypeSignature>, usize))
    requires
        i <= len,
        len == s@.len(),
    ensures
        ({
            let (vs, j) = sp_type_sigs_star(s@, i as int);
            vs == type_sigs_v(r.0@) && j == r.1 as int && i <= r.1 <= len
        }),
    decreases len - i,
{
    if i >= len {
        return (Vec::new(), i);
    }
    match p_type_sig(s, i, len) {
        Ok((t, j)) => {
            let (mut rest, k) = p_type_sigs_star(s, j, len);
            let ghost rest0 = rest@;
            let ghost t0 = t;
            let mut v: Vec<TypeSignature> = Vec::new();
            v.push(t);
            v.append(&mut rest);
            proof {
                assert(v@ =~= seq![t0] + rest0);
                assert(v@.drop_first() =~= rest0);
                assert(type_sigs_v(v@) =~= seq![type_sig_v(t0)] + type_sigs_v(rest0));
            }
            (v, k)
        },
        Err(_) => (Vec::new(), i),
    }
}

fn p_throws(s: &str, i: usize, len: usize) -> (r: Result<(ThrowsSignature, usize), Error>)
    requires
        i <= len,
        len == s@.len(),
    ensures
        match r {
            Ok((t, j)) => sp_throws(s@, i as int) == Some((throws_sig_v(t), j as int)) && i < j
                <= len,
            Err(e) => sp_throws(s@, i as int) is None && e matches Error::BadSignature { .. },
        },
{
    if i >= len || s.get_char(i) != '^' {
        return Err(Error::BadSignature { offset: i });
    }
    match p_ref_type_sig(s, i + 1, len) {
        Ok((ReferenceTypeSignature::Class(c), j)) => Ok(
            (ThrowsSignature::ClassTypeSignature(c), j),
        ),
        Ok((ReferenceTypeSignature::TypeVariable(v), j)) => Ok(
            (ThrowsSignature::TypeVariableSignature(v), j),
        ),
        Ok((ReferenceTypeSignature::Array(_), _)) => Err(Error::BadSignature { offset: i }),
        Err(e) => Err(e),
    }
}

fn p_throws_star(s: &str, i: usize, len: usize) -> (r: (Vec<ThrowsSignature>, usize))
    requires
        i <= len,
        len == s@.len(),
    ensures
        ({
            let (vs, j) = sp_throws_star(s@, i as int);
            vs == throws_sigs_v(r.0@) && j == r.1 as int && i <= r.1 <= len
        }),
    decreases len - i,
{
    if i >= len {
        return (Vec::new(), i);
    }
    match p_throws(s, i, len) {
        Ok((t, j)) => {
            let (mut rest, k) = p_throws_star(s, j, len);
            let ghost rest0 = rest@;
            let ghost t0 = t;
            let mut v: Vec<ThrowsSignature> = Vec::new();
            v.push(t);
            v.append(&mut rest);
            proof {
                assert(v@ =~= seq![t0] + rest0);
                assert(v@.drop_first() =~= rest0);
                assert(throws_sigs_v(v@) =~= seq![throws_sig_v(t0)] + throws_sigs_v(rest0));
            }
            (v, k)
        },
        Err(_) => (Vec::new(), i),
    }
}

/// Parse a `JavaTypeSignature` from the front of `input`; on success the
/// unconsumed tail is returned beside the tree.
pub fn parse_type_signature<'a>(input: &'a str) -> (r: Result<(&'a str, TypeSignature), Error>)
    ensures
        match r {
            Ok((rest, t)) => {
                &&& sp_type_sig(input@, 0) == Some(
                    (type_sig_v(t), input@.len() - rest@.len()),
                )
                &&& rest@ == input@.subrange(input@.len() - rest@.len(), input@.len() as int)
            },
            Err(e) => sp_type_sig(input@, 0) is None && e matches Error::BadSignature { .. },
        },
{
    let len = input.unicode_len();
    match p_type_sig(input, 0, len) {
        Ok((t, j)) => {
            let rest = input.substring_char(j, len);
            Ok((rest, t))
        },
        Err(e) => Err(e),
    }
}

/// Parse a `ClassSignature` from the front of `input`.
pub fn parse_class_signature<'a>(input: &'a str) -> (r: Result<(&'a str, ClassSignature), Error>)
    ensures
        match r {
            Ok((rest, cs)) => {
                &&& sp_class_sig(input@, 0) == Some(
                    (class_sig_v(cs), input@.len() - rest@.len()),
                )
                &&& rest@ == input@.subrange(input@.len() - rest@.len(), input@.len() as int)
            },
            Err(e) => sp_class_sig(input@, 0) is None && e matches Error::BadSignature { .. },
        },
{
    let len = input.unicode_len();
    match p_type_params_opt(input, 0, len) {
        Ok((tps, j)) => match p_class_type_sig(input, j, len) {
            Ok((sup, k)) => {
                let (ifaces, m) = p_class_type_sigs_star(input, k, len);
                let rest = input.substring_char(m, len);
                Ok(
                    (
                        rest,
                        ClassSignature {
                            type_parameters: tps,
                            superclass_signature: sup,
                            superinterface_signatures: ifaces,
                        },
                    ),
                )
            },
            Err(e) => Err(e),
        },
        Err(e) => Err(e),
    }
}

/// Parse a `MethodSignature` from the front of `input`.
pub fn parse_method_signature<'a>(input: &'a str) -> (r: Result<(&'a str, MethodSignature), Error>)
    ensures
        match r {
            Ok((rest, ms)) => {
                &&& sp_method_sig(input@, 0) == Some(
                    (method_sig_v(ms), input@.len() - rest@.len()),
                )
                &&& rest@ == input@.subrange(input@.len() - rest@.len(), input@.len() as int)
            },
            Err(e) => sp_method_sig(input@, 0) is None && e matches Error::BadSignature { .. },
        },
{
    let len = input.unicode_len();
    match p_type_params_opt(input, 0, len) {
        Ok((tps, j)) => {
            if j < len && input.get_char(j) == '(' {
                let (params, k) = p_type_sigs_star(input, j + 1, len);
                if k < len && input.get_char(k) == ')' {
                    let rp = k + 1;
                    if rp < len && input.get_char(rp) == 'V' {
                        let (throws, m) = p_throws_star(input, rp + 1, len);
                        let rest = input.substring_char(m, len);
                        Ok(
                            (
                                rest,
                                MethodSignature {
                                    type_parameters: tps,
                                    parameters: params,
                                    result: SigResult::VoidDescriptor,
                                    throws_signatures: throws,
                                },
                            ),
                        )
                    } else {
                        match p_type_sig(input, rp, len) {
                            Ok((t, q)) => {
                                let (throws, m) = p_throws_star(input, q, len);
                                let rest = input.substring_char(m, len);
                                Ok(
                                    (
                                        rest,
                                        MethodSignature {
                                            type_parameters: tps,
                                            parameters: params,
                                            result: SigResult::JavaTypeSignature(t),
                                            throws_signatures: throws,
                                        },
                                    ),
                                )
                            },
                            Err(e) => Err(e),
                        }
                    }
                } else {
                    Err(Error::BadSignature { offset: k })
                }
            } else {
                Err(Error::BadSignature { offset: j })
            }
        },
        Err(e) => Err(e),
    }
}

/// Parse a `FieldSignature` from the front of `input`.
pub fn parse_field_signature<'a>(input: &'a str) -> (r: Result<(&'a str, FieldSignature), Error>)
    ensures
        match r {
            Ok((rest, fs)) => {
                &&& sp_field_sig(input@, 0) == Some(
                    (field_sig_v(fs), input@.len() - rest@.len()),
                )
                &&& rest@ == input@.subrange(input@.len() - rest@.len(), input@.len() as int)
            },
            Err(e) => sp_field_sig(input@, 0) is None && e matches Error::BadSignature { .. },
        },
{
    let len = input.unicode_len();
    match p_ref_type_sig(input, 0, len) {
        Ok((t, j)) => {
            let rest = input.substring_char(j, len);
            Ok((rest, FieldSignature { reference_type_signature: t }))
        },
        Err(e) => Err(e),
    }
}


/// Element-wise description of `type_sigs_v`.
pub proof fn lemma_type_sigs_v_index(v: Seq<TypeSignature>)
    ensures
        type_sigs_v(v).len() == v.len(),
        forall|k: int| 0 <= k < v.len() ==> type_sigs_v(v)[k] == type_sig_v(v[k]),
    decreases v.len(),
{
    if v.len() > 0 {
        lemma_type_sigs_v_index(v.drop_first());
    }
}

/// Element-wise description of `type_params_v`.
pub proof fn lemma_type_params_v_index(v: Seq<TypeParameter>)
    ensures
        type_params_v(v).len() == v.len(),
        forall|k: int| 0 <= k < v.len() ==> type_params_v(v)[k] == type_param_v(v[k]),
    decreases v.len(),
{
    if v.len() > 0 {
        lemma_type_params_v_index(v.drop_first());
    }
}


// ---------------------------------------------------------------------------
// Law: parsing and re-emitting a signature reproduces the text exactly.
// ---------------------------------------------------------------------------
/// Dotted package text back to internal slashed form.
pub open spec fn dots_to_slashes(p: Seq<char>) -> Seq<char> {
    p.map_values(
        |c: char|
            if c == '.' {
                '/'
            } else {
                c
            },
    )
}

/// The text of a package prefix: empty, or slashed segments each ending `/`.
pub open spec fn emit_pkg_text(p: Seq<char>) -> Seq<char> {
    if p.len() == 0 {
        Seq::empty()
    } else {
        dots_to_slashes(p) + seq!['/']
    }
}

pub open spec fn emit_sig_base(b: BaseType) -> char {
    match b {
        BaseType::Byte => 'B',
        BaseType::Char => 'C',
        BaseType::Double => 'D',
        BaseType::Float => 'F',
        BaseType::Int => 'I',
        BaseType::Long => 'J',
        BaseType::Short => 'S',
        BaseType::Boolean => 'Z',
    }
}

pub open spec fn emit_type_sig(t: TypeSigV) -> Seq<char>
    decreases t,
{
    match t {
        TypeSigV::Base(b) => seq![emit_sig_base(b)],
        TypeSigV::Reference(r) => emit_ref_sig(r),
    }
}

pub open spec fn emit_ref_sig(r: RefSigV) -> Seq<char>
    decreases r,
{
    match r {
        RefSigV::TypeVariable(id) => seq!['T'] + id + seq![';'],
        RefSigV::Class(c) => emit_class_type_sig(c),
        RefSigV::Array(inner) => seq!['['] + emit_type_sig(*inner),
    }
}

pub open spec fn emit_class_type_sig(c: ClassTypeSigV) -> Seq<char>
    decreases c,
{
    seq!['L'] + emit_pkg_text(
        match c.package_specifier {
            Some(p) => p,
            None => Seq::empty(),
        },
    ) + emit_simple(c.simple) + emit_suffixes(c.suffixes) + seq![';']
}

pub open spec fn emit_simple(x: SimpleSigV) -> Seq<char>
    decreases x,
{
    x.identifier + (match x.type_arguments {
        Some(args) => seq!['<'] + emit_type_args(args) + seq!['>'],
        None => Seq::empty(),
    })
}

pub open spec fn emit_type_args(v: Seq<TypeArgV>) -> Seq<char>
    decreases v,
{
    if v.len() == 0 {
        Seq::empty()
    } else {
        emit_type_arg(v[0]) + emit_type_args(v.drop_first())
    }
}

pub open spec fn emit_type_arg(a: TypeArgV) -> Seq<char>
    decreases a,
{
    match a {
        TypeArgV::Any => seq!['*'],
        TypeArgV::ReferenceType(w, r) => (match w {
            Some(WildcardIndicator::Plus) => seq!['+'],
            Some(WildcardIndicator::Minus) => seq!['-'],
            None => Seq::empty(),
        }) + emit_ref_sig(r),
    }
}

pub open spec fn emit_suffixes(v: Seq<SimpleSigV>) -> Seq<char>
    decreases v,
{
    if v.len() == 0 {
        Seq::empty()
    } else {
        seq!['.'] + emit_simple(v[0]) + emit_suffixes(v.drop_first())
    }
}

pub open spec fn emit_class_bound(b: Option<RefSigV>) -> Seq<char> {
    seq![':'] + (match b {
        Some(r) => emit_ref_sig(r),
        None => Seq::empty(),
    })
}

pub open spec fn emit_iface_bounds(v: Seq<RefSigV>) -> Seq<char>
    decreases v,
{
    if v.len() == 0 {
        Seq::empty()
    } else {
        seq![':'] + emit_ref_sig(v[0]) + emit_iface_bounds(v.drop_first())
    }
}

pub open spec fn emit_type_param(p: TypeParamV) -> Seq<char> {
    p.identifier + emit_class_bound(p.class_bound) + emit_iface_bounds(p.interface_bounds)
}

pub open spec fn emit_type_params(v: Seq<TypeParamV>) -> Seq<char>
    decreases v,
{
    if v.len() == 0 {
        Seq::empty()
    } else {
        emit_type_param(v[0]) + emit_type_params(v.drop_first())
    }
}

pub open spec fn emit_type_params_opt(o: Option<Seq<TypeParamV>>) -> Seq<char> {
    match o {
        Some(ps) => seq!['<'] + emit_type_params(ps) + seq!['>'],
        None => Seq::empty(),
    }
}

pub open spec fn emit_class_type_sigs(v: Seq<ClassTypeSigV>) -> Seq<char>
    decreases v,
{
    if v.len() == 0 {
        Seq::empty()
    } else {
        emit_class_type_sig(v[0]) + emit_class_type_sigs(v.drop_first())
    }
}

/// The text a parsed class signature prints back to.
pub open spec fn emit_class_sig(c: ClassSigV) -> Seq<char> {
    emit_type_params_opt(c.type_parameters) + emit_class_type_sig(c.superclass_signature)
        + emit_class_type_sigs(c.superinterface_signatures)
}

pub open spec fn emit_type_sigs(v: Seq<TypeSigV>) -> Seq<char>
    decreases v,
{
    if v.len() == 0 {
        Seq::empty()
    } else {
        emit_type_sig(v[0]) + emit_type_sigs(v.drop_first())
    }
}

pub open spec fn emit_throws_one(t: ThrowsV) -> Seq<char> {
    match t {
        ThrowsV::ClassTypeSignature(c) => seq!['^'] + emit_class_type_sig(c),
        ThrowsV::TypeVariableSignature(id) => seq!['^', 'T'] + id + seq![';'],
    }
}

pub open spec fn emit_throws(v: Seq<ThrowsV>) -> Seq<char>
    decreases v,
{
    if v.len() == 0 {
        Seq::empty()
    } else {
        emit_throws_one(v[0]) + emit_throws(v.drop_first())
    }
}

/// The text a parsed method signature prints back to.
pub open spec fn emit_method_sig(m: MethodSigV) -> Seq<char> {
    emit_type_params_opt(m.type_parameters) + seq!['('] + emit_type_sigs(m.parameters) + seq![')']
        + (match m.result {
        SigResultV::JavaTypeSignature(t) => emit_type_sig(t),
        SigResultV::VoidDescriptor => seq!['V'],
    }) + emit_throws(m.throws_signatures)
}

/// The text a parsed field signature prints back to.
pub open spec fn emit_field_sig(f: FieldSigV) -> Seq<char> {
    emit_ref_sig(f.reference_type_signature)
}

proof fn lemma_ident_cont_chars(s: Seq<char>, i: int)
    requires
        0 <= i <= s.len(),
    ensures
        sp_ident_cont_len(s, i) <= s.len() - i,
        forall|k: int| i <= k < i + sp_ident_cont_len(s, i) ==> is_ident_char(#[trigger] s[k]),
    decreases s.len() - i,
{
    if i < s.len() && is_ident_char(s[i]) {
        lemma_ident_cont_chars(s, i + 1);
    }
}

proof fn lemma_ident_rt(s: Seq<char>, i: int)
    requires
        0 <= i,
    ensures
        sp_ident(s, i) matches Some((id, j)) ==> {
            &&& i < j <= s.len()
            &&& id == s.subrange(i, j)
            &&& id.len() >= 1
            &&& forall|k: int| i <= k < j ==> is_ident_char(#[trigger] s[k])
        },
{
    if i < s.len() && is_ident_start(s[i]) {
        lemma_ident_cont_chars(s, i + 1);
    }
}

proof fn lemma_pkg_rt(s: Seq<char>, i: int)
    requires
        0 <= i <= s.len(),
    ensures
        ({
            let (p, k) = sp_pkg(s, i);
            &&& i <= k <= s.len()
            &&& emit_pkg_text(p) == s.subrange(i, k)
        }),
    decreases s.len() - i,
{
    if i < s.len() {
        lemma_ident_rt(s, i);
        if let Some((id, j)) = sp_ident(s, i) {
            if j < s.len() && s[j] == '/' {
                assert(step_at(i, j + 1, s.len() as int) == j + 1);
                lemma_pkg_rt(s, j + 1);
                let (rest, k) = sp_pkg(s, j + 1);
                if rest.len() == 0 {
                    assert(s.subrange(j + 1, k).len() == 0);
                    assert(k == j + 1);
                    assert(dots_to_slashes(id) =~= s.subrange(i, j)) by {
                        assert(forall|k2: int|
                            0 <= k2 < id.len() ==> is_ident_char(#[trigger] id[k2]));
                    };
                    assert(emit_pkg_text(id) =~= s.subrange(i, j + 1));
                } else {
                    let joined = id + seq!['.'] + rest;
                    assert(dots_to_slashes(joined) =~= dots_to_slashes(id) + seq!['/']
                        + dots_to_slashes(rest));
                    assert(dots_to_slashes(id) =~= id) by {
                        assert(forall|k2: int|
                            0 <= k2 < id.len() ==> is_ident_char(#[trigger] id[k2]));
                    };
                    assert(emit_pkg_text(rest) == dots_to_slashes(rest) + seq!['/']);
                    assert(emit_pkg_text(joined) =~= s.subrange(i, k)) by {
                        assert(emit_pkg_text(joined) =~= (id + seq!['/']) + (dots_to_slashes(rest)
                            + seq!['/']));
                        assert(id + seq!['/'] =~= s.subrange(i, j + 1));
                        assert(s.subrange(i, j + 1) + s.subrange(j + 1, k) =~= s.subrange(i, k));
                    };
                }
            }
        }
    }
}

proof fn lemma_rt_type_sig(s: Seq<char>, i: int)
    requires
        0 <= i,
    ensures
        sp_type_sig(s, i) matches Some((t, j)) ==> {
            &&& i < j <= s.len()
            &&& emit_type_sig(t) == s.subrange(i, j)
        },
    decreases s.len() - i, 4int,
{
    if i < s.len() {
        if is_sig_base_char(s[i]) {
            assert(seq![emit_sig_base(sig_base_ty_of(s[i]))] =~= s.subrange(i, i + 1));
        } else {
            lemma_rt_ref_sig(s, i);
        }
    }
}

proof fn lemma_rt_ref_sig(s: Seq<char>, i: int)
    requires
        0 <= i,
    ensures
        sp_ref_type_sig(s, i) matches Some((r, j)) ==> {
            &&& i < j <= s.len()
            &&& emit_ref_sig(r) == s.subrange(i, j)
        },
    decreases s.len() - i, 1int,
{
    if i < s.len() {
        if s[i] == 'L' {
            lemma_rt_class_type_sig(s, i);
        } else if s[i] == 'T' {
            lemma_ident_rt(s, i + 1);
            if let Some((id, j)) = sp_ident(s, i + 1) {
                if j < s.len() && s[j] == ';' {
                    assert(seq!['T'] + id + seq![';'] =~= s.subrange(i, j + 1));
                }
            }
        } else if s[i] == '[' {
            lemma_rt_type_sig(s, i + 1);
            if let Some((t, j)) = sp_type_sig(s, i + 1) {
                assert(seq!['['] + emit_type_sig(t) =~= s.subrange(i, j));
            }
        }
    }
}

#[verifier::rlimit(100)]
proof fn lemma_rt_class_type_sig(s: Seq<char>, i: int)
    requires
        0 <= i,
    ensures
        sp_class_type_sig(s, i) matches Some((c, j)) ==> {
            &&& i < j <= s.len()
            &&& emit_class_type_sig(c) == s.subrange(i, j)
        },
    decreases s.len() - i, 0int,
{
    if i < s.len() && s[i] == 'L' {
        lemma_pkg_rt(s, i + 1);
        let (pkg, p) = sp_pkg(s, i + 1);
        assert(step_at(i, p, s.len() as int) == p);
        lemma_rt_simple(s, p);
        if let Some((sim, q)) = sp_simple(s, p) {
            assert(step_at(i, q, s.len() as int) == q);
            lemma_rt_suffixes(s, q);
            let (sufs, rr) = sp_suffixes_star(s, q);
            if rr < s.len() && s[rr] == ';' {
                let c = ClassTypeSigV {
                    package_specifier: if pkg.len() == 0 {
                        None
                    } else {
                        Some(pkg)
                    },
                    simple: sim,
                    suffixes: sufs,
                };
                assert(emit_pkg_text(
                    match c.package_specifier {
                        Some(p2) => p2,
                        None => Seq::empty(),
                    },
                ) == s.subrange(i + 1, p)) by {
                    if pkg.len() == 0 {
                        assert(emit_pkg_text(Seq::<char>::empty()) =~= Seq::<char>::empty());
                        assert(s.subrange(i + 1, p).len() == 0);
                        assert(Seq::<char>::empty() =~= s.subrange(i + 1, p));
                    }
                };
                let a1 = seq!['L'];
                assert(a1 =~= s.subrange(i, i + 1));
                let a2 = a1 + emit_pkg_text(
                    match c.package_specifier {
                        Some(p2) => p2,
                        None => Seq::empty(),
                    },
                );
                assert(a2 == s.subrange(i, p)) by {
                    assert(s.subrange(i, i + 1) + s.subrange(i + 1, p) =~= s.subrange(i, p));
                };
                let a3 = a2 + emit_simple(sim);
                assert(a3 == s.subrange(i, q)) by {
                    assert(s.subrange(i, p) + s.subrange(p, q) =~= s.subrange(i, q));
                };
                let a4 = a3 + emit_suffixes(sufs);
                assert(a4 == s.subrange(i, rr)) by {
                    assert(s.subrange(i, q) + s.subrange(q, rr) =~= s.subrange(i, rr));
                };
                let a5 = a4 + seq![';'];
                assert(a5 == s.subrange(i, rr + 1)) by {
                    assert(seq![';'] =~= s.subrange(rr, rr + 1));
                    assert(s.subrange(i, rr) + s.subrange(rr, rr + 1) =~= s.subrange(i, rr + 1));
                };
                assert(emit_class_type_sig(c) == a5);
            }
        }
    }
}

proof fn lemma_rt_simple(s: Seq<char>, i: int)
    requires
        0 <= i,
    ensures
        sp_simple(s, i) matches Some((x, j)) ==> {
            &&& i < j <= s.len()
            &&& emit_simple(x) == s.subrange(i, j)
        },
    decreases s.len() - i, 0int,
{
    if i < s.len() {
        lemma_ident_rt(s, i);
        if let Some((id, j)) = sp_ident(s, i) {
            if j < s.len() && s[j] == '<' {
                assert(step_at(i, j + 1, s.len() as int) == j + 1);
                lemma_rt_type_args(s, j + 1);
                let (args, k) = sp_type_args_star(s, j + 1);
                if args.len() >= 1 && k < s.len() && s[k] == '>' {
                    assert(id + (seq!['<'] + emit_type_args(args) + seq!['>']) =~= s.subrange(
                        i,
                        k + 1,
                    )) by {
                        assert(seq!['<'] =~= s.subrange(j, j + 1));
                        assert(seq!['>'] =~= s.subrange(k, k + 1));
                    };
                }
            } else {
                assert(id + Seq::<char>::empty() =~= s.subrange(i, j));
            }
        }
    }
}

proof fn lemma_rt_type_args(s: Seq<char>, i: int)
    requires
        0 <= i <= s.len(),
    ensures
        ({
            let (vs, j) = sp_type_args_star(s, i);
            &&& i <= j <= s.len()
            &&& emit_type_args(vs) == s.subrange(i, j)
        }),
    decreases s.len() - i, 3int,
{
    if i < s.len() {
        lemma_rt_type_arg(s, i);
        if let Some((a, j)) = sp_type_arg(s, i) {
            assert(step_at(i, j, s.len() as int) == j);
            lemma_rt_type_args(s, j);
            let (rest, k) = sp_type_args_star(s, j);
            let whole = seq![a] + rest;
            assert(whole.drop_first() =~= rest);
            assert(emit_type_args(whole) =~= s.subrange(i, k)) by {
                assert(emit_type_args(whole) == emit_type_arg(a) + emit_type_args(rest));
                assert(s.subrange(i, j) + s.subrange(j, k) =~= s.subrange(i, k));
            };
        } else {
            assert(emit_type_args(Seq::<TypeArgV>::empty()) =~= s.subrange(i, i));
        }
    } else {
        assert(emit_type_args(Seq::<TypeArgV>::empty()) =~= s.subrange(i, i));
    }
}

proof fn lemma_rt_type_arg(s: Seq<char>, i: int)
    requires
        0 <= i,
    ensures
        sp_type_arg(s, i) matches Some((a, j)) ==> {
            &&& i < j <= s.len()
            &&& emit_type_arg(a) == s.subrange(i, j)
        },
    decreases s.len() - i, 2int,
{
    if i < s.len() {
        if s[i] == '*' {
            assert(seq!['*'] =~= s.subrange(i, i + 1));
        } else {
            let w: Option<WildcardIndicator> = if s[i] == '+' {
                Some(WildcardIndicator::Plus)
            } else if s[i] == '-' {
                Some(WildcardIndicator::Minus)
            } else {
                None
            };
            let p: int = if w is Some {
                i + 1
            } else {
                i
            };
            lemma_rt_ref_sig(s, p);
            if let Some((r, j)) = sp_ref_type_sig(s, p) {
                if w is Some {
                    assert((match w {
                        Some(WildcardIndicator::Plus) => seq!['+'],
                        Some(WildcardIndicator::Minus) => seq!['-'],
                        None => Seq::<char>::empty(),
                    }) + emit_ref_sig(r) =~= s.subrange(i, j));
                } else {
                    assert(Seq::<char>::empty() + emit_ref_sig(r) =~= s.subrange(i, j));
                }
            }
        }
    }
}

proof fn lemma_rt_suffixes(s: Seq<char>, i: int)
    requires
        0 <= i <= s.len(),
    ensures
        ({
            let (vs, j) = sp_suffixes_star(s, i);
            &&& i <= j <= s.len()
            &&& emit_suffixes(vs) == s.subrange(i, j)
        }),
    decreases s.len() - i, 0int,
{
    if i < s.len() && s[i] == '.' {
        lemma_rt_simple(s, i + 1);
        if let Some((sim, j)) = sp_simple(s, i + 1) {
            assert(step_at(i, j, s.len() as int) == j);
            lemma_rt_suffixes(s, j);
            let (rest, k) = sp_suffixes_star(s, j);
            let whole = seq![sim] + rest;
            assert(whole.drop_first() =~= rest);
            assert(emit_suffixes(whole) =~= s.subrange(i, k)) by {
                assert(emit_suffixes(whole) == seq!['.'] + emit_simple(sim) + emit_suffixes(rest));
                assert(seq!['.'] =~= s.subrange(i, i + 1));
                assert(s.subrange(i, i + 1) + s.subrange(i + 1, j) =~= s.subrange(i, j));
                assert((s.subrange(i, i + 1) + s.subrange(i + 1, j)) + s.subrange(j, k)
                    =~= s.subrange(i, k));
            };
        } else {
            assert(emit_suffixes(Seq::<SimpleSigV>::empty()) =~= s.subrange(i, i));
        }
    } else {
        assert(emit_suffixes(Seq::<SimpleSigV>::empty()) =~= s.subrange(i, i));
    }
}

proof fn lemma_rt_class_bound(s: Seq<char>, i: int)
    requires
        0 <= i,
    ensures
        sp_class_bound(s, i) matches Some((b, j)) ==> {
            &&& i < j <= s.len()
            &&& emit_class_bound(b) == s.subrange(i, j)
        },
{
    if i < s.len() && s[i] == ':' {
        let p = i + 1;
        if p < s.len() && (s[p] == ':' || s[p] == '>') {
            assert(seq![':'] + Seq::<char>::empty() =~= s.subrange(i, i + 1));
        } else {
            lemma_rt_ref_sig(s, p);
            if let Some((r, j)) = sp_ref_type_sig(s, p) {
                assert(seq![':'] + emit_ref_sig(r) =~= s.subrange(i, j));
            }
        }
    }
}

proof fn lemma_rt_iface_bounds(s: Seq<char>, i: int)
    requires
        0 <= i <= s.len(),
    ensures
        ({
            let (vs, j) = sp_iface_bounds_star(s, i);
            &&& i <= j <= s.len()
            &&& emit_iface_bounds(vs) == s.subrange(i, j)
        }),
    decreases s.len() - i,
{
    if i < s.len() && s[i] == ':' {
        lemma_rt_ref_sig(s, i + 1);
        if let Some((r, j)) = sp_ref_type_sig(s, i + 1) {
            assert(step_at(i, j, s.len() as int) == j);
            lemma_rt_iface_bounds(s, j);
            let (rest, k) = sp_iface_bounds_star(s, j);
            let whole = seq![r] + rest;
            assert(whole.drop_first() =~= rest);
            assert(emit_iface_bounds(whole) =~= s.subrange(i, k)) by {
                assert(emit_iface_bounds(whole) == seq![':'] + emit_ref_sig(r) + emit_iface_bounds(
                    rest,
                ));
                assert(seq![':'] =~= s.subrange(i, i + 1));
                assert(s.subrange(i, i + 1) + s.subrange(i + 1, j) =~= s.subrange(i, j));
                assert((s.subrange(i, i + 1) + s.subrange(i + 1, j)) + s.subrange(j, k)
                    =~= s.subrange(i, k));
            };
        } else {
            assert(emit_iface_bounds(Seq::<RefSigV>::empty()) =~= s.subrange(i, i));
        }
    } else {
        assert(emit_iface_bounds(Seq::<RefSigV>::empty()) =~= s.subrange(i, i));
    }
}

proof fn lemma_rt_type_param(s: Seq<char>, i: int)
    requires
        0 <= i,
    ensures
        sp_type_param(s, i) matches Some((p, j)) ==> {
            &&& i < j <= s.len()
            &&& emit_type_param(p) == s.subrange(i, j)
        },
{
    lemma_ident_rt(s, i);
    if let Some((id, j)) = sp_ident(s, i) {
        lemma_rt_class_bound(s, j);
        if let Some((cb, k)) = sp_class_bound(s, j) {
            lemma_rt_iface_bounds(s, k);
            let (ibs, m) = sp_iface_bounds_star(s, k);
            assert(id + emit_class_bound(cb) + emit_iface_bounds(ibs) =~= s.subrange(i, m)) by {
                assert(s.subrange(i, j) + s.subrange(j, k) =~= s.subrange(i, k));
                assert(s.subrange(i, k) + s.subrange(k, m) =~= s.subrange(i, m));
            };
        }
    }
}

proof fn lemma_rt_type_params(s: Seq<char>, i: int)
    requires
        0 <= i <= s.len(),
    ensures
        ({
            let (vs, j) = sp_type_params_star(s, i);
            &&& i <= j <= s.len()
            &&& emit_type_params(vs) == s.subrange(i, j)
        }),
    decreases s.len() - i,
{
    if i < s.len() {
        lemma_rt_type_param(s, i);
        if let Some((p, j)) = sp_type_param(s, i) {
            assert(step_at(i, j, s.len() as int) == j);
            lemma_rt_type_params(s, j);
            let (rest, k) = sp_type_params_star(s, j);
            let whole = seq![p] + rest;
            assert(whole.drop_first() =~= rest);
            assert(emit_type_params(whole) =~= s.subrange(i, k)) by {
                assert(emit_type_params(whole) == emit_type_param(p) + emit_type_params(rest));
                assert(s.subrange(i, j) + s.subrange(j, k) =~= s.subrange(i, k));
            };
        } else {
            assert(emit_type_params(Seq::<TypeParamV>::empty()) =~= s.subrange(i, i));
        }
    } else {
        assert(emit_type_params(Seq::<TypeParamV>::empty()) =~= s.subrange(i, i));
    }
}

proof fn lemma_rt_type_params_opt(s: Seq<char>, i: int)
    requires
        0 <= i <= s.len(),
    ensures
        sp_type_params_opt(s, i) matches Some((o, j)) ==> {
            &&& i <= j <= s.len()
            &&& emit_type_params_opt(o) == s.subrange(i, j)
        },
{
    if i < s.len() && s[i] == '<' {
        lemma_rt_type_params(s, i + 1);
        let (ps, k) = sp_type_params_star(s, i + 1);
        if ps.len() >= 1 && k < s.len() && s[k] == '>' {
            assert(seq!['<'] + emit_type_params(ps) + seq!['>'] =~= s.subrange(i, k + 1)) by {
                assert(seq!['<'] =~= s.subrange(i, i + 1));
                assert(seq!['>'] =~= s.subrange(k, k + 1));
            };
        }
    } else {
        assert(Seq::<char>::empty() =~= s.subrange(i, i));
    }
}

proof fn lemma_rt_class_type_sigs(s: Seq<char>, i: int)
    requires
        0 <= i <= s.len(),
    ensures
        ({
            let (vs, j) = sp_class_type_sigs_star(s, i);
            &&& i <= j <= s.len()
            &&& emit_class_type_sigs(vs) == s.subrange(i, j)
        }),
    decreases s.len() - i,
{
    if i < s.len() {
        lemma_rt_class_type_sig(s, i);
        if let Some((c, j)) = sp_class_type_sig(s, i) {
            assert(step_at(i, j, s.len() as int) == j);
            lemma_rt_class_type_sigs(s, j);
            let (rest, k) = sp_class_type_sigs_star(s, j);
            let whole = seq![c] + rest;
            assert(whole.drop_first() =~= rest);
            assert(emit_class_type_sigs(whole) =~= s.subrange(i, k)) by {
                assert(emit_class_type_sigs(whole) == emit_class_type_sig(c) + emit_class_type_sigs(
                    rest,
                ));
                assert(s.subrange(i, j) + s.subrange(j, k) =~= s.subrange(i, k));
            };
        } else {
            assert(emit_class_type_sigs(Seq::<ClassTypeSigV>::empty()) =~= s.subrange(i, i));
        }
    } else {
        assert(emit_class_type_sigs(Seq::<ClassTypeSigV>::empty()) =~= s.subrange(i, i));
    }
}

proof fn lemma_rt_type_sigs(s: Seq<char>, i: int)
    requires
        0 <= i <= s.len(),
    ensures
        ({
            let (vs, j) = sp_type_sigs_star(s, i);
            &&& i <= j <= s.len()
            &&& emit_type_sigs(vs) == s.subrange(i, j)
        }),
    decreases s.len() - i,
{
    if i < s.len() {
        lemma_rt_type_sig(s, i);
        if let Some((t, j)) = sp_type_sig(s, i) {
            assert(step_at(i, j, s.len() as int) == j);
            lemma_rt_type_sigs(s, j);
            let (rest, k) = sp_type_sigs_star(s, j);
            let whole = seq![t] + rest;
            assert(whole.drop_first() =~= rest);
            assert(emit_type_sigs(whole) =~= s.subrange(i, k)) by {
                assert(emit_type_sigs(whole) == emit_type_sig(t) + emit_type_sigs(rest));
                assert(s.subrange(i, j) + s.subrange(j, k) =~= s.subrange(i, k));
            };
        } else {
            assert(emit_type_sigs(Seq::<TypeSigV>::empty()) =~= s.subrange(i, i));
        }
    } else {
        assert(emit_type_sigs(Seq::<TypeSigV>::empty()) =~= s.subrange(i, i));
    }
}

proof fn lemma_rt_throws(s: Seq<char>, i: int)
    requires
        0 <= i <= s.len(),
    ensures
        ({
            let (vs, j) = sp_throws_star(s, i);
            &&& i <= j <= s.len()
            &&& emit_throws(vs) == s.subrange(i, j)
        }),
    decreases s.len() - i,
{
    if i < s.len() {
        if i < s.len() && s[i] == '^' {
            lemma_rt_ref_sig(s, i + 1);
        }
        if let Some((t, j)) = sp_throws(s, i) {
            assert(emit_throws_one(t) == s.subrange(i, j) && i < j <= s.len()) by {
                if let Some((r, j2)) = sp_ref_type_sig(s, i + 1) {
                    match r {
                        RefSigV::Class(c) => {
                            assert(seq!['^'] + emit_class_type_sig(c) =~= s.subrange(i, j2));
                        },
                        RefSigV::TypeVariable(id) => {
                            assert(seq!['^'] + emit_ref_sig(r) =~= s.subrange(i, j2));
                            assert(seq!['^', 'T'] + id + seq![';'] =~= seq!['^'] + emit_ref_sig(
                                r,
                            ));
                        },
                        _ => {
                            assert(false);
                        },
                    }
                }
            };
            assert(step_at(i, j, s.len() as int) == j);
            lemma_rt_throws(s, j);
            let (rest, k) = sp_throws_star(s, j);
            let whole = seq![t] + rest;
            assert(whole.drop_first() =~= rest);
            assert(emit_throws(whole) =~= s.subrange(i, k)) by {
                assert(emit_throws(whole) == emit_throws_one(t) + emit_throws(rest));
                assert(s.subrange(i, j) + s.subrange(j, k) =~= s.subrange(i, k));
            };
        } else {
            assert(emit_throws(Seq::<ThrowsV>::empty()) =~= s.subrange(i, i));
        }
    } else {
        assert(emit_throws(Seq::<ThrowsV>::empty()) =~= s.subrange(i, i));
    }
}

/// Round trip for type signatures: whatever the grammar accepts prints back
/// to exactly the text it consumed.
pub proof fn lemma_type_signature_round_trip(s: Seq<char>, t: TypeSigV, n: int)
    requires
        sp_type_sig(s, 0) == Some((t, n)),
    ensures
        emit_type_sig(t) == s.subrange(0, n),
{
    lemma_rt_type_sig(s, 0);
}

/// Round trip for class signatures.
#[verifier::rlimit(100)]
pub proof fn lemma_class_signature_round_trip(s: Seq<char>, c: ClassSigV, n: int)
    requires
        sp_class_sig(s, 0) == Some((c, n)),
    ensures
        emit_class_sig(c) == s.subrange(0, n),
{
    lemma_rt_type_params_opt(s, 0);
    if let Some((tps, j)) = sp_type_params_opt(s, 0) {
        lemma_rt_class_type_sig(s, j);
        if let Some((sup, k)) = sp_class_type_sig(s, j) {
            lemma_rt_class_type_sigs(s, k);
            let (ifaces, m) = sp_class_type_sigs_star(s, k);
            assert(emit_type_params_opt(tps) + emit_class_type_sig(sup) + emit_class_type_sigs(
                ifaces,
            ) =~= s.subrange(0, m)) by {
                assert(s.subrange(0, j) + s.subrange(j, k) =~= s.subrange(0, k));
                assert(s.subrange(0, k) + s.subrange(k, m) =~= s.subrange(0, m));
            };
        }
    }
}

/// Round trip for method signatures.
#[verifier::rlimit(100)]
pub proof fn lemma_method_signature_round_trip(s: Seq<char>, m: MethodSigV, n: int)
    requires
        sp_method_sig(s, 0) == Some((m, n)),
    ensures
        emit_method_sig(m) == s.subrange(0, n),
{
    lemma_rt_type_params_opt(s, 0);
    if let Some((tps, j)) = sp_type_params_opt(s, 0) {
        if j < s.len() && s[j] == '(' {
            lemma_rt_type_sigs(s, j + 1);
            let (params, k) = sp_type_sigs_star(s, j + 1);
            if k < s.len() && s[k] == ')' {
                let rp = k + 1;
                let a1 = emit_type_params_opt(tps);
                let a2 = a1 + seq!['('];
                assert(a2 == s.subrange(0, j + 1)) by {
                    assert(seq!['('] =~= s.subrange(j, j + 1));
                    assert(s.subrange(0, j) + s.subrange(j, j + 1) =~= s.subrange(0, j + 1));
                };
                let a3 = a2 + emit_type_sigs(params);
                assert(a3 == s.subrange(0, k)) by {
                    assert(s.subrange(0, j + 1) + s.subrange(j + 1, k) =~= s.subrange(0, k));
                };
                let a4 = a3 + seq![')'];
                assert(a4 == s.subrange(0, rp)) by {
                    assert(seq![')'] =~= s.subrange(k, rp));
                    assert(s.subrange(0, k) + s.subrange(k, rp) =~= s.subrange(0, rp));
                };
                if rp < s.len() && s[rp] == 'V' {
                    let (throws, q) = sp_throws_star(s, rp + 1);
                    lemma_rt_throws(s, rp + 1);
                    let a5 = a4 + seq!['V'];
                    assert(a5 == s.subrange(0, rp + 1)) by {
                        assert(seq!['V'] =~= s.subrange(rp, rp + 1));
                        assert(s.subrange(0, rp) + s.subrange(rp, rp + 1) =~= s.subrange(
                            0,
                            rp + 1,
                        ));
                    };
                    let a6 = a5 + emit_throws(throws);
                    assert(a6 == s.subrange(0, q)) by {
                        assert(s.subrange(0, rp + 1) + s.subrange(rp + 1, q) =~= s.subrange(0, q));
                    };
                    assert(emit_method_sig(m) == a6);
                } else {
                    lemma_rt_type_sig(s, rp);
                    if let Some((t, q)) = sp_type_sig(s, rp) {
                        lemma_rt_throws(s, q);
                        let (throws, w) = sp_throws_star(s, q);
                        let a5 = a4 + emit_type_sig(t);
                        assert(a5 == s.subrange(0, q)) by {
                            assert(s.subrange(0, rp) + s.subrange(rp, q) =~= s.subrange(0, q));
                        };
                        let a6 = a5 + emit_throws(throws);
                        assert(a6 == s.subrange(0, w)) by {
                            assert(s.subrange(0, q) + s.subrange(q, w) =~= s.subrange(0, w));
                        };
                        assert(emit_method_sig(m) == a6);
                    }
                }
            }
        }
    }
}

/// Round trip for field signatures.
pub proof fn lemma_field_signature_round_trip(s: Seq<char>, f: FieldSigV, n: int)
    requires
        sp_field_sig(s, 0) == Some((f, n)),
    ensures
        emit_field_sig(f) == s.subrange(0, n),
{
    lemma_rt_ref_sig(s, 0);
}

} // verus!
