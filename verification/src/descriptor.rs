//! The JVM field / method descriptor mini-language.
//!
//! A field descriptor is one primitive letter, an `L…;` object type, or a run
//! of `[` followed by a non-array descriptor. A method descriptor is `(`,
//! a sequence of field descriptors, `)`, and a return descriptor (`V` or a
//! field descriptor).

use vstd::prelude::*;

use crate::error::Error;

verus! {

/// A parsed field descriptor together with the exact text it consumed.
#[derive(Debug, PartialEq, Eq)]
pub struct FieldDescriptor {
    pub descriptor: String,
    pub ty: FieldTy,
}

#[derive(Debug, PartialEq, Eq)]
pub enum FieldTy {
    Base(BaseTy),
    Obj(ObjTy),
    Array(ArrayTy),
}

#[derive(Debug, Clone, Copy, PartialEq, Eq, Structural)]
pub enum BaseTy {
    Byte,
    Char,
    Double,
    Float,
    Int,
    Long,
    Short,
    Boolean,
    Void,
}

#[derive(Debug, PartialEq, Eq)]
pub struct ObjTy {
    pub class_name: String,
}

#[derive(Debug, PartialEq, Eq)]
pub struct ArrayTy {
    pub ty: Box<FieldTy>,
    pub dims: usize,
}

/// A parsed method descriptor: the whole text, the parameter descriptors in
/// order, and the return descriptor.
#[derive(Debug, PartialEq, Eq)]
pub struct MethodDescriptor {
    pub descriptor: String,
    pub param_descs: Vec<FieldDescriptor>,
    pub ret_desc: ReturnDescriptor,
}

#[derive(Debug, PartialEq, Eq)]
pub enum ReturnDescriptor {
    TyDesc(FieldDescriptor),
    Void,
}

/// Mathematical form of a `FieldTy`: class names as character sequences.
pub enum FieldTyV {
    Base(BaseTy),
    Obj(Seq<char>),
    Array(Box<FieldTyV>, nat),
}

/// Mathematical form of a `FieldDescriptor`.
pub struct FieldDescV {
    pub descriptor: Seq<char>,
    pub ty: FieldTyV,
}

/// Mathematical form of a `ReturnDescriptor`.
pub enum RetDescV {
    TyDesc(FieldDescV),
    Void,
}

/// Mathematical form of a `MethodDescriptor`.
pub struct MethodDescV {
    pub descriptor: Seq<char>,
    pub params: Seq<FieldDescV>,
    pub ret: RetDescV,
}

pub open spec fn field_ty_v(t: FieldTy) -> FieldTyV
    decreases t,
{
    match t {
        FieldTy::Base(b) => FieldTyV::Base(b),
        FieldTy::Obj(o) => FieldTyV::Obj(o.class_name@),
        FieldTy::Array(a) => FieldTyV::Array(Box::new(field_ty_v(*a.ty)), a.dims as nat),
    }
}

pub open spec fn field_desc_v(d: FieldDescriptor) -> FieldDescV {
    FieldDescV { descriptor: d.descriptor@, ty: field_ty_v(d.ty) }
}

pub open spec fn ret_desc_v(r: ReturnDescriptor) -> RetDescV {
    match r {
        ReturnDescriptor::TyDesc(d) => RetDescV::TyDesc(field_desc_v(d)),
        ReturnDescriptor::Void => RetDescV::Void,
    }
}

pub open spec fn method_desc_v(m: MethodDescriptor) -> MethodDescV {
    MethodDescV {
        descriptor: m.descriptor@,
        params: m.param_descs@.map_values(|d: FieldDescriptor| field_desc_v(d)),
        ret: ret_desc_v(m.ret_desc),
    }
}

/// The nine primitive descriptor letters (`V` stands for void).
pub open spec fn is_base_char(c: char) -> bool {
    c == 'B' || c == 'C' || c == 'D' || c == 'F' || c == 'I' || c == 'J' || c == 'S' || c == 'Z'
        || c == 'V'
}

pub open spec fn base_ty_of(c: char) -> BaseTy {
    if c == 'B' {
        BaseTy::Byte
    } else if c == 'C' {
        BaseTy::Char
    } else if c == 'D' {
        BaseTy::Double
    } else if c == 'F' {
        BaseTy::Float
    } else if c == 'I' {
        BaseTy::Int
    } else if c == 'J' {
        BaseTy::Long
    } else if c == 'S' {
        BaseTy::Short
    } else if c == 'Z' {
        BaseTy::Boolean
    } else {
        BaseTy::Void
    }
}

pub open spec fn base_char_of(b: BaseTy) -> char {
    match b {
        BaseTy::Byte => 'B',
        BaseTy::Char => 'C',
        BaseTy::Double => 'D',
        BaseTy::Float => 'F',
        BaseTy::Int => 'I',
        BaseTy::Long => 'J',
        BaseTy::Short => 'S',
        BaseTy::Boolean => 'Z',
        BaseTy::Void => 'V',
    }
}

/// Position of the first `;` at or after `i`, if any.
pub open spec fn sp_find_semi(s: Seq<char>, i: int) -> Option<int>
    decreases s.len() - i,
{
    if i < s.len() {
        if s[i] == ';' {
            Some(i)
        } else {
            sp_find_semi(s, i + 1)
        }
    } else {
        None
    }
}

/// The field-descriptor grammar, as a function from a position in the text to
/// the parsed type and the position just past it.
pub open spec fn sp_parse_field_ty(s: Seq<char>, i: int) -> Option<(FieldTyV, int)>
    decreases s.len() - i,
{
    if i < s.len() {
        let c = s[i];
        if is_base_char(c) {
            Some((FieldTyV::Base(base_ty_of(c)), i + 1))
        } else if c == 'L' {
            match sp_find_semi(s, i + 1) {
                Some(j) => Some((FieldTyV::Obj(s.subrange(i + 1, j)), j + 1)),
                None => None,
            }
        } else if c == '[' {
            match sp_parse_field_ty(s, i + 1) {
                Some((t, j)) => match t {
                    FieldTyV::Array(inner, dims) => Some(
                        (FieldTyV::Array(inner, (dims + 1) as nat), j),
                    ),
                    _ => Some((FieldTyV::Array(Box::new(t), 1nat), j)),
                },
                None => None,
            }
        } else {
            None
        }
    } else {
        None
    }
}

pub proof fn lemma_find_semi_bounds(s: Seq<char>, i: int)
    ensures
        sp_find_semi(s, i) matches Some(j) ==> i <= j < s.len() && s[j] == ';',
    decreases s.len() - i,
{
    if i < s.len() && s[i] != ';' {
        lemma_find_semi_bounds(s, i + 1);
    }
}

/// A successful parse always consumes at least one character and never runs
/// past the end of the text.
pub proof fn lemma_parse_field_ty_bounds(s: Seq<char>, i: int)
    ensures
        sp_parse_field_ty(s, i) matches Some((t, j)) ==> i < j <= s.len(),
    decreases s.len() - i,
{
    if i < s.len() {
        if s[i] == 'L' {
            lemma_find_semi_bounds(s, i + 1);
        } else if s[i] == '[' {
            lemma_parse_field_ty_bounds(s, i + 1);
        }
    }
}

/// The parameter descriptors of a method descriptor: field descriptors up to
/// the closing `)`, which is consumed.
pub open spec fn sp_parse_param_descs(s: Seq<char>, i: int) -> Option<(Seq<FieldDescV>, int)>
    decreases s.len() - i,
    via sp_parse_param_descs_dec
{
    if i < s.len() {
        if s[i] == ')' {
            Some((Seq::empty(), i + 1))
        } else {
            match sp_parse_field_ty(s, i) {
                Some((t, j)) => match sp_parse_param_descs(s, j) {
                    Some((ps, k)) => Some(
                        (seq![FieldDescV { descriptor: s.subrange(i, j), ty: t }] + ps, k),
                    ),
                    None => None,
                },
                None => None,
            }
        }
    } else {
        None
    }
}

#[via_fn]
proof fn sp_parse_param_descs_dec(s: Seq<char>, i: int) {
    lemma_parse_field_ty_bounds(s, i);
}

/// The method-descriptor grammar over the whole text: `(`, parameters, `)`,
/// then `V` or a field descriptor, with nothing left over.
pub open spec fn sp_parse_method_desc(s: Seq<char>) -> Option<MethodDescV> {
    if s.len() > 0 && s[0] == '(' {
        match sp_parse_param_descs(s, 1) {
            Some((ps, j)) => if j < s.len() && s[j] == 'V' {
                if j + 1 == s.len() {
                    Some(MethodDescV { descriptor: s, params: ps, ret: RetDescV::Void })
                } else {
                    None
                }
            } else {
                match sp_parse_field_ty(s, j) {
                    Some((t, k)) => if k == s.len() {
                        Some(
                            MethodDescV {
                                descriptor: s,
                                params: ps,
                                ret: RetDescV::TyDesc(
                                    FieldDescV { descriptor: s.subrange(j, k), ty: t },
                                ),
                            },
                        )
                    } else {
                        None
                    },
                    None => None,
                }
            },
            None => None,
        }
    } else {
        None
    }
}

/// Number of array dimensions at the top of a type; zero for non-arrays.
pub open spec fn top_dims(t: FieldTyV) -> nat {
    match t {
        FieldTyV::Array(_, dims) => dims,
        _ => 0,
    }
}

/// Helper for `parse_field_ty`: scan for the `;` that ends an `L…;` form.
fn find_semi(s: &str, start: usize, len: usize) -> (r: Option<usize>)
    requires
        start <= len,
        len == s@.len(),
    ensures
        match r {
            Some(j) => sp_find_semi(s@, start as int) == Some(j as int) && start <= j < len,
            None => sp_find_semi(s@, start as int) is None,
        },
{
    let mut j: usize = start;
    loop
        invariant
            start <= j <= len,
            len == s@.len(),
            sp_find_semi(s@, start as int) == sp_find_semi(s@, j as int),
        decreases len - j,
    {
        if j >= len {
            return None;
        }
        let c = s.get_char(j);
        if c == ';' {
            return Some(j);
        }
        j = j + 1;
    }
}

/// Parse one field descriptor starting at character position `i`.
fn parse_field_ty(s: &str, i: usize, len: usize) -> (r: Result<(FieldTy, usize), Error>)
    requires
        i <= len,
        len == s@.len(),
    ensures
        match r {
            Ok((t, j)) => {
                &&& sp_parse_field_ty(s@, i as int) == Some((field_ty_v(t), j as int))
                &&& i < j <= len
                &&& top_dims(field_ty_v(t)) <= j - i
            },
            Err(e) => e == Error::BadDescriptor && sp_parse_field_ty(s@, i as int) is None,
        },
    decreases len - i,
{
    if i >= len {
        return Err(Error::BadDescriptor);
    }
    let c = s.get_char(i);
    if c == 'B' {
        Ok((FieldTy::Base(BaseTy::Byte), i + 1))
    } else if c == 'C' {
        Ok((FieldTy::Base(BaseTy::Char), i + 1))
    } else if c == 'D' {
        Ok((FieldTy::Base(BaseTy::Double), i + 1))
    } else if c == 'F' {
        Ok((FieldTy::Base(BaseTy::Float), i + 1))
    } else if c == 'I' {
        Ok((FieldTy::Base(BaseTy::Int), i + 1))
    } else if c == 'J' {
        Ok((FieldTy::Base(BaseTy::Long), i + 1))
    } else if c == 'S' {
        Ok((FieldTy::Base(BaseTy::Short), i + 1))
    } else if c == 'Z' {
        Ok((FieldTy::Base(BaseTy::Boolean), i + 1))
    } else if c == 'V' {
        Ok((FieldTy::Base(BaseTy::Void), i + 1))
    } else if c == 'L' {
        match find_semi(s, i + 1, len) {
            Some(j) => {
                let class_name = s.substring_char(i + 1, j).to_owned();
                Ok((FieldTy::Obj(ObjTy { class_name }), j + 1))
            },
            None => Err(Error::BadDescriptor),
        }
    } else if c == '[' {
        match parse_field_ty(s, i + 1, len) {
            Ok((t, j)) => match t {
                FieldTy::Array(a) => Ok((FieldTy::Array(ArrayTy { ty: a.ty, dims: a.dims + 1 }), j)),
                _ => Ok((FieldTy::Array(ArrayTy { ty: Box::new(t), dims: 1 }), j)),
            },
            Err(e) => Err(e),
        }
    } else {
        Err(Error::BadDescriptor)
    }
}

/// Parse a field descriptor from the front of `descriptor`.
///
/// On success the returned `descriptor` field holds exactly the consumed
/// prefix of the input, and the type is the one the grammar assigns to it.
pub fn parse_field_descriptor(descriptor: &str) -> (r: Result<FieldDescriptor, Error>)
    ensures
        match r {
            Ok(fd) => {
                &&& sp_parse_field_ty(descriptor@, 0) == Some(
                    (field_ty_v(fd.ty), fd.descriptor@.len() as int),
                )
                &&& fd.descriptor@ == descriptor@.take(fd.descriptor@.len() as int)
            },
            Err(e) => e == Error::BadDescriptor && sp_parse_field_ty(descriptor@, 0) is None,
        },
{
    let len = descriptor.unicode_len();
    match parse_field_ty(descriptor, 0, len) {
        Ok((t, j)) => {
            let prefix = descriptor.substring_char(0, j).to_owned();
            assert(prefix@ == descriptor@.take(j as int));
            Ok(FieldDescriptor { descriptor: prefix, ty: t })
        },
        Err(e) => Err(e),
    }
}

/// Glue a parsed prefix onto the continuation of a parameter-list parse.
pub open spec fn prepend_params(
    pre: Seq<FieldDescV>,
    o: Option<(Seq<FieldDescV>, int)>,
) -> Option<(Seq<FieldDescV>, int)> {
    match o {
        Some((ps, k)) => Some((pre + ps, k)),
        None => None,
    }
}

/// Parse a method descriptor. The whole input must be consumed.
///
/// On success the result's `descriptor` holds the input text itself, the
/// parameter descriptors are those between `(` and `)` in order, and the
/// return descriptor is `Void` for `V` or the parsed field descriptor.
pub fn parse_method_descriptor(descriptor: &str) -> (r: Result<MethodDescriptor, Error>)
    ensures
        match r {
            Ok(md) => sp_parse_method_desc(descriptor@) == Some(method_desc_v(md)) && md.descriptor@
                == descriptor@,
            Err(e) => e == Error::BadDescriptor && sp_parse_method_desc(descriptor@) is None,
        },
{
    let len = descriptor.unicode_len();
    if len == 0 || descriptor.get_char(0) != '(' {
        return Err(Error::BadDescriptor);
    }
    let mut param_descs: Vec<FieldDescriptor> = Vec::new();
    let mut cur: usize = 1;
    let mut close: usize = 0;
    loop
        invariant
            1 <= cur <= len,
            len == descriptor@.len(),
            sp_parse_param_descs(descriptor@, 1) == prepend_params(
                param_descs@.map_values(|d: FieldDescriptor| field_desc_v(d)),
                sp_parse_param_descs(descriptor@, cur as int),
            ),
        ensures
            close <= len,
            sp_parse_param_descs(descriptor@, 1) == Some(
                (param_descs@.map_values(|d: FieldDescriptor| field_desc_v(d)), close as int),
            ),
        decreases len - cur,
    {
        if cur >= len {
            return Err(Error::BadDescriptor);
        }
        if descriptor.get_char(cur) == ')' {
            close = cur + 1;
            proof {
                let built = param_descs@.map_values(|d: FieldDescriptor| field_desc_v(d));
                assert(built + Seq::<FieldDescV>::empty() =~= built);
            }
            break;
        }
        let ghost params_before = param_descs@.map_values(|d: FieldDescriptor| field_desc_v(d));
        match parse_field_ty(descriptor, cur, len) {
            Ok((t, j)) => {
                let prefix = descriptor.substring_char(cur, j).to_owned();
                param_descs.push(FieldDescriptor { descriptor: prefix, ty: t });
                proof {
                    let fd = FieldDescV {
                        descriptor: descriptor@.subrange(cur as int, j as int),
                        ty: field_ty_v(t),
                    };
                    assert(param_descs@.map_values(|d: FieldDescriptor| field_desc_v(d))
                        =~= params_before + seq![fd]);
                    assert forall|o: Option<(Seq<FieldDescV>, int)>|
                        prepend_params(params_before, prepend_params(seq![fd], o)) == prepend_params(
                            params_before + seq![fd],
                            o,
                        ) by {
                        match o {
                            Some((ps, k)) => {
                                assert(params_before + (seq![fd] + ps) =~= (params_before
                                    + seq![fd]) + ps);
                            },
                            None => {},
                        }
                    }
                }
                cur = j;
            },
            Err(e) => {
                return Err(e);
            },
        }
    }
    // Past the `)`: the return descriptor, which must end the input.
    if close < len && descriptor.get_char(close) == 'V' {
        if close + 1 == len {
            Ok(
                MethodDescriptor {
                    descriptor: descriptor.to_owned(),
                    param_descs,
                    ret_desc: ReturnDescriptor::Void,
                },
            )
        } else {
            Err(Error::BadDescriptor)
        }
    } else {
        match parse_field_ty(descriptor, close, len) {
            Ok((t, k)) => {
                if k == len {
                    let prefix = descriptor.substring_char(close, k).to_owned();
                    Ok(
                        MethodDescriptor {
                            descriptor: descriptor.to_owned(),
                            param_descs,
                            ret_desc: ReturnDescriptor::TyDesc(
                                FieldDescriptor { descriptor: prefix, ty: t },
                            ),
                        },
                    )
                } else {
                    Err(Error::BadDescriptor)
                }
            },
            Err(e) => Err(e),
        }
    }
}

/// A run of `n` opening brackets.
pub open spec fn brackets(n: nat) -> Seq<char>
    decreases n,
{
    if n == 0 {
        Seq::empty()
    } else {
        seq!['['] + brackets((n - 1) as nat)
    }
}

/// The text a parsed field type prints back to.
pub open spec fn emit_field_ty(t: FieldTyV) -> Seq<char>
    decreases t,
{
    match t {
        FieldTyV::Base(b) => seq![base_char_of(b)],
        FieldTyV::Obj(name) => seq!['L'] + name + seq![';'],
        FieldTyV::Array(inner, dims) => brackets(dims) + emit_field_ty(*inner),
    }
}

/// Whatever the field-descriptor grammar accepts prints back to exactly the
/// text it consumed.
pub proof fn lemma_field_ty_round_trip(s: Seq<char>, i: int)
    requires
        0 <= i,
    ensures
        sp_parse_field_ty(s, i) matches Some((t, j)) ==> emit_field_ty(t) == s.subrange(i, j),
    decreases s.len() - i,
{
    lemma_parse_field_ty_bounds(s, i);
    if i < s.len() {
        let c = s[i];
        if is_base_char(c) {
            assert(seq![base_char_of(base_ty_of(c))] =~= s.subrange(i, i + 1));
        } else if c == 'L' {
            lemma_find_semi_bounds(s, i + 1);
            if let Some(j) = sp_find_semi(s, i + 1) {
                assert(seq!['L'] + s.subrange(i + 1, j) + seq![';'] =~= s.subrange(i, j + 1));
            }
        } else if c == '[' {
            lemma_parse_field_ty_bounds(s, i + 1);
            lemma_field_ty_round_trip(s, i + 1);
            if let Some((t0, j)) = sp_parse_field_ty(s, i + 1) {
                assert(s.subrange(i, j) =~= seq!['['] + s.subrange(i + 1, j));
                match t0 {
                    FieldTyV::Array(inner, dims) => {
                        assert(brackets((dims + 1) as nat) == seq!['['] + brackets(dims));
                        assert(emit_field_ty(FieldTyV::Array(inner, (dims + 1) as nat))
                            =~= seq!['['] + (brackets(dims) + emit_field_ty(*inner)));
                    },
                    _ => {
                        assert(brackets(0nat) =~= Seq::<char>::empty());
                        assert(brackets(1nat) =~= seq!['[']);
                        assert(emit_field_ty(FieldTyV::Array(Box::new(t0), 1nat)) =~= seq!['[']
                            + emit_field_ty(t0));
                    },
                }
            }
        }
    }
}

/// Round trip for a complete field-descriptor string: if the grammar accepts
/// `s` in full, the parsed type prints back to `s` itself.
pub proof fn lemma_field_descriptor_round_trip(s: Seq<char>, t: FieldTyV)
    requires
        sp_parse_field_ty(s, 0) == Some((t, s.len() as int)),
    ensures
        emit_field_ty(t) == s,
{
    lemma_field_ty_round_trip(s, 0);
    assert(s.subrange(0, s.len() as int) =~= s);
}

} // verus!
