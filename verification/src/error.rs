//! Error kinds surfaced by the parsers and the extractor.

use vstd::prelude::*;

verus! {

/// Which kind of one-byte tag failed to match.
#[derive(Debug, Clone, Copy, PartialEq, Eq, Structural)]
pub enum TagSite {
    ConstantPool,
    VerificationType,
    StackMapFrame,
    ElementValue,
    TargetType,
}

/// Which constant-pool reference was resolved when a `BadIndex` arose.
#[derive(Debug, Clone, Copy, PartialEq, Eq, Structural)]
pub enum IndexSite {
    AttributeName,
    ThisClass,
    SuperClass,
    Interface,
    MemberName,
    MemberDescriptor,
    SignatureText,
    SourceFileName,
    ModuleName,
    ModuleVersion,
    AnnotationType,
}

/// An error produced while decoding a class file, a descriptor, or a
/// signature, or while extracting a component.
#[derive(Debug, Clone, Copy, PartialEq, Eq, Structural)]
pub enum Error {
    /// A read requested more bytes than remained.
    Truncated,
    /// The first four bytes are not `CA FE BA BE`.
    BadMagic,
    /// An unknown one-byte tag value at the given kind of site.
    BadTag { site: TagSite, value: u8 },
    /// A constant-pool index is zero where it must not be, or points to the
    /// wrong variant.
    BadIndex { site: IndexSite, index: u16 },
    /// A structural invariant is violated (an interface with a non-`Object`
    /// superclass; a module class file without a `Module` attribute).
    BadStructure,
    /// The signature grammar failed to match at the given character offset.
    BadSignature { offset: usize },
    /// The descriptor mini-language failed to match.
    BadDescriptor,
    /// Non-empty input remained after the class file was fully parsed.
    Trailing,
}

} // verus!
