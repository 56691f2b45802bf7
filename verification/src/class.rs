//! A thin builder over a parsed class file.

use vstd::prelude::*;

use crate::class_file::AttributeInfo;
use crate::class_file::ClassFile;
use crate::class_file::cp_slots_v;
use crate::class_file::cp_utf8;
use crate::class_file::cp_utf8_at;
use crate::error::Error;
use crate::error::IndexSite;

verus! {

/// The version pair of a class.
#[derive(Debug, Clone, Copy, PartialEq, Eq, Structural)]
pub struct ClassInfo {
    pub minor_version: u16,
    pub major_version: u16,
}

/// A class summary assembled by `ClassBuilder`.
#[derive(Debug, Clone, Copy, PartialEq, Eq, Structural)]
pub struct Class {
    pub info: ClassInfo,
}

/// Wraps a parsed class file and answers questions against its constant pool.
#[derive(Debug)]
pub struct ClassBuilder {
    pub class_file: ClassFile,
}

impl ClassBuilder {
    pub fn new(class_file: ClassFile) -> (r: Self)
        ensures
            r.class_file == class_file,
    {
        Self { class_file }
    }

    pub fn build(&self) -> (r: Class)
        ensures
            r.info.minor_version == self.class_file.minor_version,
            r.info.major_version == self.class_file.major_version,
    {
        let info = ClassInfo {
            minor_version: self.class_file.minor_version,
            major_version: self.class_file.major_version,
        };
        Class { info }
    }

    /// Resolve an attribute's name through the constant pool, which must hold
    /// a `Utf8` entry at the attribute's name index.
    pub fn read_attribute(&self, attribute_info: &AttributeInfo) -> (r: Result<&String, Error>)
        ensures
            match r {
                Ok(name) => cp_utf8_at(
                    cp_slots_v(self.class_file.constant_pool@),
                    attribute_info.attribute_name_index,
                ) == Some(name@),
                Err(e) => cp_utf8_at(
                    cp_slots_v(self.class_file.constant_pool@),
                    attribute_info.attribute_name_index,
                ) is None && e == (Error::BadIndex {
                    site: IndexSite::AttributeName,
                    index: attribute_info.attribute_name_index,
                }),
            },
    {
        match cp_utf8(&self.class_file.constant_pool, attribute_info.attribute_name_index) {
            Some(name) => Ok(name),
            None => Err(
                Error::BadIndex {
                    site: IndexSite::AttributeName,
                    index: attribute_info.attribute_name_index,
                },
            ),
        }
    }
}

} // verus!
