//! Core data types: font resource handles as the host reports them, the
//! per-resource load outcomes the table builder consumes, and named byte
//! buffers (resolved font entries), together with their mathematical views.

use vstd::prelude::*;

verus! {

/// A font resource belonging to a family, as reported by the host font
/// system: either a file on disk (with an index selecting one font inside a
/// multi-font container such as a `.ttc`) or a blob of bytes already
/// resident in memory.
#[derive(Clone, Debug, PartialEq, Eq)]
pub enum FontHandle {
    PathResource { path: String, container_index: u32 },
    MemoryResource { bytes: Vec<u8> },
}

/// The view of a `FontHandle`.
#[verifier::ext_equal]
pub ghost enum HandleModel {
    Path { path: Seq<char>, container_index: u32 },
    Memory { bytes: Seq<u8> },
}

impl View for FontHandle {
    type V = HandleModel;

    open spec fn view(&self) -> HandleModel {
        match self {
            FontHandle::PathResource { path, container_index } => HandleModel::Path {
                path: path@,
                container_index: *container_index,
            },
            FontHandle::MemoryResource { bytes } => HandleModel::Memory { bytes: bytes@ },
        }
    }
}

/// The outcome of loading one font resource of a family, kept in the order
/// the host reported the resources.
#[derive(Clone, Debug, PartialEq, Eq)]
pub enum FontRecord {
    /// A path-resident font that was opened and parsed; `name` is the
    /// font's self-reported full name.
    Parsed { name: String, bytes: Vec<u8> },
    /// A path-resident font that could not be opened or parsed. It is
    /// skipped and the rest of its family is still processed, so one corrupt
    /// installed font cannot abort the whole build.
    Unparsable,
    /// A memory-resident font. Raw bytes carry no discoverable name, so an
    /// entry name is synthesized from the family name and the resource's
    /// position within the family.
    InMemory { bytes: Vec<u8> },
}

/// The view of a `FontRecord`.
#[verifier::ext_equal]
pub ghost enum RecordModel {
    Parsed { name: Seq<char>, bytes: Seq<u8> },
    Unparsable,
    InMemory { bytes: Seq<u8> },
}

impl View for FontRecord {
    type V = RecordModel;

    open spec fn view(&self) -> RecordModel {
        match self {
            FontRecord::Parsed { name, bytes } => RecordModel::Parsed {
                name: name@,
                bytes: bytes@,
            },
            FontRecord::Unparsable => RecordModel::Unparsable,
            FontRecord::InMemory { bytes } => RecordModel::InMemory { bytes: bytes@ },
        }
    }
}

/// One enumerated family: its name and the load outcome of each of its
/// resources, in enumeration order.
#[derive(Clone, Debug, PartialEq, Eq)]
pub struct FamilyData {
    pub name: String,
    pub fonts: Vec<FontRecord>,
}

/// The view of a `FamilyData`.
#[verifier::ext_equal]
pub ghost struct FamilyModel {
    pub name: Seq<char>,
    pub fonts: Seq<RecordModel>,
}

impl View for FamilyData {
    type V = FamilyModel;

    open spec fn view(&self) -> FamilyModel {
        FamilyModel { name: self.name@, fonts: self.fonts@.map_values(|r: FontRecord| r@) }
    }
}

/// A named byte buffer: one usable font, keyed in the store by its entry
/// name. The buffer is the exclusive owned copy of the font's raw data.
#[derive(Clone, Debug, PartialEq, Eq)]
pub struct ResolvedFontEntry {
    pub name: String,
    pub bytes: Vec<u8>,
}

/// The view of a `ResolvedFontEntry`.
#[verifier::ext_equal]
pub ghost struct EntryModel {
    pub name: Seq<char>,
    pub bytes: Seq<u8>,
}

impl View for ResolvedFontEntry {
    type V = EntryModel;

    open spec fn view(&self) -> EntryModel {
        EntryModel { name: self.name@, bytes: self.bytes@ }
    }
}

/// A failure of the host font system query: the set of installed families
/// could not be enumerated at all. Fatal to the build; there is no partial
/// table to expose.
#[derive(Clone, Copy, Debug, PartialEq, Eq)]
pub enum BuildError {
    EnumerationFailure,
}

} // verus!
