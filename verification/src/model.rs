//! The values the walk reads and the records it produces.
//!
//! Entries and attributes arrive already decoded: a tag, an attribute name
//! and the few value forms the extraction looks at. Everything here is plain
//! data with a mathematical view, so the walk can be stated over sequences
//! and maps.
use vstd::prelude::*;

verus! {

/// Tag of an entry that describes a function or method.
pub const DW_TAG_SUBPROGRAM: u16 = 0x2e;

/// Tag of an entry that describes a variable.
pub const DW_TAG_VARIABLE: u16 = 0x34;

/// Name of the attribute that holds a location description.
pub const DW_AT_LOCATION: u16 = 0x02;

/// Name of the attribute that holds the source-level name.
pub const DW_AT_NAME: u16 = 0x03;

/// Name of the attribute that refers to the entry of a type.
pub const DW_AT_TYPE: u16 = 0x49;

/// Name of the attribute that holds the linkage (mangled) name.
pub const DW_AT_LINKAGE_NAME: u16 = 0x6e;

/// The type reference recorded when an entry carries none.
pub const NO_TYPE: usize = 0;

/// The parameters of a unit that decide how its location expressions are read.
#[derive(Clone, Copy, Debug, PartialEq, Eq, Structural)]
pub struct Encoding {
    /// Byte order of multi-byte operands.
    pub little_endian: bool,
    /// Size of a target address in bytes.
    pub address_size: u8,
    /// Whether offsets are 64 bits wide (otherwise 32).
    pub dwarf64: bool,
    /// The DWARF version of the unit header.
    pub version: u16,
}

/// The kinds of entry the walk tells apart.
#[derive(Clone, Copy, Debug, PartialEq, Eq, Structural)]
pub enum EntryKind {
    Subprogram,
    Variable,
    Other,
}

/// The kind that a tag stands for.
pub open spec fn kind_of_tag(tag: u16) -> EntryKind {
    if tag == DW_TAG_SUBPROGRAM {
        EntryKind::Subprogram
    } else if tag == DW_TAG_VARIABLE {
        EntryKind::Variable
    } else {
        EntryKind::Other
    }
}

impl EntryKind {
    /// Classifies an entry by its tag.
    pub fn of_tag(tag: u16) -> (kind: EntryKind)
        ensures
            kind == kind_of_tag(tag),
    {
        if tag == DW_TAG_SUBPROGRAM {
            EntryKind::Subprogram
        } else if tag == DW_TAG_VARIABLE {
            EntryKind::Variable
        } else {
            EntryKind::Other
        }
    }
}

/// The value of an attribute, reduced to the forms the extraction reads.
#[derive(Clone, Debug, PartialEq, Eq)]
pub enum AttrValue {
    /// The bytes of a string: given inline, or found by the unit through a
    /// string reference.
    Text(Vec<u8>),
    /// A reference to another entry of the same unit, by its offset.
    UnitRef(usize),
    /// The bytes of a location expression.
    Exprloc(Vec<u8>),
    /// Any other encoding, and any string reference that could not be resolved.
    Other,
}

/// One attribute of an entry.
#[derive(Clone, Debug, PartialEq, Eq)]
pub struct Attribute {
    /// The attribute's name code.
    pub name: u16,
    /// Its value.
    pub value: AttrValue,
    /// A debug rendering of the raw value, shown where no string can be had.
    pub rendering: String,
}

/// One node of the debug-information tree.
#[derive(Clone, Debug, PartialEq, Eq)]
pub struct Entry {
    /// Offset of the entry within its unit.
    pub offset: usize,
    /// The entry's tag code.
    pub tag: u16,
    /// Its attributes, in the order in which the unit lists them.
    pub attrs: Vec<Attribute>,
}

/// A local variable of a function.
#[derive(Clone, Debug, PartialEq, Eq)]
pub struct Variable {
    pub name: String,
    /// Offset of the entry that describes the variable's type; `NO_TYPE` if none.
    pub type_ref: usize,
    /// Offset from the frame base, where it is known statically.
    pub frame_offset: Option<i64>,
}

/// A function with the local variables found inside it.
#[derive(Clone, Debug, PartialEq, Eq)]
pub struct Subprogram {
    pub name: String,
    /// The name the function is keyed by.
    pub linkage_name: String,
    /// Offset of the entry that describes the return type; `NO_TYPE` if none.
    pub return_type_ref: usize,
    /// The variables, in the order in which the walk met them.
    pub variables: Vec<Variable>,
}

/// Mathematical value of an [`AttrValue`].
pub enum AttrValueModel {
    Text(Seq<u8>),
    UnitRef(usize),
    Exprloc(Seq<u8>),
    Other,
}

/// Mathematical value of an [`Attribute`].
pub struct AttributeModel {
    pub name: u16,
    pub value: AttrValueModel,
    pub rendering: Seq<char>,
}

/// Mathematical value of an [`Entry`].
pub struct EntryModel {
    pub offset: usize,
    pub tag: u16,
    pub attrs: Seq<AttributeModel>,
}

/// Mathematical value of a [`Variable`].
pub struct VariableModel {
    pub name: Seq<char>,
    pub type_ref: usize,
    pub frame_offset: Option<i64>,
}

/// Mathematical value of a [`Subprogram`].
pub struct SubprogramModel {
    pub name: Seq<char>,
    pub linkage_name: Seq<char>,
    pub return_type_ref: usize,
    pub variables: Seq<VariableModel>,
}

impl View for AttrValue {
    type V = AttrValueModel;

    open spec fn view(&self) -> AttrValueModel {
        match self {
            AttrValue::Text(bytes) => AttrValueModel::Text(bytes@),
            AttrValue::UnitRef(offset) => AttrValueModel::UnitRef(*offset),
            AttrValue::Exprloc(bytes) => AttrValueModel::Exprloc(bytes@),
            AttrValue::Other => AttrValueModel::Other,
        }
    }
}

impl View for Attribute {
    type V = AttributeModel;

    open spec fn view(&self) -> AttributeModel {
        AttributeModel { name: self.name, value: self.value@, rendering: self.rendering@ }
    }
}

impl View for Entry {
    type V = EntryModel;

    open spec fn view(&self) -> EntryModel {
        EntryModel {
            offset: self.offset,
            tag: self.tag,
            attrs: self.attrs@.map_values(|a: Attribute| a@),
        }
    }
}

impl View for Variable {
    type V = VariableModel;

    open spec fn view(&self) -> VariableModel {
        VariableModel {
            name: self.name@,
            type_ref: self.type_ref,
            frame_offset: self.frame_offset,
        }
    }
}

impl View for Subprogram {
    type V = SubprogramModel;

    open spec fn view(&self) -> SubprogramModel {
        SubprogramModel {
            name: self.name@,
            linkage_name: self.linkage_name@,
            return_type_ref: self.return_type_ref,
            variables: self.variables@.map_values(|v: Variable| v@),
        }
    }
}

impl SubprogramModel {
    /// The record with one more variable at the end of its list.
    pub open spec fn with_variable(self, v: VariableModel) -> SubprogramModel {
        SubprogramModel { variables: self.variables.push(v), ..self }
    }
}

} // verus!
