//! What one entry contributes: a fresh function record, a variable, or
//! nothing but its decoded attributes.
//!
//! An entry may list an attribute more than once. The last occurrence counts;
//! a type attribute that is no reference is passed over, so that an earlier
//! reference (or `NO_TYPE`) stands.
use vstd::prelude::*;
use crate::decode::{
    decode_location, decode_name, decode_type_ref, location_of, name_of, type_ref_of, DecodedName,
    DecodedNameModel,
};
use crate::model::{
    Attribute, AttributeModel, Encoding, Entry, EntryModel, Subprogram, SubprogramModel, Variable,
    VariableModel, DW_AT_LINKAGE_NAME, DW_AT_LOCATION, DW_AT_NAME, DW_AT_TYPE, NO_TYPE,
};

verus! {

/// The last attribute called `code`, if there is one.
pub open spec fn last_named(attrs: Seq<AttributeModel>, code: u16) -> Option<AttributeModel>
    decreases attrs.len(),
{
    if attrs.len() == 0 {
        None
    } else if attrs.last().name == code {
        Some(attrs.last())
    } else {
        last_named(attrs.drop_last(), code)
    }
}

/// The text of the last attribute called `code`; empty if there is none.
pub open spec fn text_in(attrs: Seq<AttributeModel>, code: u16) -> Seq<char> {
    match last_named(attrs, code) {
        Some(attr) => name_of(attr).text(),
        None => Seq::empty(),
    }
}

/// The target of the last type attribute that is a reference; `NO_TYPE` if
/// there is none.
pub open spec fn type_ref_in(attrs: Seq<AttributeModel>) -> usize
    decreases attrs.len(),
{
    if attrs.len() == 0 {
        NO_TYPE
    } else if attrs.last().name == DW_AT_TYPE && type_ref_of(attrs.last()) is Ok {
        type_ref_of(attrs.last())->Ok_0
    } else {
        type_ref_in(attrs.drop_last())
    }
}

/// The static frame offset of the last location attribute; `None` if there
/// is no location attribute.
pub open spec fn frame_offset_in(encoding: Encoding, attrs: Seq<AttributeModel>) -> Option<i64> {
    match last_named(attrs, DW_AT_LOCATION) {
        Some(attr) => location_of(encoding, attr),
        None => None,
    }
}

/// The record that a subprogram entry opens: no variables yet.
pub open spec fn subprogram_of(entry: EntryModel) -> SubprogramModel {
    SubprogramModel {
        name: text_in(entry.attrs, DW_AT_NAME),
        linkage_name: text_in(entry.attrs, DW_AT_LINKAGE_NAME),
        return_type_ref: type_ref_in(entry.attrs),
        variables: Seq::empty(),
    }
}

/// The variable that a variable entry describes.
pub open spec fn variable_of(encoding: Encoding, entry: EntryModel) -> VariableModel {
    VariableModel {
        name: text_in(entry.attrs, DW_AT_NAME),
        type_ref: type_ref_in(entry.attrs),
        frame_offset: frame_offset_in(encoding, entry.attrs),
    }
}

/// Every attribute of an entry, decoded as a name.
pub open spec fn names_of(entry: EntryModel) -> Seq<DecodedNameModel> {
    entry.attrs.map_values(|attr: AttributeModel| name_of(attr))
}

/// The first `n` attributes, by value.
spec fn seen(attrs: Seq<Attribute>, n: int) -> Seq<AttributeModel> {
    attrs.map_values(|a: Attribute| a@).take(n)
}

/// One more attribute seen: the new prefix ends in it and continues the old.
proof fn lemma_seen_next(attrs: Seq<Attribute>, n: int)
    requires
        0 <= n < attrs.len(),
    ensures
        seen(attrs, n + 1).len() == n + 1,
        seen(attrs, n + 1).last() == attrs[n]@,
        seen(attrs, n + 1).drop_last() == seen(attrs, n),
{
    assert(seen(attrs, n + 1).drop_last() =~= seen(attrs, n));
}

/// All attributes seen: the prefix is the whole list.
proof fn lemma_seen_all(attrs: Seq<Attribute>)
    ensures
        seen(attrs, attrs.len() as int) == attrs.map_values(|a: Attribute| a@),
{
    assert(seen(attrs, attrs.len() as int) =~= attrs.map_values(|a: Attribute| a@));
}

/// Reads a subprogram entry: its name, linkage name and return type, each
/// with its default where the entry does not say. The record has no
/// variables.
pub fn handle_subprogram(entry: &Entry) -> (subprogram: Subprogram)
    ensures
        subprogram@ == subprogram_of(entry@),
{
    let mut name = String::new();
    let mut linkage_name = String::new();
    let mut return_type_ref: usize = NO_TYPE;
    let mut i: usize = 0;
    while i < entry.attrs.len()
        invariant
            i <= entry.attrs.len(),
            name@ == text_in(seen(entry.attrs@, i as int), DW_AT_NAME),
            linkage_name@ == text_in(seen(entry.attrs@, i as int), DW_AT_LINKAGE_NAME),
            return_type_ref == type_ref_in(seen(entry.attrs@, i as int)),
        decreases entry.attrs.len() - i,
    {
        let attr = &entry.attrs[i];
        proof {
            lemma_seen_next(entry.attrs@, i as int);
        }
        if attr.name == DW_AT_NAME {
            name = decode_name(attr).into_text();
        } else if attr.name == DW_AT_LINKAGE_NAME {
            linkage_name = decode_name(attr).into_text();
        } else if attr.name == DW_AT_TYPE {
            match decode_type_ref(attr) {
                Ok(target) => {
                    return_type_ref = target;
                },
                Err(_) => {},
            }
        }
        i += 1;
    }
    proof {
        lemma_seen_all(entry.attrs@);
    }
    let subprogram = Subprogram { name, linkage_name, return_type_ref, variables: Vec::new() };
    assert(subprogram@.variables =~= Seq::empty());
    subprogram
}

/// Reads a variable entry: its name, type and static frame offset, each with
/// its default where the entry does not say.
pub fn handle_variable(encoding: Encoding, entry: &Entry) -> (variable: Variable)
    ensures
        variable@ == variable_of(encoding, entry@),
{
    let mut name = String::new();
    let mut type_ref: usize = NO_TYPE;
    let mut frame_offset: Option<i64> = None;
    let mut i: usize = 0;
    while i < entry.attrs.len()
        invariant
            i <= entry.attrs.len(),
            name@ == text_in(seen(entry.attrs@, i as int), DW_AT_NAME),
            type_ref == type_ref_in(seen(entry.attrs@, i as int)),
            frame_offset == frame_offset_in(encoding, seen(entry.attrs@, i as int)),
        decreases entry.attrs.len() - i,
    {
        let attr = &entry.attrs[i];
        proof {
            lemma_seen_next(entry.attrs@, i as int);
        }
        if attr.name == DW_AT_NAME {
            name = decode_name(attr).into_text();
        } else if attr.name == DW_AT_TYPE {
            match decode_type_ref(attr) {
                Ok(target) => {
                    type_ref = target;
                },
                Err(_) => {},
            }
        } else if attr.name == DW_AT_LOCATION {
            frame_offset = decode_location(encoding, attr);
        }
        i += 1;
    }
    proof {
        lemma_seen_all(entry.attrs@);
    }
    Variable { name, type_ref, frame_offset }
}

/// Reads an entry that is neither a subprogram nor a variable: decodes every
/// attribute as a name, for whoever wants to look at them. Nothing of it is
/// kept.
pub fn handle_other(entry: &Entry) -> (names: Vec<DecodedName>)
    ensures
        names@.map_values(|n: DecodedName| n@) == names_of(entry@),
{
    let mut names: Vec<DecodedName> = Vec::new();
    let mut i: usize = 0;
    while i < entry.attrs.len()
        invariant
            i <= entry.attrs.len(),
            names@.len() == i,
            forall|k: int| 0 <= k < i ==> (#[trigger] names@[k])@ == name_of(entry.attrs@[k]@),
        decreases entry.attrs.len() - i,
    {
        names.push(decode_name(&entry.attrs[i]));
        i += 1;
    }
    assert(names@.map_values(|n: DecodedName| n@) =~= names_of(entry@));
    names
}

} // verus!
