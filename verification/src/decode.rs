//! Decoding of single attributes: names, type references and locations.
use vstd::prelude::*;
use vstd::utf8::{decode_utf8, valid_utf8};
use crate::location::{evaluate, static_offset};
use crate::model::{AttrValue, AttrValueModel, Attribute, AttributeModel, Encoding};

verus! {

/// A name-like attribute as text, with the way the text was obtained.
#[derive(Clone, Debug, PartialEq, Eq)]
pub enum DecodedName {
    /// The attribute's value is a string.
    Resolved(String),
    /// The value is no string, or could not be resolved: its debug rendering.
    Fallback(String),
}

/// Mathematical value of a [`DecodedName`].
pub enum DecodedNameModel {
    Resolved(Seq<char>),
    Fallback(Seq<char>),
}

impl DecodedNameModel {
    /// The text, however it was obtained.
    pub open spec fn text(self) -> Seq<char> {
        match self {
            DecodedNameModel::Resolved(s) => s,
            DecodedNameModel::Fallback(s) => s,
        }
    }
}

impl View for DecodedName {
    type V = DecodedNameModel;

    open spec fn view(&self) -> DecodedNameModel {
        match self {
            DecodedName::Resolved(s) => DecodedNameModel::Resolved(s@),
            DecodedName::Fallback(s) => DecodedNameModel::Fallback(s@),
        }
    }
}

impl DecodedName {
    /// The text, however it was obtained.
    pub fn into_text(self) -> (text: String)
        ensures
            text@ == self@.text(),
    {
        match self {
            DecodedName::Resolved(s) => s,
            DecodedName::Fallback(s) => s,
        }
    }

    /// Whether the text is a debug rendering and not the attribute's string.
    pub fn is_fallback(&self) -> (fallback: bool)
        ensures
            fallback == (self@ is Fallback),
    {
        match self {
            DecodedName::Resolved(_) => false,
            DecodedName::Fallback(_) => true,
        }
    }
}

/// Why an attribute could not be decoded.
#[derive(Clone, Copy, Debug, PartialEq, Eq, Structural)]
pub enum DecodeError {
    /// A type attribute whose value is no reference into the unit.
    UnsupportedOffset,
}

/// The text that `gimli::EndianSlice::to_string_lossy` makes of `bytes`.
pub uninterp spec fn lossy_text(bytes: Seq<u8>) -> Seq<char>;

/// Reads the bytes of a string as text.
///
/// Calls `gimli::EndianSlice::to_string_lossy`, which is
/// `String::from_utf8_lossy` on the bytes. Claimed: the text is `lossy_text`
/// of the bytes, and bytes that are valid UTF-8 give the text they encode.
#[verifier::external_body]
fn text_of(bytes: &[u8]) -> (text: String)
    ensures
        text@ == lossy_text(bytes@),
        valid_utf8(bytes@) ==> text@ == decode_utf8(bytes@),
{
    gimli::EndianSlice::new(bytes, gimli::LittleEndian).to_string_lossy().into_owned()
}

/// The name that an attribute decodes to: its string where it has one, else
/// the rendering of its raw value.
pub open spec fn name_of(attr: AttributeModel) -> DecodedNameModel {
    match attr.value {
        AttrValueModel::Text(bytes) => DecodedNameModel::Resolved(lossy_text(bytes)),
        _ => DecodedNameModel::Fallback(attr.rendering),
    }
}

/// The entry that a type attribute refers to.
pub open spec fn type_ref_of(attr: AttributeModel) -> Result<usize, DecodeError> {
    match attr.value {
        AttrValueModel::UnitRef(offset) => Ok(offset),
        _ => Err(DecodeError::UnsupportedOffset),
    }
}

/// The static frame offset that a location attribute describes.
pub open spec fn location_of(encoding: Encoding, attr: AttributeModel) -> Option<i64> {
    match attr.value {
        AttrValueModel::Exprloc(expr) => static_offset(expr, encoding),
        _ => None,
    }
}

/// Decodes a name-like attribute. Never fails: a value that is no string
/// gives its rendering, marked as a fallback. A string in valid UTF-8 gives
/// the text it encodes.
pub fn decode_name(attr: &Attribute) -> (name: DecodedName)
    ensures
        name@ == name_of(attr@),
        attr@.value is Text && valid_utf8(attr@.value->Text_0) ==> name@
            == DecodedNameModel::Resolved(decode_utf8(attr@.value->Text_0)),
{
    match &attr.value {
        AttrValue::Text(bytes) => DecodedName::Resolved(text_of(bytes.as_slice())),
        _ => DecodedName::Fallback(attr.rendering.clone()),
    }
}

/// Decodes a type attribute, which has to be a reference into the unit.
pub fn decode_type_ref(attr: &Attribute) -> (target: Result<usize, DecodeError>)
    ensures
        target == type_ref_of(attr@),
{
    match &attr.value {
        AttrValue::UnitRef(offset) => Ok(*offset),
        _ => Err(DecodeError::UnsupportedOffset),
    }
}

/// Decodes a location attribute: evaluates it where it is a location
/// expression; any other form has no static offset.
pub fn decode_location(encoding: Encoding, attr: &Attribute) -> (offset: Option<i64>)
    ensures
        offset == location_of(encoding, attr@),
{
    match &attr.value {
        AttrValue::Exprloc(expr) => evaluate(encoding, expr.as_slice()),
        _ => None,
    }
}

} // verus!
