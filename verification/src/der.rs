//! Decoded values.
//!
//! A DER decoder hands over each value as a node that says what kind of
//! content it found and where its bytes lie. The types here hold that much of
//! a node, borrowing the text and the bytes from the decoder's input.

use vstd::prelude::*;
use vstd::string::StringSliceAdditionalSpecFns;

verus! {

/// A bit string: its bytes, and how many bits at the end of the last byte are not part of it.
#[derive(Debug, Clone, Copy, PartialEq, Eq)]
pub struct BitString<'a> {
    /// The number of unused bits at the end of the last byte.
    pub unused_bits: u8,
    /// The bytes that hold the bits.
    pub data: &'a [u8],
}

/// A decoded value: the kind of content, and the content itself.
#[derive(Debug, Clone, Copy, PartialEq, Eq)]
pub enum DerValue<'a> {
    /// A NumericString and its text.
    NumericString(&'a str),
    /// A PrintableString and its text.
    PrintableString(&'a str),
    /// A UTF8String and its text.
    Utf8String(&'a str),
    /// An IA5String and its text.
    Ia5String(&'a str),
    /// A BIT STRING.
    BitString(BitString<'a>),
    /// Content of any other kind, with its tag number. `raw` holds the content
    /// bytes where the content is one run of bytes (an integer, an octet
    /// string, a string of another kind); it is `None` where it is not (a
    /// boolean, a null, a sequence or a set).
    Other { tag: u32, raw: Option<&'a [u8]> },
}

impl<'a> DerValue<'a> {
    /// The text of a value whose content is one of the four recognized string kinds.
    pub open spec fn spec_text(self) -> Option<Seq<char>> {
        match self {
            DerValue::NumericString(s) => Some(s@),
            DerValue::PrintableString(s) => Some(s@),
            DerValue::Utf8String(s) => Some(s@),
            DerValue::Ia5String(s) => Some(s@),
            _ => None,
        }
    }

    /// The content bytes of a value, where it has any: the UTF-8 bytes of a
    /// string, the bytes of a bit string, the raw bytes of any other content.
    pub open spec fn spec_bytes(self) -> Option<Seq<u8>> {
        match self {
            DerValue::NumericString(s) => Some(s.spec_bytes()),
            DerValue::PrintableString(s) => Some(s.spec_bytes()),
            DerValue::Utf8String(s) => Some(s.spec_bytes()),
            DerValue::Ia5String(s) => Some(s.spec_bytes()),
            DerValue::BitString(bits) => Some(bits.data@),
            DerValue::Other { raw: Some(bytes), .. } => Some(bytes@),
            DerValue::Other { raw: None, .. } => None,
        }
    }

    /// The text of this value, if its content is a NumericString, a
    /// PrintableString, a UTF8String or an IA5String.
    pub fn as_str(&self) -> (text: Option<&'a str>)
        ensures
            text is Some == self.spec_text() is Some,
            text matches Some(s) ==> Some(s@) == self.spec_text(),
    {
        match self {
            DerValue::NumericString(s) => Some(*s),
            DerValue::PrintableString(s) => Some(*s),
            DerValue::Utf8String(s) => Some(*s),
            DerValue::Ia5String(s) => Some(*s),
            _ => None,
        }
    }

    /// The content bytes of this value, or `None` if the content has no byte form.
    pub fn as_slice(&self) -> (bytes: Option<&'a [u8]>)
        ensures
            bytes is Some == self.spec_bytes() is Some,
            bytes matches Some(b) ==> Some(b@) == self.spec_bytes(),
    {
        match self {
            DerValue::NumericString(s) => Some(s.as_bytes()),
            DerValue::PrintableString(s) => Some(s.as_bytes()),
            DerValue::Utf8String(s) => Some(s.as_bytes()),
            DerValue::Ia5String(s) => Some(s.as_bytes()),
            DerValue::BitString(bits) => Some(bits.data),
            DerValue::Other { raw, .. } => *raw,
        }
    }
}

} // verus!
