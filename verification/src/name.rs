//! Distinguished names and their text form.
//!
//! A name is a sequence of relative distinguished names (RDNs), each a set
//! of attributes in the order in which they were decoded. Its text form shows
//! each attribute as `label=value`, joins the attributes of one RDN with
//! `" + "` and the RDNs with `", "`, and keeps the stored order throughout.

use vstd::prelude::*;
use vstd::string::StringExecFns;
use crate::der::DerValue;
use crate::error::X509Error;
use crate::hex::{encode_hex_upper, hex_upper};
use crate::oid::{label_of, Oid};

verus! {

/// One attribute of a name: its type and its value.
#[derive(Debug, Clone, Copy, PartialEq, Eq)]
pub struct AttributeTypeAndValue<'a> {
    pub attr_type: Oid<'a>,
    pub attr_value: DerValue<'a>,
}

/// A relative distinguished name: its attributes in stored order. A decoder
/// gives at least one; a set without any is held as it is.
#[derive(Debug, PartialEq)]
pub struct RelativeDistinguishedName<'a> {
    pub set: Vec<AttributeTypeAndValue<'a>>,
}

/// A distinguished name: its RDNs in stored order, and the bytes it was decoded from.
#[derive(Debug, PartialEq)]
pub struct X509Name<'a> {
    pub rdn_seq: Vec<RelativeDistinguishedName<'a>>,
    pub raw: &'a [u8],
}

/// The separator between the attributes of one RDN.
pub open spec fn attribute_separator() -> Seq<char> {
    seq![' ', '+', ' ']
}

/// The separator between the RDNs of a name.
pub open spec fn rdn_separator() -> Seq<char> {
    seq![',', ' ']
}

/// What is shown in place of a name that has no text form.
pub open spec fn invalid_name_text() -> Seq<char> {
    "<X509Error: Invalid X.509 name>"@
}

/// The text of an attribute value: the text itself where the content is one
/// of the recognized string kinds, else the upper-case hexadecimal form of
/// the content bytes. A value whose content has no byte form has no text.
pub open spec fn value_text(value: DerValue) -> Option<Seq<char>> {
    match value.spec_text() {
        Some(text) => Some(text),
        None => match value.spec_bytes() {
            Some(bytes) => Some(hex_upper(bytes)),
            None => None,
        },
    }
}

/// `label=value`.
pub open spec fn labelled(label: Seq<char>, value: Seq<char>) -> Seq<char> {
    label + seq!['='] + value
}

/// The text of an attribute whose value has a text.
pub open spec fn attribute_text(attr: AttributeTypeAndValue) -> Seq<char> {
    labelled(label_of(attr.attr_type@), value_text(attr.attr_value).unwrap())
}

/// The parts in order, with the separator between each part and the next:
/// `n` parts are joined by `n - 1` separators, whatever the parts hold. An
/// empty part keeps its place between its separators.
pub open spec fn intercalate(parts: Seq<Seq<char>>, sep: Seq<char>) -> Seq<char>
    decreases parts.len(),
{
    if parts.len() == 0 {
        Seq::empty()
    } else if parts.len() == 1 {
        parts[0]
    } else {
        intercalate(parts.drop_last(), sep) + sep + parts.last()
    }
}

impl<'a> RelativeDistinguishedName<'a> {
    /// Whether every attribute value of this RDN has a text.
    pub open spec fn renderable(&self) -> bool {
        forall|j: int| 0 <= j < self.set@.len() ==> value_text(#[trigger] self.set@[j].attr_value) is Some
    }

    /// The texts of the attributes, in stored order.
    pub open spec fn attribute_texts(&self) -> Seq<Seq<char>> {
        Seq::new(self.set@.len(), |j: int| attribute_text(self.set@[j]))
    }

    /// The text of this RDN: the texts of its attributes in stored order,
    /// with `" + "` between each attribute and the next.
    pub open spec fn text(&self) -> Seq<char> {
        intercalate(self.attribute_texts(), attribute_separator())
    }
}

/// Whether every attribute value of every RDN has a text.
pub open spec fn name_renderable(rdns: Seq<RelativeDistinguishedName>) -> bool {
    forall|i: int| 0 <= i < rdns.len() ==> (#[trigger] rdns[i]).renderable()
}

/// The texts of the RDNs, in stored order.
pub open spec fn rdn_texts(rdns: Seq<RelativeDistinguishedName>) -> Seq<Seq<char>> {
    Seq::new(rdns.len(), |i: int| rdns[i].text())
}

/// The text of a name: the texts of its RDNs in stored order, with `", "`
/// between each RDN and the next. An RDN without attributes has the empty
/// text, which keeps its place between its separators.
pub open spec fn name_text(rdns: Seq<RelativeDistinguishedName>) -> Seq<char> {
    intercalate(rdn_texts(rdns), rdn_separator())
}

/// The text of two runs of parts, one after the other, is the text of the
/// first run, the separator, and the text of the second run: joining keeps
/// the parts in their order.
pub proof fn lemma_intercalate_concat(a: Seq<Seq<char>>, b: Seq<Seq<char>>, sep: Seq<char>)
    requires
        a.len() > 0,
        b.len() > 0,
    ensures
        intercalate(a + b, sep) == intercalate(a, sep) + sep + intercalate(b, sep),
    decreases b.len(),
{
    assert((a + b).drop_last() =~= a + b.drop_last());
    assert((a + b).last() == b.last());
    if b.len() == 1 {
        assert(a + b.drop_last() =~= a);
        assert(b.last() == b[0]);
    } else {
        lemma_intercalate_concat(a, b.drop_last(), sep);
        assert(intercalate(a + b, sep) =~= intercalate(a, sep) + sep + intercalate(b, sep));
    }
}

/// The texts that a list of strings holds, in order.
pub open spec fn texts_of(parts: Seq<String>) -> Seq<Seq<char>> {
    Seq::new(parts.len(), |i: int| parts[i]@)
}

/// Converts an attribute value to text.
///
/// A NumericString, PrintableString, UTF8String or IA5String gives its text
/// as it is. Any other content gives the upper-case hexadecimal form of its
/// bytes. The only failure is a value whose content has no byte form.
pub fn attribute_value_to_string(attr: &DerValue) -> (res: Result<String, X509Error>)
    ensures
        res is Ok <==> value_text(*attr) is Some,
        res matches Ok(text) ==> value_text(*attr) == Some(text@),
        res matches Err(e) ==> e == X509Error::InvalidX509Name,
        attr.spec_text() matches Some(text) ==> (res matches Ok(s) && s@ == text),
        (attr.spec_text() is None && attr.spec_bytes() is Some) ==> (res matches Ok(s) && s@
            == hex_upper(attr.spec_bytes().unwrap())),
{
    match attr.as_str() {
        Some(text) => Ok(String::from_str(text)),
        None => match attr.as_slice() {
            Some(bytes) => Ok(encode_hex_upper(bytes)),
            None => Err(X509Error::InvalidX509Name),
        },
    }
}

/// `label=value`.
pub fn format_attribute(label: &str, value: &str) -> (text: String)
    ensures
        text@ == labelled(label@, value@),
{
    let mut text = String::from_str(label);
    proof {
        reveal_strlit("=");
    }
    text.append("=");
    text.append(value);
    assert(text@ =~= labelled(label@, value@));
    text
}

/// Joins `parts` in order, with `sep` between each part and the next.
pub fn join(parts: &[String], sep: &str) -> (text: String)
    ensures
        text@ == intercalate(texts_of(parts@), sep@),
{
    let mut text = String::new();
    let mut i: usize = 0;
    let ghost all = texts_of(parts@);
    while i < parts.len()
        invariant
            i <= parts@.len(),
            all == texts_of(parts@),
            text@ == intercalate(all.take(i as int), sep@),
        decreases parts@.len() - i,
    {
        proof {
            assert(all.take(i + 1).drop_last() =~= all.take(i as int));
            assert(all.take(i + 1).last() == parts@[i as int]@);
        }
        if i > 0 {
            text.append(sep);
        }
        text.append(parts[i].as_str());
        i += 1;
    }
    assert(all.take(i as int) =~= all);
    text
}

impl<'a> AttributeTypeAndValue<'a> {
    /// The text of this attribute, `label=value`.
    ///
    /// The label is the short name of the attribute type where it has one,
    /// else the identifier's own text form: the label never fails.
    pub fn to_string(&self) -> (res: Result<String, X509Error>)
        ensures
            res is Ok <==> value_text(self.attr_value) is Some,
            res matches Ok(text) ==> text@ == attribute_text(*self),
            res matches Err(e) ==> e == X509Error::InvalidX509Name,
    {
        let value = attribute_value_to_string(&self.attr_value)?;
        let label = self.attr_type.label();
        Ok(format_attribute(label.as_str(), value.as_str()))
    }
}

impl<'a> RelativeDistinguishedName<'a> {
    /// The text of this RDN: its attributes in stored order, joined with
    /// `" + "`. Fails if one of the values has no text.
    pub fn to_string(&self) -> (res: Result<String, X509Error>)
        ensures
            res is Ok <==> self.renderable(),
            res matches Ok(text) ==> text@ == self.text(),
            res matches Err(e) ==> e == X509Error::InvalidX509Name,
    {
        let mut texts: Vec<String> = Vec::new();
        let mut j: usize = 0;
        while j < self.set.len()
            invariant
                j <= self.set@.len(),
                texts@.len() == j,
                forall|k: int| 0 <= k < j ==> value_text(#[trigger] self.set@[k].attr_value) is Some,
                forall|k: int| 0 <= k < j ==> (#[trigger] texts@[k])@ == attribute_text(self.set@[k]),
            decreases self.set@.len() - j,
        {
            let text = self.set[j].to_string()?;
            texts.push(text);
            j += 1;
        }
        proof {
            reveal_strlit(" + ");
            assert(" + "@ =~= attribute_separator());
            assert(texts_of(texts@) =~= self.attribute_texts());
        }
        Ok(join(texts.as_slice(), " + "))
    }
}

/// Converts a name to its text form.
///
/// The RDNs are taken in stored order and joined with `", "`; the attributes
/// of one RDN are joined with `" + "`. An RDN without attributes gives an
/// empty segment between its separators. An attribute value that is not a
/// string is shown in hexadecimal. The conversion fails only if a value has
/// no byte form at all, and then gives no part of the text.
pub fn x509name_to_string(rdn_seq: &[RelativeDistinguishedName]) -> (res: Result<String, X509Error>)
    ensures
        res is Ok <==> name_renderable(rdn_seq@),
        res matches Ok(text) ==> text@ == name_text(rdn_seq@),
        res matches Err(e) ==> e == X509Error::InvalidX509Name,
        rdn_seq@.len() == 0 ==> (res matches Ok(text) && text@.len() == 0),
{
    let mut texts: Vec<String> = Vec::new();
    let mut i: usize = 0;
    while i < rdn_seq.len()
        invariant
            i <= rdn_seq@.len(),
            texts@.len() == i,
            forall|k: int| 0 <= k < i ==> (#[trigger] rdn_seq@[k]).renderable(),
            forall|k: int| 0 <= k < i ==> (#[trigger] texts@[k])@ == rdn_seq@[k].text(),
        decreases rdn_seq@.len() - i,
    {
        let text = rdn_seq[i].to_string()?;
        texts.push(text);
        i += 1;
    }
    proof {
        reveal_strlit(", ");
        assert(", "@ =~= rdn_separator());
        assert(texts_of(texts@) =~= rdn_texts(rdn_seq@));
    }
    Ok(join(texts.as_slice(), ", "))
}

impl<'a> X509Name<'a> {
    /// The bytes that this name was decoded from.
    pub fn as_raw(&self) -> (raw: &'a [u8])
        ensures
            raw@ == self.raw@,
    {
        self.raw
    }

    /// The text form of this name, or a fixed text that says that the name is
    /// invalid where it has none.
    pub fn to_string(&self) -> (text: String)
        ensures
            text@ == if name_renderable(self.rdn_seq@) {
                name_text(self.rdn_seq@)
            } else {
                invalid_name_text()
            },
    {
        match x509name_to_string(self.rdn_seq.as_slice()) {
            Ok(text) => text,
            Err(_) => String::from_str("<X509Error: Invalid X.509 name>"),
        }
    }
}

} // verus!
