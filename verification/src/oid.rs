//! Object identifiers, the identifiers that this library looks for, and the
//! short names under which attribute types are shown.

use vstd::prelude::*;
use vstd::string::StringExecFns;

verus! {

/// An object identifier, held as the bytes of its DER encoding (without the header).
#[derive(Debug, Clone, Copy)]
pub struct Oid<'a> {
    asn1: &'a [u8],
    relative: bool,
}

/// What an [`Oid`] stands for: its encoded bytes, and whether it is relative.
pub struct OidView {
    pub asn1: Seq<u8>,
    pub relative: bool,
}

impl<'a> View for Oid<'a> {
    type V = OidView;

    closed spec fn view(&self) -> OidView {
        OidView { asn1: self.asn1@, relative: self.relative }
    }
}

/// Whether two byte strings hold the same bytes.
pub fn bytes_eq(a: &[u8], b: &[u8]) -> (same: bool)
    ensures
        same == (a@ == b@),
{
    if a.len() != b.len() {
        return false;
    }
    let mut i: usize = 0;
    while i < a.len()
        invariant
            i <= a.len(),
            a.len() == b.len(),
            forall|k: int| 0 <= k < i ==> a@[k] == b@[k],
        decreases a.len() - i,
    {
        if a[i] != b[i] {
            return false;
        }
        i += 1;
    }
    assert(a@ =~= b@);
    true
}

/// Whether `a` stands before `b` in the order of a dictionary: at the first
/// place where they differ `a` holds the lesser byte, or `a` ends there and
/// `b` goes on.
pub open spec fn bytes_before(a: Seq<u8>, b: Seq<u8>) -> bool
    decreases a.len(),
{
    if b.len() == 0 {
        false
    } else if a.len() == 0 {
        true
    } else if a[0] != b[0] {
        a[0] < b[0]
    } else {
        bytes_before(a.drop_first(), b.drop_first())
    }
}

/// The order of identifiers: by their encoded bytes, and of two with the
/// same bytes the absolute one first.
pub open spec fn oid_before(a: OidView, b: OidView) -> bool {
    bytes_before(a.asn1, b.asn1) || (a.asn1 == b.asn1 && !a.relative && b.relative)
}

/// A common beginning does not count in the order of two byte strings.
pub proof fn lemma_bytes_before_skip(a: Seq<u8>, b: Seq<u8>, i: int)
    requires
        0 <= i <= a.len(),
        i <= b.len(),
        a.take(i) == b.take(i),
    ensures
        bytes_before(a, b) == bytes_before(a.skip(i), b.skip(i)),
    decreases i,
{
    if i == 0 {
        assert(a.skip(0) =~= a);
        assert(b.skip(0) =~= b);
    } else {
        assert(a[0] == a.take(i)[0]);
        assert(b[0] == b.take(i)[0]);
        assert(a.drop_first().take(i - 1) =~= a.take(i).drop_first());
        assert(b.drop_first().take(i - 1) =~= b.take(i).drop_first());
        lemma_bytes_before_skip(a.drop_first(), b.drop_first(), i - 1);
        assert(a.drop_first().skip(i - 1) =~= a.skip(i));
        assert(b.drop_first().skip(i - 1) =~= b.skip(i));
    }
}

/// Of two byte strings exactly one holds: they are the same, the first
/// stands before the second, or the second before the first.
pub proof fn lemma_bytes_order_total(a: Seq<u8>, b: Seq<u8>)
    ensures
        a == b || bytes_before(a, b) || bytes_before(b, a),
        !(a == b && bytes_before(a, b)),
        !(bytes_before(a, b) && bytes_before(b, a)),
    decreases a.len(),
{
    if a.len() == 0 || b.len() == 0 {
        if a.len() == 0 && b.len() == 0 {
            assert(a =~= b);
        }
    } else if a[0] == b[0] {
        lemma_bytes_order_total(a.drop_first(), b.drop_first());
        if a.drop_first() == b.drop_first() {
            assert(a =~= seq![a[0]] + a.drop_first());
            assert(b =~= seq![b[0]] + b.drop_first());
        }
    }
}

/// The order of byte strings is transitive.
pub proof fn lemma_bytes_order_transitive(a: Seq<u8>, b: Seq<u8>, c: Seq<u8>)
    requires
        bytes_before(a, b),
        bytes_before(b, c),
    ensures
        bytes_before(a, c),
    decreases a.len(),
{
    if a.len() > 0 && a[0] == b[0] && b[0] == c[0] {
        lemma_bytes_order_transitive(a.drop_first(), b.drop_first(), c.drop_first());
    }
}

/// Of two identifiers exactly one holds: they are the same, the first stands
/// before the second, or the second before the first.
pub proof fn lemma_oid_order_total(a: OidView, b: OidView)
    ensures
        a == b || oid_before(a, b) || oid_before(b, a),
        !(a == b && oid_before(a, b)),
        !(oid_before(a, b) && oid_before(b, a)),
{
    lemma_bytes_order_total(a.asn1, b.asn1);
}

/// The order of identifiers is transitive.
pub proof fn lemma_oid_order_transitive(a: OidView, b: OidView, c: OidView)
    requires
        oid_before(a, b),
        oid_before(b, c),
    ensures
        oid_before(a, c),
{
    lemma_bytes_order_total(a.asn1, b.asn1);
    lemma_bytes_order_total(b.asn1, c.asn1);
    if bytes_before(a.asn1, b.asn1) && bytes_before(b.asn1, c.asn1) {
        lemma_bytes_order_transitive(a.asn1, b.asn1, c.asn1);
    }
}

/// Whether the byte string `a` stands before `b` in the order of a dictionary.
pub fn bytes_lt(a: &[u8], b: &[u8]) -> (before: bool)
    ensures
        before == bytes_before(a@, b@),
{
    let mut i: usize = 0;
    assert(a@.take(0) =~= b@.take(0));
    while i < a.len() && i < b.len()
        invariant
            i <= a.len(),
            i <= b.len(),
            a@.take(i as int) == b@.take(i as int),
        decreases a.len() - i,
    {
        if a[i] != b[i] {
            proof {
                lemma_bytes_before_skip(a@, b@, i as int);
                assert(a@.skip(i as int)[0] == a@[i as int]);
                assert(b@.skip(i as int)[0] == b@[i as int]);
            }
            return a[i] < b[i];
        }
        proof {
            assert(a@.take(i + 1) =~= a@.take(i as int).push(a@[i as int]));
            assert(b@.take(i + 1) =~= b@.take(i as int).push(b@[i as int]));
        }
        i += 1;
    }
    proof {
        lemma_bytes_before_skip(a@, b@, i as int);
    }
    i < b.len()
}

impl<'a> Oid<'a> {
    /// An absolute identifier with the encoded bytes `asn1`.
    pub fn new(asn1: &'a [u8]) -> (oid: Oid<'a>)
        ensures
            oid@ == (OidView { asn1: asn1@, relative: false }),
    {
        Oid { asn1, relative: false }
    }

    /// A relative identifier with the encoded bytes `asn1`.
    pub fn new_relative(asn1: &'a [u8]) -> (oid: Oid<'a>)
        ensures
            oid@ == (OidView { asn1: asn1@, relative: true }),
    {
        Oid { asn1, relative: true }
    }

    /// The encoded bytes, without the header.
    pub fn bytes(&self) -> (bytes: &'a [u8])
        ensures
            bytes@ == self@.asn1,
    {
        self.asn1
    }

    /// Whether the identifier is relative.
    pub fn is_relative(&self) -> (relative: bool)
        ensures
            relative == self@.relative,
    {
        self.relative
    }

    /// Whether this identifier stands before `other` in the order of identifiers.
    pub fn is_before(&self, other: &Oid) -> (before: bool)
        ensures
            before == oid_before(self@, other@),
    {
        if bytes_lt(self.asn1, other.asn1) {
            true
        } else if bytes_eq(self.asn1, other.asn1) {
            !self.relative && other.relative
        } else {
            false
        }
    }

    /// The short name of this identifier, if it is one of the attribute types
    /// that have one.
    pub fn short_name(&self) -> (name: Option<&'static str>)
        ensures
            name == short_name_of(self@),
    {
        if self.relative {
            return None;
        }
        let b = self.asn1;
        if b.len() == 3 && b[0] == 85 && b[1] == 4 {
            assert(b@ =~= seq![85u8, 4u8, b@[2]]);
            match b[2] {
                3 => Some("CN"),
                4 => Some("SN"),
                5 => Some("serialNumber"),
                6 => Some("C"),
                7 => Some("L"),
                8 => Some("ST"),
                9 => Some("street"),
                10 => Some("O"),
                11 => Some("OU"),
                12 => Some("title"),
                13 => Some("description"),
                41 => Some("name"),
                42 => Some("GN"),
                43 => Some("initials"),
                44 => Some("generationQualifier"),
                46 => Some("dnQualifier"),
                65 => Some("pseudonym"),
                _ => None,
            }
        } else if bytes_eq(b, &[42u8, 134u8, 72u8, 134u8, 247u8, 13u8, 1u8, 9u8, 1u8]) {
            Some("emailAddress")
        } else if bytes_eq(b, &[9u8, 146u8, 38u8, 137u8, 147u8, 242u8, 44u8, 100u8, 1u8, 1u8]) {
            Some("UID")
        } else if bytes_eq(b, &[9u8, 146u8, 38u8, 137u8, 147u8, 242u8, 44u8, 100u8, 1u8, 25u8]) {
            Some("DC")
        } else {
            None
        }
    }

    /// The label under which an attribute of this type is shown: the short
    /// name where the type has one, else the identifier's own text form.
    pub fn label(&self) -> (text: String)
        ensures
            text@ == label_of(self@),
    {
        match self.short_name() {
            Some(name) => String::from_str(name),
            None => debug_text(self.asn1, self.relative),
        }
    }
}

impl<'a> PartialEq for Oid<'a> {
    fn eq(&self, other: &Oid<'a>) -> (same: bool) {
        self.relative == other.relative && bytes_eq(self.asn1, other.asn1)
    }
}

impl<'a> Eq for Oid<'a> {

}

impl<'a> vstd::std_specs::cmp::PartialEqSpecImpl for Oid<'a> {
    open spec fn obeys_eq_spec() -> bool {
        true
    }

    open spec fn eq_spec(&self, other: &Oid<'a>) -> bool {
        self@ == other@
    }
}

/// The short name of an attribute type of X.520, `2.5.4.last`.
pub open spec fn x520_short_name(last: u8) -> Option<&'static str> {
    match last {
        3 => Some("CN"),
        4 => Some("SN"),
        5 => Some("serialNumber"),
        6 => Some("C"),
        7 => Some("L"),
        8 => Some("ST"),
        9 => Some("street"),
        10 => Some("O"),
        11 => Some("OU"),
        12 => Some("title"),
        13 => Some("description"),
        41 => Some("name"),
        42 => Some("GN"),
        43 => Some("initials"),
        44 => Some("generationQualifier"),
        46 => Some("dnQualifier"),
        65 => Some("pseudonym"),
        _ => None,
    }
}

/// The table of short names: the attribute types of X.520 (`2.5.4.*`), the
/// e-mail address of PKCS #9 (`1.2.840.113549.1.9.1`), and the user id and
/// domain component of RFC 4519 (`0.9.2342.19200300.100.1.1` and `.25`).
pub open spec fn short_name_of(oid: OidView) -> Option<&'static str> {
    if oid.relative {
        None
    } else if oid.asn1.len() == 3 && oid.asn1[0] == 85 && oid.asn1[1] == 4 {
        x520_short_name(oid.asn1[2])
    } else if oid.asn1 == seq![42u8, 134u8, 72u8, 134u8, 247u8, 13u8, 1u8, 9u8, 1u8] {
        Some("emailAddress")
    } else if oid.asn1 == seq![9u8, 146u8, 38u8, 137u8, 147u8, 242u8, 44u8, 100u8, 1u8, 1u8] {
        Some("UID")
    } else if oid.asn1 == seq![9u8, 146u8, 38u8, 137u8, 147u8, 242u8, 44u8, 100u8, 1u8, 25u8] {
        Some("DC")
    } else {
        None
    }
}

/// The text that der-parser's `Debug` gives the identifier with the encoded
/// bytes `asn1`, such as `OID(1.2.840.113549.1.1.5)`, or `OID(rel. 840.1)`
/// for a relative identifier.
pub uninterp spec fn oid_debug_text(asn1: Seq<u8>, relative: bool) -> Seq<char>;

/// The label of an attribute type.
pub open spec fn label_of(oid: OidView) -> Seq<char> {
    match short_name_of(oid) {
        Some(name) => name@,
        None => oid_debug_text(oid.asn1, oid.relative),
    }
}

/// Formats the identifier with der-parser's `Debug` for `der_parser::oid::Oid`.
/// The result is that text, which depends on the bytes and the flag alone;
/// nothing more is claimed of it.
#[verifier::external_body]
fn debug_text(asn1: &[u8], relative: bool) -> (text: String)
    ensures
        text@ == oid_debug_text(asn1@, relative),
{
    let mut oid = der_parser::oid::Oid::new(std::borrow::Cow::Borrowed(asn1));
    oid.relative = relative;
    format!("{:?}", oid)
}

/// The identifier of an extension of RFC 5280, `2.5.29.last`.
pub open spec fn extension_oid(last: u8) -> OidView {
    OidView { asn1: seq![85u8, 29u8, last], relative: false }
}

/// `2.5.29.15`, key usage.
pub fn oid_ext_key_usage() -> (oid: Oid<'static>)
    ensures
        oid@ == extension_oid(15),
{
    let oid = Oid::new(&[85u8, 29u8, 15u8]);
    assert(oid@.asn1 =~= extension_oid(15).asn1);
    oid
}

/// `2.5.29.17`, subject alternative name.
pub fn oid_ext_subject_alt_name() -> (oid: Oid<'static>)
    ensures
        oid@ == extension_oid(17),
{
    let oid = Oid::new(&[85u8, 29u8, 17u8]);
    assert(oid@.asn1 =~= extension_oid(17).asn1);
    oid
}

/// `2.5.29.19`, basic constraints.
pub fn oid_ext_basic_constraints() -> (oid: Oid<'static>)
    ensures
        oid@ == extension_oid(19),
{
    let oid = Oid::new(&[85u8, 29u8, 19u8]);
    assert(oid@.asn1 =~= extension_oid(19).asn1);
    oid
}

/// `2.5.29.30`, name constraints.
pub fn oid_ext_name_constraints() -> (oid: Oid<'static>)
    ensures
        oid@ == extension_oid(30),
{
    let oid = Oid::new(&[85u8, 29u8, 30u8]);
    assert(oid@.asn1 =~= extension_oid(30).asn1);
    oid
}

/// `2.5.29.33`, policy mappings.
pub fn oid_ext_policy_mappings() -> (oid: Oid<'static>)
    ensures
        oid@ == extension_oid(33),
{
    let oid = Oid::new(&[85u8, 29u8, 33u8]);
    assert(oid@.asn1 =~= extension_oid(33).asn1);
    oid
}

/// `2.5.29.36`, policy constraints.
pub fn oid_ext_policy_constraints() -> (oid: Oid<'static>)
    ensures
        oid@ == extension_oid(36),
{
    let oid = Oid::new(&[85u8, 29u8, 36u8]);
    assert(oid@.asn1 =~= extension_oid(36).asn1);
    oid
}

/// `2.5.29.37`, extended key usage.
pub fn oid_ext_extended_key_usage() -> (oid: Oid<'static>)
    ensures
        oid@ == extension_oid(37),
{
    let oid = Oid::new(&[85u8, 29u8, 37u8]);
    assert(oid@.asn1 =~= extension_oid(37).asn1);
    oid
}

/// `2.5.29.54`, inhibit any-policy.
pub fn oid_ext_inhibit_any_policy() -> (oid: Oid<'static>)
    ensures
        oid@ == extension_oid(54),
{
    let oid = Oid::new(&[85u8, 29u8, 54u8]);
    assert(oid@.asn1 =~= extension_oid(54).asn1);
    oid
}

} // verus!
