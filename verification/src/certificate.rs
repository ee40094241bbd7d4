//! Certificates: the signed body, and the certificate around it.

use vstd::prelude::*;
use num_bigint::BigUint;
use crate::der::{BitString, DerValue};
use crate::extensions::{
    BasicConstraints, ExtendedKeyUsage, ExtensionMap, InhibitAnyPolicy, KeyUsage, NameConstraints,
    ParsedExtension, PolicyConstraints, PolicyMappings, SubjectAlternativeName, X509Extension,
};
use crate::hex::{colon_hex, colon_separated_hex, count_char};
use crate::name::X509Name;
use crate::oid::{
    extension_oid, oid_ext_basic_constraints, oid_ext_extended_key_usage,
    oid_ext_inhibit_any_policy, oid_ext_key_usage, oid_ext_name_constraints,
    oid_ext_policy_constraints, oid_ext_policy_mappings, oid_ext_subject_alt_name, Oid, OidView,
};
use crate::time::Validity;
use crate::version::X509Version;

verus! {

/// `num_bigint::BigUint`, an unsigned integer of any size. It is carried
/// through as it is.
#[verifier::external_type_specification]
#[verifier::external_body]
pub struct ExBigUint(BigUint);

/// An algorithm: its identifier and its parameters.
#[derive(Debug, Clone, Copy, PartialEq)]
pub struct AlgorithmIdentifier<'a> {
    pub algorithm: Oid<'a>,
    pub parameters: DerValue<'a>,
}

/// A public key: its algorithm, and the key as a bit string.
#[derive(Debug, Clone, Copy, PartialEq)]
pub struct SubjectPublicKeyInfo<'a> {
    pub algorithm: AlgorithmIdentifier<'a>,
    pub subject_public_key: BitString<'a>,
}

/// A unique identifier of an issuer or a subject.
#[derive(Debug, Clone, Copy, PartialEq)]
pub struct UniqueIdentifier<'a>(pub BitString<'a>);

/// The signed body of a certificate.
///
/// It holds what was decoded, whether or not it is valid: a body of version 1
/// may hold extensions, and the window of validity may be inverted.
#[derive(Debug, PartialEq)]
pub struct TbsCertificate<'a> {
    /// The raw value of the version field: 0 for v1, 1 for v2, 2 for v3.
    pub version: u32,
    pub serial: BigUint,
    pub signature: AlgorithmIdentifier<'a>,
    pub issuer: X509Name<'a>,
    pub validity: Validity,
    pub subject: X509Name<'a>,
    pub subject_pki: SubjectPublicKeyInfo<'a>,
    pub issuer_uid: Option<UniqueIdentifier<'a>>,
    pub subject_uid: Option<UniqueIdentifier<'a>>,
    pub extensions: ExtensionMap<'a>,
    /// The bytes that the body was decoded from.
    pub raw: &'a [u8],
    /// The bytes of the serial number, as they were encoded.
    pub raw_serial: &'a [u8],
}

/// The extension that `map` holds under `oid`, if it holds one.
pub open spec fn extension_at<'a>(map: Map<OidView, X509Extension<'a>>, oid: OidView) -> Option<
    X509Extension<'a>,
> {
    if map.dom().contains(oid) {
        Some(map[oid])
    } else {
        None
    }
}

impl<'a> AsRef<[u8]> for TbsCertificate<'a> {
    /// The bytes that the body was decoded from.
    fn as_ref(&self) -> (raw: &[u8])
        ensures
            raw@ == self.raw@,
    {
        self.raw
    }
}

impl<'a> TbsCertificate<'a> {
    /// The map of extensions.
    pub fn extensions(&self) -> (map: &ExtensionMap<'a>)
        ensures
            *map == self.extensions,
    {
        &self.extensions
    }

    /// The basic constraints, with the critical flag of the extension, if the
    /// certificate holds the extension `2.5.29.19` and its body was parsed as
    /// basic constraints.
    pub fn basic_constraints(&self) -> (res: Option<(bool, &BasicConstraints)>)
        ensures
            res is Some <==> (extension_at(self.extensions@, extension_oid(19)) matches Some(ext)
                && ext.parsed_extension is BasicConstraints),
            res matches Some((critical, body)) ==> (extension_at(
                self.extensions@,
                extension_oid(19),
            ) matches Some(ext) && ext.critical == critical && ext.parsed_extension
                == ParsedExtension::BasicConstraints(*body)),
    {
        let ext = self.extensions.get(&oid_ext_basic_constraints())?;
        match &ext.parsed_extension {
            ParsedExtension::BasicConstraints(body) => Some((ext.critical, body)),
            _ => None,
        }
    }

    /// The key usage, with the critical flag of the extension, if the certificate
    /// holds the extension `2.5.29.15` and its body was parsed as key usage.
    pub fn key_usage(&self) -> (res: Option<(bool, &KeyUsage)>)
        ensures
            res is Some <==> (extension_at(self.extensions@, extension_oid(15)) matches Some(ext)
                && ext.parsed_extension is KeyUsage),
            res matches Some((critical, body)) ==> (extension_at(
                self.extensions@,
                extension_oid(15),
            ) matches Some(ext) && ext.critical == critical && ext.parsed_extension
                == ParsedExtension::KeyUsage(*body)),
    {
        let ext = self.extensions.get(&oid_ext_key_usage())?;
        match &ext.parsed_extension {
            ParsedExtension::KeyUsage(body) => Some((ext.critical, body)),
            _ => None,
        }
    }

    /// The extended key usage, with the critical flag of the extension, if the certificate
    /// holds the extension `2.5.29.37` and its body was parsed as extended key usage.
    pub fn extended_key_usage(&self) -> (res: Option<(bool, &ExtendedKeyUsage<'a>)>)
        ensures
            res is Some <==> (extension_at(self.extensions@, extension_oid(37)) matches Some(ext)
                && ext.parsed_extension is ExtendedKeyUsage),
            res matches Some((critical, body)) ==> (extension_at(
                self.extensions@,
                extension_oid(37),
            ) matches Some(ext) && ext.critical == critical && ext.parsed_extension
                == ParsedExtension::ExtendedKeyUsage(*body)),
    {
        let ext = self.extensions.get(&oid_ext_extended_key_usage())?;
        match &ext.parsed_extension {
            ParsedExtension::ExtendedKeyUsage(body) => Some((ext.critical, body)),
            _ => None,
        }
    }

    /// The policy constraints, with the critical flag of the extension, if the certificate
    /// holds the extension `2.5.29.36` and its body was parsed as policy constraints.
    pub fn policy_constraints(&self) -> (res: Option<(bool, &PolicyConstraints)>)
        ensures
            res is Some <==> (extension_at(self.extensions@, extension_oid(36)) matches Some(ext)
                && ext.parsed_extension is PolicyConstraints),
            res matches Some((critical, body)) ==> (extension_at(
                self.extensions@,
                extension_oid(36),
            ) matches Some(ext) && ext.critical == critical && ext.parsed_extension
                == ParsedExtension::PolicyConstraints(*body)),
    {
        let ext = self.extensions.get(&oid_ext_policy_constraints())?;
        match &ext.parsed_extension {
            ParsedExtension::PolicyConstraints(body) => Some((ext.critical, body)),
            _ => None,
        }
    }

    /// The inhibit any-policy value, with the critical flag of the extension, if the certificate
    /// holds the extension `2.5.29.54` and its body was parsed as inhibit any-policy.
    pub fn inhibit_anypolicy(&self) -> (res: Option<(bool, &InhibitAnyPolicy)>)
        ensures
            res is Some <==> (extension_at(self.extensions@, extension_oid(54)) matches Some(ext)
                && ext.parsed_extension is InhibitAnyPolicy),
            res matches Some((critical, body)) ==> (extension_at(
                self.extensions@,
                extension_oid(54),
            ) matches Some(ext) && ext.critical == critical && ext.parsed_extension
                == ParsedExtension::InhibitAnyPolicy(*body)),
    {
        let ext = self.extensions.get(&oid_ext_inhibit_any_policy())?;
        match &ext.parsed_extension {
            ParsedExtension::InhibitAnyPolicy(body) => Some((ext.critical, body)),
            _ => None,
        }
    }

    /// The policy mappings, with the critical flag of the extension, if the certificate
    /// holds the extension `2.5.29.33` and its body was parsed as policy mappings.
    pub fn policy_mappings(&self) -> (res: Option<(bool, &PolicyMappings<'a>)>)
        ensures
            res is Some <==> (extension_at(self.extensions@, extension_oid(33)) matches Some(ext)
                && ext.parsed_extension is PolicyMappings),
            res matches Some((critical, body)) ==> (extension_at(
                self.extensions@,
                extension_oid(33),
            ) matches Some(ext) && ext.critical == critical && ext.parsed_extension
                == ParsedExtension::PolicyMappings(*body)),
    {
        let ext = self.extensions.get(&oid_ext_policy_mappings())?;
        match &ext.parsed_extension {
            ParsedExtension::PolicyMappings(body) => Some((ext.critical, body)),
            _ => None,
        }
    }

    /// The subject alternative name, with the critical flag of the extension, if the certificate
    /// holds the extension `2.5.29.17` and its body was parsed as a subject alternative name.
    pub fn subject_alternative_name(&self) -> (res: Option<(bool, &SubjectAlternativeName<'a>)>)
        ensures
            res is Some <==> (extension_at(self.extensions@, extension_oid(17)) matches Some(ext)
                && ext.parsed_extension is SubjectAlternativeName),
            res matches Some((critical, body)) ==> (extension_at(
                self.extensions@,
                extension_oid(17),
            ) matches Some(ext) && ext.critical == critical && ext.parsed_extension
                == ParsedExtension::SubjectAlternativeName(*body)),
    {
        let ext = self.extensions.get(&oid_ext_subject_alt_name())?;
        match &ext.parsed_extension {
            ParsedExtension::SubjectAlternativeName(body) => Some((ext.critical, body)),
            _ => None,
        }
    }

    /// The name constraints, with the critical flag of the extension, if the certificate
    /// holds the extension `2.5.29.30` and its body was parsed as name constraints.
    pub fn name_constraints(&self) -> (res: Option<(bool, &NameConstraints<'a>)>)
        ensures
            res is Some <==> (extension_at(self.extensions@, extension_oid(30)) matches Some(ext)
                && ext.parsed_extension is NameConstraints),
            res matches Some((critical, body)) ==> (extension_at(
                self.extensions@,
                extension_oid(30),
            ) matches Some(ext) && ext.critical == critical && ext.parsed_extension
                == ParsedExtension::NameConstraints(*body)),
    {
        let ext = self.extensions.get(&oid_ext_name_constraints())?;
        match &ext.parsed_extension {
            ParsedExtension::NameConstraints(body) => Some((ext.critical, body)),
            _ => None,
        }
    }

    /// Whether the certificate holds basic constraints that say that the
    /// subject is a CA. Without the extension the answer is `false`.
    pub fn is_ca(&self) -> (ca: bool)
        ensures
            ca <==> (extension_at(self.extensions@, extension_oid(19)) matches Some(ext)
                && ext.parsed_extension matches ParsedExtension::BasicConstraints(body) && body.ca),
            !self.extensions@.dom().contains(extension_oid(19)) ==> !ca,
    {
        match self.basic_constraints() {
            Some((_, body)) => body.ca,
            None => false,
        }
    }

    /// The bytes of the serial number, as they were encoded.
    pub fn raw_serial(&self) -> (raw: &[u8])
        ensures
            raw@ == self.raw_serial@,
    {
        self.raw_serial
    }

    /// The serial number as text: the bytes as they were encoded, each as two
    /// lower-case hexadecimal digits, with colons between them.
    pub fn raw_serial_as_string(&self) -> (text: String)
        ensures
            text@ == colon_hex(self.raw_serial@),
            self.raw_serial@.len() == 0 ==> text@.len() == 0,
            self.raw_serial@.len() >= 1 ==> text@.len() == 3 * self.raw_serial@.len() - 1,
            self.raw_serial@.len() >= 1 ==> count_char(text@, ':') == self.raw_serial@.len() - 1,
    {
        colon_separated_hex(self.raw_serial)
    }
}

/// A certificate: the signed body, the algorithm of the signature, and the signature.
///
/// The algorithm named here is meant to be the one named in the body. Both
/// are kept as they were decoded, so that a caller can see where they differ.
#[derive(Debug, PartialEq)]
pub struct X509Certificate<'a> {
    pub tbs_certificate: TbsCertificate<'a>,
    pub signature_algorithm: AlgorithmIdentifier<'a>,
    pub signature_value: BitString<'a>,
}

impl<'a> X509Certificate<'a> {
    /// The version of the encoded certificate.
    pub fn version(&self) -> (version: X509Version)
        ensures
            version == X509Version::spec_from_raw(self.tbs_certificate.version),
    {
        X509Version::from_raw(self.tbs_certificate.version)
    }

    /// The subject of the certificate.
    pub fn subject(&self) -> (name: &X509Name<'a>)
        ensures
            *name == self.tbs_certificate.subject,
    {
        &self.tbs_certificate.subject
    }

    /// The issuer of the certificate.
    pub fn issuer(&self) -> (name: &X509Name<'a>)
        ensures
            *name == self.tbs_certificate.issuer,
    {
        &self.tbs_certificate.issuer
    }

    /// The window of validity of the certificate.
    pub fn validity(&self) -> (validity: &Validity)
        ensures
            *validity == self.tbs_certificate.validity,
    {
        &self.tbs_certificate.validity
    }

    /// The extensions of the certificate.
    pub fn extensions(&self) -> (map: &ExtensionMap<'a>)
        ensures
            *map == self.tbs_certificate.extensions,
    {
        self.tbs_certificate.extensions()
    }
}

} // verus!
