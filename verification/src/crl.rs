//! Certificate revocation lists.

use vstd::prelude::*;
use num_bigint::BigUint;
use crate::certificate::AlgorithmIdentifier;
use crate::der::BitString;
use crate::extensions::X509Extension;
use crate::name::X509Name;
use crate::time::Timestamp;

verus! {

/// One revoked certificate: its serial number, when it was revoked, and the
/// extensions of the entry in stored order.
#[derive(Debug, PartialEq)]
pub struct RevokedCertificate<'a> {
    pub user_certificate: BigUint,
    pub revocation_date: Timestamp,
    pub extensions: Vec<X509Extension<'a>>,
}

/// The signed body of a revocation list. The revoked certificates and the
/// extensions are kept in stored order.
#[derive(Debug, PartialEq)]
pub struct TbsCertList<'a> {
    /// The raw value of the version field, where the list has one.
    pub version: Option<u32>,
    pub signature: AlgorithmIdentifier<'a>,
    pub issuer: X509Name<'a>,
    pub this_update: Timestamp,
    pub next_update: Option<Timestamp>,
    pub revoked_certificates: Vec<RevokedCertificate<'a>>,
    pub extensions: Vec<X509Extension<'a>>,
    /// The bytes that the body was decoded from.
    pub raw: &'a [u8],
}

impl<'a> AsRef<[u8]> for TbsCertList<'a> {
    /// The bytes that the body was decoded from.
    fn as_ref(&self) -> (raw: &[u8])
        ensures
            raw@ == self.raw@,
    {
        self.raw
    }
}

/// A revocation list: the signed body, the algorithm of the signature, and the signature.
#[derive(Debug)]
pub struct CertificateRevocationList<'a> {
    pub tbs_cert_list: TbsCertList<'a>,
    pub signature_algorithm: AlgorithmIdentifier<'a>,
    pub signature_value: BitString<'a>,
}

} // verus!
