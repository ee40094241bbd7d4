//! Typed model of X.509 certificates and certificate revocation lists.
//!
//! The types here hold what a DER decoder found in a certificate or a CRL and
//! give validated access to it: typed lookup of extensions, the text form of
//! a distinguished name, the time a certificate has left, and the display
//! form of a serial number. Every function is verified against its contract.

pub mod certificate;
pub mod crl;
pub mod der;
pub mod error;
pub mod extensions;
pub mod hex;
pub mod name;
pub mod oid;
pub mod time;
pub mod version;

pub use certificate::{
    AlgorithmIdentifier, SubjectPublicKeyInfo, TbsCertificate, UniqueIdentifier, X509Certificate,
};
pub use crl::{CertificateRevocationList, RevokedCertificate, TbsCertList};
pub use der::{BitString, DerValue};
pub use error::X509Error;
pub use extensions::{ExtensionMap, ParsedExtension, X509Extension};
pub use name::{AttributeTypeAndValue, RelativeDistinguishedName, X509Name};
pub use oid::Oid;
pub use time::{Duration, Timestamp, Validity};
pub use version::X509Version;
