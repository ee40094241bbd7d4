use num_bigint::BigUint;
use x509_parser::certificate::{
    AlgorithmIdentifier, SubjectPublicKeyInfo, TbsCertificate, UniqueIdentifier, X509Certificate,
};
use x509_parser::crl::{CertificateRevocationList, RevokedCertificate, TbsCertList};
use x509_parser::extensions::{ExtensionMap, KeyUsage, ParsedExtension, X509Extension};
use x509_parser::oid::oid_ext_key_usage;
use x509_parser::{
    AttributeTypeAndValue, BitString, DerValue, Oid, RelativeDistinguishedName, Timestamp,
    Validity, X509Name, X509Version,
};

const TBS_RAW: &[u8] = &[0x30, 0x82, 0x01, 0x0a, 0xa0, 0x03, 0x02, 0x01, 0x02];

fn algorithm(last: u8) -> AlgorithmIdentifier<'static> {
    const SHA1: &[u8] = &[0x2a, 0x86, 0x48, 0x86, 0xf7, 0x0d, 0x01, 0x01, 0x05];
    const SHA256: &[u8] = &[0x2a, 0x86, 0x48, 0x86, 0xf7, 0x0d, 0x01, 0x01, 0x0b];
    AlgorithmIdentifier {
        algorithm: Oid::new(if last == 5 { SHA1 } else { SHA256 }),
        parameters: DerValue::Other { tag: 5, raw: None },
    }
}

fn name(common_name: &'static str) -> X509Name<'static> {
    X509Name {
        rdn_seq: vec![RelativeDistinguishedName {
            set: vec![AttributeTypeAndValue {
                attr_type: Oid::new(&[0x55, 0x04, 0x03]),
                attr_value: DerValue::Utf8String(common_name),
            }],
        }],
        raw: &[0x30, 0x00],
    }
}

fn certificate(version: u32) -> X509Certificate<'static> {
    X509Certificate {
        tbs_certificate: TbsCertificate {
            version,
            serial: BigUint::from_bytes_be(&[0x01, 0x00]),
            signature: algorithm(11),
            issuer: name("issuer"),
            validity: Validity {
                not_before: Timestamp::new(1_000, 0).unwrap(),
                not_after: Timestamp::new(2_000, 0).unwrap(),
            },
            subject: name("subject"),
            subject_pki: SubjectPublicKeyInfo {
                algorithm: algorithm(11),
                subject_public_key: BitString { unused_bits: 0, data: &[0x04, 0x01, 0x02] },
            },
            issuer_uid: None,
            subject_uid: Some(UniqueIdentifier(BitString { unused_bits: 4, data: &[0xa0] })),
            extensions: ExtensionMap::from_extensions(vec![X509Extension::new(
                oid_ext_key_usage(),
                true,
                &[0x03, 0x02, 0x01, 0x86],
                ParsedExtension::KeyUsage(KeyUsage { flags: 0x0086 }),
            )]),
            raw: TBS_RAW,
            raw_serial: &[0x01, 0x00],
        },
        signature_algorithm: algorithm(5),
        signature_value: BitString { unused_bits: 0, data: &[0xaa, 0xbb] },
    }
}

#[test]
fn version_is_read_from_the_raw_value() {
    assert_eq!(certificate(0).version(), X509Version::V1);
    assert_eq!(certificate(1).version(), X509Version::V2);
    assert_eq!(certificate(2).version(), X509Version::V3);
    assert_eq!(certificate(3).version(), X509Version::Invalid(3));
    assert_eq!(certificate(u32::MAX).version(), X509Version::Invalid(u32::MAX));
    assert_eq!(X509Version::from_raw(2), X509Version::V3);
    assert_eq!(X509Version::from_raw(17), X509Version::Invalid(17));
}

#[test]
fn certificate_hands_out_the_parts_of_its_body() {
    let cert = certificate(2);
    assert_eq!(cert.subject(), &name("subject"));
    assert_eq!(cert.subject().to_string(), "CN=subject");
    assert_eq!(cert.issuer(), &name("issuer"));
    assert_eq!(cert.issuer().to_string(), "CN=issuer");
    assert_eq!(cert.validity(), &cert.tbs_certificate.validity);
    assert_eq!(cert.validity().not_after, Timestamp::new(2_000, 0).unwrap());
    assert_eq!(cert.extensions(), cert.tbs_certificate.extensions());
    assert_eq!(cert.extensions().len(), 1);
    assert_eq!(cert.tbs_certificate.key_usage(), Some((true, &KeyUsage { flags: 0x0086 })));
}

#[test]
fn body_hands_back_the_bytes_it_was_decoded_from() {
    let cert = certificate(2);
    assert_eq!(cert.tbs_certificate.as_ref(), TBS_RAW);
    assert_eq!(cert.tbs_certificate.raw_serial(), &[0x01, 0x00]);
    assert_eq!(cert.tbs_certificate.raw_serial_as_string(), "01:00");
    assert_eq!(cert.tbs_certificate.serial, BigUint::from(256u32));
}

#[test]
fn differing_signature_algorithms_can_be_seen() {
    let cert = certificate(2);
    assert_ne!(cert.signature_algorithm, cert.tbs_certificate.signature);
    assert_eq!(cert.signature_algorithm.algorithm.label(), "OID(1.2.840.113549.1.1.5)");
    assert_eq!(cert.tbs_certificate.signature.algorithm.label(), "OID(1.2.840.113549.1.1.11)");
}

#[test]
fn body_of_version_one_may_hold_what_it_should_not() {
    let cert = certificate(0);
    assert_eq!(cert.version(), X509Version::V1);
    assert!(cert.tbs_certificate.subject_uid.is_some());
    assert_eq!(cert.extensions().len(), 1);
}

#[test]
fn revocation_list_keeps_stored_order() {
    const RAW: &[u8] = &[0x30, 0x03, 0x02, 0x01, 0x01];
    let entry = |serial: u32, secs: i64| RevokedCertificate {
        user_certificate: BigUint::from(serial),
        revocation_date: Timestamp::new(secs, 0).unwrap(),
        extensions: vec![],
    };
    let crl = CertificateRevocationList {
        tbs_cert_list: TbsCertList {
            version: Some(1),
            signature: algorithm(11),
            issuer: name("issuer"),
            this_update: Timestamp::new(5_000, 0).unwrap(),
            next_update: None,
            revoked_certificates: vec![entry(30, 3), entry(10, 1), entry(20, 2)],
            extensions: vec![
                X509Extension::new(Oid::new(&[0x55, 0x1d, 0x14]), false, &[2], ParsedExtension::UnsupportedExtension),
                X509Extension::new(Oid::new(&[0x55, 0x1d, 0x14]), false, &[1], ParsedExtension::UnsupportedExtension),
            ],
            raw: RAW,
        },
        signature_algorithm: algorithm(11),
        signature_value: BitString { unused_bits: 0, data: &[0x01] },
    };
    assert_eq!(crl.tbs_cert_list.as_ref(), RAW);
    let serials: Vec<BigUint> =
        crl.tbs_cert_list.revoked_certificates.iter().map(|r| r.user_certificate.clone()).collect();
    assert_eq!(serials, vec![BigUint::from(30u32), BigUint::from(10u32), BigUint::from(20u32)]);
    assert_eq!(crl.tbs_cert_list.extensions.len(), 2);
    assert_eq!(crl.tbs_cert_list.extensions[0].value, &[2]);
    assert_eq!(crl.tbs_cert_list.issuer.to_string(), "CN=issuer");
}
