//! Peer verification on real certificates.

use std::sync::Arc;

use kakuin_rustls::certificate::{
    extract_spiffe_id, find_spiffe_uri, general_name_to_uri, Certificate, Extension, GeneralName,
};
use kakuin_rustls::config::{make_client_verifier, ClientVerifier};
use kakuin_rustls::peer::{authorize, check_certificate, PeerRejection, VerifyError};
use kakuin_rustls::roots::build_root_store;
use kakuin_rustls::webpki::Mode;
use kakuin_rustls::{spiffe_placeholder_server_name, SpiffeIdAllowList, SpiffeIdVerifier};
use rustls::pki_types::ServerName;
use rustls::RootCertStore;

/// A time at which all certificates below are valid.
const NOW: u64 = 1_900_000_000;

const LACRE_ID: &str = "spiffe://pleme.io/ns/openclaw/sa/lacre";

/// The root of the mesh.
const MESH_CA: &str = "\
    308201793082011ea003020102020101300a06082a8648ce3d04030230123110300e06035504030c074d657368\
    2043413020170d3236313131353030303230375a180f32303831303831383030303230375a30123110300e0603\
    5504030c074d6573682043413059301306072a8648ce3d020106082a8648ce3d03010703420004b9e6c2cf10e9\
    733c58a6ee54c941992e4635430ec646ba74000c2f027c3b3eb3ec0c28a46d107222e90607056f87fcd6417cef\
    e12ad53277e1cba33ab8670f96a3633061301d0603551d0e04160414042d7ad20a95ad872b7dbed5211c89d0a2\
    fb513f301f0603551d23041830168014042d7ad20a95ad872b7dbed5211c89d0a2fb513f300f0603551d130101\
    ff040530030101ff300e0603551d0f0101ff040403020204300a06082a8648ce3d0403020349003046022100b6\
    ce2ca13c2e1ce82abc824ff5ef207fa0db039f31e0d4ad995e79b6017558da022100c2606f23106e230103e403\
    cb92b715fecb05b1f8d60a51dd33e9cb8bae884343";

/// Issued by the mesh root; URI spiffe://pleme.io/ns/openclaw/sa/lacre.
const LACRE: &str = "\
    308201b43082015aa00302010202010a300a06082a8648ce3d04030230123110300e06035504030c074d657368\
    2043413020170d3236313131353030303230375a180f32303831303831383030303230375a3010310e300c0603\
    5504030c056c616372653059301306072a8648ce3d020106082a8648ce3d0301070342000476557a46160806dd\
    86fcfd191c3fd15f16e5c3272444ccce7dff4c2e87cfe30933323c644f0ea45a294737e7a52f47139789446f5e\
    81a9d2abfd688175f8cebea381a030819d30090603551d1304023000301d0603551d250416301406082b060105\
    0507030106082b0601050507030230310603551d11042a302886267370696666653a2f2f706c656d652e696f2f\
    6e732f6f70656e636c61772f73612f6c61637265301d0603551d0e0416041466c02234125041d71bc3a59b2841\
    36185f951e50301f0603551d23041830168014042d7ad20a95ad872b7dbed5211c89d0a2fb513f300a06082a86\
    48ce3d0403020348003045022058a7bd1bb30adb48ab3894650fb91a73493865d71fc22d318eb5c0041ebb98f3\
    022100a15c95ad59ba79a9ae9b0904bae09d25061bb96f051d048fe127c9b77caf26ad";

/// Issued by the mesh root; a host name and three URIs, two of them SPIFFE-IDs.
const SEVERAL: &str = "\
    308201e330820189a00302010202010b300a06082a8648ce3d04030230123110300e06035504030c074d657368\
    2043413020170d3236313131353030303230375a180f32303831303831383030303230375a30123110300e0603\
    5504030c077365766572616c3059301306072a8648ce3d020106082a8648ce3d0301070342000476557a461608\
    06dd86fcfd191c3fd15f16e5c3272444ccce7dff4c2e87cfe30933323c644f0ea45a294737e7a52f4713978944\
    6f5e81a9d2abfd688175f8cebea381cd3081ca30090603551d1304023000301d0603551d250416301406082b06\
    01050507030106082b06010505070302305e0603551d1104573055820c6d6573682e6578616d706c6586126874\
    7470733a2f2f706c656d652e696f2f7886177370696666653a2f2f706c656d652e696f2f666972737486187370\
    696666653a2f2f706c656d652e696f2f7365636f6e64301d0603551d0e0416041466c02234125041d71bc3a59b\
    284136185f951e50301f0603551d23041830168014042d7ad20a95ad872b7dbed5211c89d0a2fb513f300a0608\
    2a8648ce3d0403020348003045022100a9d43966ad3bcb5568071903f1ccefd5ee65f872cba634c0d4b6ee809e\
    8c42f002207c9cb69e430cb53ab7c1c40e00863f57820e8b948322f1719a1c4adcbc7f175b";

/// Issued by the mesh root; a host name, no URI.
const PLAIN: &str = "\
    3082019b30820140a00302010202010c300a06082a8648ce3d04030230123110300e06035504030c074d657368\
    2043413020170d3236313131353030303230375a180f32303831303831383030303230375a3010310e300c0603\
    5504030c05706c61696e3059301306072a8648ce3d020106082a8648ce3d0301070342000476557a46160806dd\
    86fcfd191c3fd15f16e5c3272444ccce7dff4c2e87cfe30933323c644f0ea45a294737e7a52f47139789446f5e\
    81a9d2abfd688175f8cebea3818630818330090603551d1304023000301d0603551d250416301406082b060105\
    0507030106082b0601050507030230170603551d110410300e820c6d6573682e6578616d706c65301d0603551d\
    0e0416041466c02234125041d71bc3a59b284136185f951e50301f0603551d23041830168014042d7ad20a95ad\
    872b7dbed5211c89d0a2fb513f300a06082a8648ce3d0403020349003046022100d74caed6ca4186db56e2d799\
    05c335a02270231c13a485e23fb6b3929f5359b2022100aabf45cecb17ddfe207426f3738de6c2aca7c23b194b\
    0e55a99bc8f1104e11fb";

/// As `LACRE`, but issued by the other root.
const FOREIGN: &str = "\
    308201b73082015da00302010202010d300a06082a8648ce3d04030230133111300f06035504030c084f746865\
    722043413020170d3236313131353030303230375a180f32303831303831383030303230375a30123110300e06\
    035504030c07666f726569676e3059301306072a8648ce3d020106082a8648ce3d0301070342000476557a4616\
    0806dd86fcfd191c3fd15f16e5c3272444ccce7dff4c2e87cfe30933323c644f0ea45a294737e7a52f47139789\
    446f5e81a9d2abfd688175f8cebea381a030819d30090603551d1304023000301d0603551d250416301406082b\
    0601050507030106082b0601050507030230310603551d11042a302886267370696666653a2f2f706c656d652e\
    696f2f6e732f6f70656e636c61772f73612f6c61637265301d0603551d0e0416041466c02234125041d71bc3a5\
    9b284136185f951e50301f0603551d2304183016801416100246277c30866b41acfc5a08aeb1bcff3196300a06\
    082a8648ce3d04030203480030450221009670e53b62959beef97088a0193ca43613f3b8ce01be9c64740820e7\
    80a386a2022020e4a749cdcffff23a1a235b9bd03ed6f30bd163b79a0166a254cdaa52330135";

/// An intermediate under the mesh root.
const INTERMEDIATE: &str = "\
    3082018130820128a003020102020114300a06082a8648ce3d04030230123110300e06035504030c074d657368\
    2043413020170d3236313131353030303431335a180f32303831303831383030303431335a301c311a30180603\
    5504030c114d65736820496e7465726d6564696174653059301306072a8648ce3d020106082a8648ce3d030107\
    03420004cdb88dcc927ecec299315c2ceb54639b61e52cd21846e793a5dc13f5ac042e1dc4872262c3b91cedc7\
    494e20462365db4ff19bb3ebcb3fc593b56f7f776c408da3633061300f0603551d130101ff040530030101ff30\
    0e0603551d0f0101ff040403020204301d0603551d0e041604146496a9a0197158564572b4c6e53d2832462d9c\
    10301f0603551d23041830168014042d7ad20a95ad872b7dbed5211c89d0a2fb513f300a06082a8648ce3d0403\
    02034700304402202683e71362477c4c77ad0d0afc2aa5ab209f615cdeb134c0832419a124ab606a0220783229\
    8c7a181e7214ecbf9fcc7274b0c86e5c9a0cebe786b9525401567c8031";

/// Issued by the intermediate; URI spiffe://pleme.io/deep.
const DEEP: &str = "\
    308201ae30820153a003020102020115300a06082a8648ce3d040302301c311a301806035504030c114d657368\
    20496e7465726d6564696174653020170d3236313131353030303431335a180f32303831303831383030303431\
    335a300f310d300b06035504030c04646565703059301306072a8648ce3d020106082a8648ce3d030107034200\
    0476557a46160806dd86fcfd191c3fd15f16e5c3272444ccce7dff4c2e87cfe30933323c644f0ea45a294737e7\
    a52f47139789446f5e81a9d2abfd688175f8cebea3819030818d30090603551d1304023000301d0603551d2504\
    16301406082b0601050507030106082b0601050507030230210603551d11041a301886167370696666653a2f2f\
    706c656d652e696f2f64656570301d0603551d0e0416041466c02234125041d71bc3a59b284136185f951e5030\
    1f0603551d230418301680146496a9a0197158564572b4c6e53d2832462d9c10300a06082a8648ce3d04030203\
    49003046022100ed6f7f4e3328adae6850a17966a05cba1b644a46e0c42d77d4a27cd264914256022100aac601\
    8049140fa35fb3f983797edc0ad79adc3e9721dcda0b0d8e492371de41";

/// Reads a hexadecimal byte string.
fn hex(text: &str) -> Vec<u8> {
    (0..text.len() / 2).map(|i| u8::from_str_radix(&text[2 * i..2 * i + 2], 16).unwrap()).collect()
}

fn mesh_roots() -> Arc<RootCertStore> {
    build_root_store(&hex(MESH_CA)).unwrap()
}

fn allow(ids: &[&str]) -> Option<SpiffeIdAllowList> {
    Some(SpiffeIdAllowList::exact_ids(ids.iter().map(|id| id.to_string()).collect()))
}

/// The value of a subject alternative name extension that holds one URI.
fn uri_san(uri: &str) -> Vec<u8> {
    let mut value = vec![0x30, 2 + uri.len() as u8, 0x86, uri.len() as u8];
    value.extend_from_slice(uri.as_bytes());
    value
}

fn extension(id: &[u8], value: Vec<u8>) -> Extension {
    Extension { id: id.to_vec(), value }
}

const SAN: [u8; 3] = [0x55, 0x1d, 0x11];

#[test]
fn listed_client_is_accepted() {
    let v = SpiffeIdVerifier::client(mesh_roots(), allow(&["spiffe://a/b", LACRE_ID]));
    let peer = v.verify_client_cert(&hex(LACRE), &[], NOW).unwrap();
    assert_eq!(peer.spiffe_id, LACRE_ID);
}

#[test]
fn unlisted_client_is_refused() {
    let v = SpiffeIdVerifier::client(mesh_roots(), allow(&["spiffe://pleme.io/ns/openclaw/sa/scanner"]));
    match v.verify_client_cert(&hex(LACRE), &[], NOW) {
        Err(VerifyError::Peer(rejection)) => assert_eq!(
            rejection.message(),
            "kakuin: peer SPIFFE-ID spiffe://pleme.io/ns/openclaw/sa/lacre not in allow-list"
        ),
        other => panic!("unexpected: {other:?}"),
    }
}

#[test]
fn empty_allow_list_refuses_every_client() {
    let v = SpiffeIdVerifier::client(mesh_roots(), allow(&[]));
    assert!(matches!(
        v.verify_client_cert(&hex(LACRE), &[], NOW),
        Err(VerifyError::Peer(PeerRejection::NotAllowed(_)))
    ));
}

#[test]
fn any_spiffe_client_is_accepted_without_allow_list() {
    let v = SpiffeIdVerifier::client(mesh_roots(), None);
    assert_eq!(v.verify_client_cert(&hex(LACRE), &[], NOW).unwrap().spiffe_id, LACRE_ID);
    assert_eq!(
        v.verify_client_cert(&hex(SEVERAL), &[], NOW).unwrap().spiffe_id,
        "spiffe://pleme.io/first"
    );
}

#[test]
fn client_without_spiffe_id_is_refused() {
    let v = SpiffeIdVerifier::client(mesh_roots(), None);
    match v.verify_client_cert(&hex(PLAIN), &[], NOW) {
        Err(VerifyError::Peer(rejection)) => {
            assert!(matches!(rejection, PeerRejection::NoSpiffeId));
            assert_eq!(rejection.message(), "kakuin: no SPIFFE-ID in URI SAN");
        }
        other => panic!("unexpected: {other:?}"),
    }
}

#[test]
fn client_of_another_trust_domain_is_refused_though_listed() {
    let v = SpiffeIdVerifier::client(mesh_roots(), allow(&[LACRE_ID]));
    assert!(matches!(
        v.verify_client_cert(&hex(FOREIGN), &[], NOW),
        Err(VerifyError::Chain(rustls::Error::InvalidCertificate(
            rustls::CertificateError::UnknownIssuer
        )))
    ));
}

#[test]
fn client_is_refused_before_its_certificate_is_valid() {
    let v = SpiffeIdVerifier::client(mesh_roots(), allow(&[LACRE_ID]));
    assert!(matches!(
        v.verify_client_cert(&hex(LACRE), &[], 1_000_000_000),
        Err(VerifyError::Chain(_))
    ));
}

#[test]
fn intermediates_are_used_for_clients_and_servers() {
    let ids = ["spiffe://pleme.io/deep"];
    let name = spiffe_placeholder_server_name();
    let client = SpiffeIdVerifier::client(mesh_roots(), allow(&ids));
    let server = SpiffeIdVerifier::server(mesh_roots(), allow(&ids));
    let between = vec![hex(INTERMEDIATE)];
    assert!(client.verify_client_cert(&hex(DEEP), &between, NOW).is_ok());
    assert!(server.verify_server_cert(&hex(DEEP), &between, &name, &[], NOW).is_ok());
    assert!(matches!(
        client.verify_client_cert(&hex(DEEP), &[], NOW),
        Err(VerifyError::Chain(_))
    ));
    assert!(matches!(
        server.verify_server_cert(&hex(DEEP), &[], &name, &[], NOW),
        Err(VerifyError::Chain(_))
    ));
}

#[test]
fn server_is_known_by_its_spiffe_id_whatever_its_name() {
    let v = SpiffeIdVerifier::server(mesh_roots(), allow(&[LACRE_ID, "spiffe://pleme.io/first"]));
    for name in [spiffe_placeholder_server_name(), ServerName::try_from("mesh.example").unwrap()] {
        let peer = v.verify_server_cert(&hex(LACRE), &[], &name, &[], NOW).unwrap();
        assert_eq!(peer.spiffe_id, LACRE_ID);
        let peer = v.verify_server_cert(&hex(SEVERAL), &[], &name, &[], NOW).unwrap();
        assert_eq!(peer.spiffe_id, "spiffe://pleme.io/first");
    }
}

#[test]
fn server_is_refused_by_chain_or_by_identity() {
    let name = spiffe_placeholder_server_name();
    let v = SpiffeIdVerifier::server(mesh_roots(), allow(&["spiffe://pleme.io/second"]));
    assert!(matches!(
        v.verify_server_cert(&hex(FOREIGN), &[], &name, &[], NOW),
        Err(VerifyError::Chain(rustls::Error::InvalidCertificate(
            rustls::CertificateError::UnknownIssuer
        )))
    ));
    assert!(matches!(
        v.verify_server_cert(&hex(SEVERAL), &[], &name, &[], NOW),
        Err(VerifyError::Peer(PeerRejection::NotAllowed(_)))
    ));
    assert!(matches!(
        v.verify_server_cert(&hex(PLAIN), &[], &name, &[], NOW),
        Err(VerifyError::Peer(PeerRejection::NoSpiffeId))
    ));
}

#[test]
fn unreadable_certificate_is_refused_in_the_words_of_the_parser() {
    let v = SpiffeIdVerifier::client(mesh_roots(), None);
    match v.check_spiffe_id(&[0x30, 0x00]) {
        Err(rejection) => assert!(
            rejection.message().starts_with("kakuin: x509 parse failed: ASN.1 DER message is incomplete"),
            "{}",
            rejection.message()
        ),
        Ok(peer) => panic!("unexpected: {peer:?}"),
    }
}

#[test]
fn verdict_decides_before_identity() {
    let v = SpiffeIdVerifier::server(mesh_roots(), allow(&[LACRE_ID]));
    let refused = rustls::Error::General("no".to_string());
    match v.conclude(Err(refused), &hex(LACRE)) {
        Err(VerifyError::Chain(e)) => assert_eq!(e, rustls::Error::General("no".to_string())),
        other => panic!("unexpected: {other:?}"),
    }
    assert_eq!(v.conclude(Ok(()), &hex(LACRE)).unwrap().spiffe_id, LACRE_ID);
}

/// The verifier that a server of the mesh has without an allow-list.
fn plain_verifier() -> ClientVerifier {
    match make_client_verifier(mesh_roots(), None) {
        Ok(v) => v,
        Err(e) => panic!("unexpected: {e:?}"),
    }
}

#[test]
fn without_allow_list_a_server_takes_any_client_of_the_mesh() {
    let v = plain_verifier();
    for cert in [LACRE, SEVERAL, PLAIN] {
        assert!(matches!(v.verify_client_cert(&hex(cert), &[], NOW), Ok(None)));
    }
    assert!(matches!(v.verify_client_cert(&hex(DEEP), &[hex(INTERMEDIATE)], NOW), Ok(None)));
}

#[test]
fn without_allow_list_a_server_refuses_what_webpki_refuses() {
    let v = plain_verifier();
    assert!(matches!(
        v.verify_client_cert(&hex(FOREIGN), &[], NOW),
        Err(VerifyError::Chain(rustls::Error::InvalidCertificate(
            rustls::CertificateError::UnknownIssuer
        )))
    ));
    assert!(matches!(v.verify_client_cert(&hex(DEEP), &[], NOW), Err(VerifyError::Chain(_))));
    assert!(matches!(
        v.verify_client_cert(&hex(LACRE), &[], 1_000_000_000),
        Err(VerifyError::Chain(_))
    ));
}

#[test]
fn with_allow_list_a_server_takes_only_listed_clients() {
    let v = match make_client_verifier(mesh_roots(), allow(&[LACRE_ID])) {
        Ok(v) => v,
        Err(e) => panic!("unexpected: {e:?}"),
    };
    let peer = v.verify_client_cert(&hex(LACRE), &[], NOW).unwrap().unwrap();
    assert_eq!(peer.spiffe_id, LACRE_ID);
    assert!(matches!(
        v.verify_client_cert(&hex(SEVERAL), &[], NOW),
        Err(VerifyError::Peer(PeerRejection::NotAllowed(_)))
    ));
    assert!(matches!(
        v.verify_client_cert(&hex(PLAIN), &[], NOW),
        Err(VerifyError::Peer(PeerRejection::NoSpiffeId))
    ));
}

#[test]
fn server_before_its_time_is_refused() {
    let v = SpiffeIdVerifier::server(mesh_roots(), allow(&[LACRE_ID]));
    let name = spiffe_placeholder_server_name();
    assert!(matches!(
        v.verify_server_cert(&hex(LACRE), &[], &name, &[], 1_000_000_000),
        Err(VerifyError::Chain(_))
    ));
    assert!(matches!(
        v.verify_server_cert(&[], &[], &name, &[], NOW),
        Err(VerifyError::Chain(_))
    ));
}

#[test]
fn verifier_tells_what_it_was_made_with() {
    let c = SpiffeIdVerifier::client(mesh_roots(), allow(&["spiffe://a/b", "spiffe://a/c"]));
    assert_eq!(c.mode(), Mode::Client);
    assert_eq!(c.allow_list_len(), Some(2));
    assert_eq!(c.roots().len(), 1);
    let s = SpiffeIdVerifier::server(mesh_roots(), None);
    assert_eq!(s.mode(), Mode::Server);
    assert_eq!(s.allow_list_len(), None);
}

#[test]
fn first_spiffe_uri_wins() {
    let uri = |s: &str| GeneralName::UniformResourceIdentifier(s.to_string());
    let names = vec![
        GeneralName::DnsName,
        uri("https://a/b"),
        uri("SPIFFE://a/b"),
        uri("spiffe:/"),
        uri("spiffe://a/first"),
        uri("spiffe://a/second"),
    ];
    assert_eq!(find_spiffe_uri(&names), Some("spiffe://a/first".to_string()));
    assert_eq!(find_spiffe_uri(&vec![uri("https://a/b")]), None);
    assert_eq!(find_spiffe_uri(&vec![uri("spiffe://")]), Some("spiffe://".to_string()));
    assert_eq!(find_spiffe_uri(&vec![]), None);
}

#[test]
fn only_uris_have_a_uri() {
    let name = GeneralName::UniformResourceIdentifier("x:y".to_string());
    assert_eq!(general_name_to_uri(&name), Some("x:y".to_string()));
    assert_eq!(general_name_to_uri(&GeneralName::Rfc822Name), None);
    assert_eq!(general_name_to_uri(&GeneralName::IpAddress), None);
}

#[test]
fn malformed_and_other_extensions_are_passed_over() {
    let cert = Certificate {
        extensions: Some(vec![
            extension(&[0x55, 0x1d, 0x12], uri_san("spiffe://issuer/alt")),
            extension(&SAN, vec![0xff, 0x00]),
            extension(&SAN, uri_san("https://a/b")),
            extension(&SAN, uri_san("spiffe://a/found")),
            extension(&SAN, uri_san("spiffe://a/later")),
        ]),
    };
    assert_eq!(extract_spiffe_id(&cert), Some("spiffe://a/found".to_string()));
    assert_eq!(extract_spiffe_id(&Certificate { extensions: None }), None);
    assert_eq!(extract_spiffe_id(&Certificate { extensions: Some(vec![]) }), None);
}

#[test]
fn decisions_on_given_results() {
    assert!(matches!(authorize(None, &None), Err(PeerRejection::NoSpiffeId)));
    let id = Some("spiffe://a/b".to_string());
    assert_eq!(authorize(id.clone(), &None).unwrap().spiffe_id, "spiffe://a/b");
    assert!(authorize(id.clone(), &allow(&["spiffe://a/b"])).is_ok());
    assert!(authorize(id, &allow(&["spiffe://a/B"])).is_err());
    match check_certificate(Err("bad".to_string()), &None) {
        Err(rejection) => assert_eq!(rejection.message(), "kakuin: x509 parse failed: bad"),
        Ok(peer) => panic!("unexpected: {peer:?}"),
    }
    assert!(matches!(
        check_certificate(Ok(Certificate { extensions: None }), &None),
        Err(PeerRejection::NoSpiffeId)
    ));
}
