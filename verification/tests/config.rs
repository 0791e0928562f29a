//! Decoding SVIDs and building configurations from them.

use kakuin_rustls::config::{make_client_verifier, ClientVerifier};
use kakuin_rustls::roots::{build_root_store, root_outcome};
use kakuin_rustls::svid::{decode_cert_chain, decode_private_key};
use kakuin_rustls::webpki::Mode;
use kakuin_rustls::{
    spiffe_placeholder_server_name, ClientConfigBuilder, Error, ServerConfigBuilder,
    SpiffeIdAllowList, X509Svid,
};
use rustls::RootCertStore;

/// The root of the mesh.
const MESH_CA: &str = "\
    308201793082011ea003020102020101300a06082a8648ce3d04030230123110300e06035504030c074d657368\
    2043413020170d3236313131353030303230375a180f32303831303831383030303230375a30123110300e0603\
    5504030c074d6573682043413059301306072a8648ce3d020106082a8648ce3d03010703420004b9e6c2cf10e9\
    733c58a6ee54c941992e4635430ec646ba74000c2f027c3b3eb3ec0c28a46d107222e90607056f87fcd6417cef\
    e12ad53277e1cba33ab8670f96a3633061301d0603551d0e04160414042d7ad20a95ad872b7dbed5211c89d0a2\
    fb513f301f0603551d23041830168014042d7ad20a95ad872b7dbed5211c89d0a2fb513f300f0603551d130101\
    ff040530030101ff300e0603551d0f0101ff040403020204300a06082a8648ce3d0403020349003046022100b6\
    ce2ca13c2e1ce82abc824ff5ef207fa0db039f31e0d4ad995e79b6017558da022100c2606f23106e230103e403\
    cb92b715fecb05b1f8d60a51dd33e9cb8bae884343";

/// A root of another trust domain.
const OTHER_CA: &str = "\
    3082017930820120a003020102020102300a06082a8648ce3d04030230133111300f06035504030c084f746865\
    722043413020170d3236313131353030303230375a180f32303831303831383030303230375a30133111300f06\
    035504030c084f746865722043413059301306072a8648ce3d020106082a8648ce3d0301070342000493d56d46\
    58ebbbdd54e2ca8c9095397b406912a5008bc2235613eb73fe806095ff0b7a2046dd52c8e41a3a17ccbae63ea8\
    335eee8328503ee2f8fde9bab68374a3633061301d0603551d0e0416041416100246277c30866b41acfc5a08ae\
    b1bcff3196301f0603551d2304183016801416100246277c30866b41acfc5a08aeb1bcff3196300f0603551d13\
    0101ff040530030101ff300e0603551d0f0101ff040403020204300a06082a8648ce3d04030203470030440220\
    7af706de4a50bb6c2d17a66fdbdb185db12522d5e3d5945e612e3f2db687d9a8022056803adaccb8005c1cd0da\
    5639359afb5a21c8086d6f857078bf7dffbbc7dd25";

/// Issued by the mesh root; URI spiffe://pleme.io/ns/openclaw/sa/lacre.
const LACRE: &str = "\
    308201b43082015aa00302010202010a300a06082a8648ce3d04030230123110300e06035504030c074d657368\
    2043413020170d3236313131353030303230375a180f32303831303831383030303230375a3010310e300c0603\
    5504030c056c616372653059301306072a8648ce3d020106082a8648ce3d0301070342000476557a46160806dd\
    86fcfd191c3fd15f16e5c3272444ccce7dff4c2e87cfe30933323c644f0ea45a294737e7a52f47139789446f5e\
    81a9d2abfd688175f8cebea381a030819d30090603551d1304023000301d0603551d250416301406082b060105\
    0507030106082b0601050507030230310603551d11042a302886267370696666653a2f2f706c656d652e696f2f\
    6e732f6f70656e636c61772f73612f6c61637265301d0603551d0e0416041466c02234125041d71bc3a59b2841\
    36185f951e50301f0603551d23041830168014042d7ad20a95ad872b7dbed5211c89d0a2fb513f300a06082a86\
    48ce3d0403020348003045022058a7bd1bb30adb48ab3894650fb91a73493865d71fc22d318eb5c0041ebb98f3\
    022100a15c95ad59ba79a9ae9b0904bae09d25061bb96f051d048fe127c9b77caf26ad";

/// An intermediate under the mesh root.
const INTERMEDIATE: &str = "\
    3082018130820128a003020102020114300a06082a8648ce3d04030230123110300e06035504030c074d657368\
    2043413020170d3236313131353030303431335a180f32303831303831383030303431335a301c311a30180603\
    5504030c114d65736820496e7465726d6564696174653059301306072a8648ce3d020106082a8648ce3d030107\
    03420004cdb88dcc927ecec299315c2ceb54639b61e52cd21846e793a5dc13f5ac042e1dc4872262c3b91cedc7\
    494e20462365db4ff19bb3ebcb3fc593b56f7f776c408da3633061300f0603551d130101ff040530030101ff30\
    0e0603551d0f0101ff040403020204301d0603551d0e041604146496a9a0197158564572b4c6e53d2832462d9c\
    10301f0603551d23041830168014042d7ad20a95ad872b7dbed5211c89d0a2fb513f300a06082a8648ce3d0403\
    02034700304402202683e71362477c4c77ad0d0afc2aa5ab209f615cdeb134c0832419a124ab606a0220783229\
    8c7a181e7214ecbf9fcc7274b0c86e5c9a0cebe786b9525401567c8031";

/// Reads a hexadecimal byte string.
fn hex(text: &str) -> Vec<u8> {
    (0..text.len() / 2).map(|i| u8::from_str_radix(&text[2 * i..2 * i + 2], 16).unwrap()).collect()
}

/// The byte strings one after another.
fn joined(parts: &[&str]) -> Vec<u8> {
    parts.iter().flat_map(|p| hex(p)).collect()
}

fn svid(chain: Vec<u8>, key: Vec<u8>, bundle: Vec<u8>) -> X509Svid {
    X509Svid {
        spiffe_id: "spiffe://pleme.io/ns/x/sa/y".into(),
        cert_chain_der: chain,
        private_key_der: key,
        bundle_der: bundle,
        hint: String::new(),
    }
}

fn good_svid() -> X509Svid {
    svid(joined(&[LACRE, INTERMEDIATE]), vec![1, 2, 3], joined(&[MESH_CA, OTHER_CA]))
}

fn some_ids() -> SpiffeIdAllowList {
    SpiffeIdAllowList::exact_ids(vec!["spiffe://a/b".to_string(), "spiffe://a/c".to_string()])
}

#[test]
fn empty_chain_is_error() {
    let svid = X509Svid {
        spiffe_id: "spiffe://pleme.io/ns/x/sa/y".into(),
        cert_chain_der: vec![],
        private_key_der: vec![1, 2, 3],
        bundle_der: vec![],
        hint: String::new(),
    };
    let err = match ServerConfigBuilder::new(svid).build() {
        Err(err) => err,
        Ok(_) => panic!("unexpected success"),
    };
    match err {
        Error::InvalidChain(_) => {}
        other => panic!("unexpected: {other:?}"),
    }
}

#[test]
fn chain_comes_before_key_and_key_before_bundle() {
    let messages = |s: X509Svid| {
        let server = match ServerConfigBuilder::new(s.clone()).build() {
            Err(e) => format!("{e:?}"),
            Ok(_) => "ok".to_string(),
        };
        let client = match ClientConfigBuilder::new(s).build() {
            Err(e) => format!("{e:?}"),
            Ok(_) => "ok".to_string(),
        };
        assert_eq!(server, client);
        server
    };
    assert_eq!(messages(svid(vec![], vec![], vec![])), "InvalidChain(\"empty chain\")");
    assert_eq!(messages(svid(vec![0x30], vec![], vec![])), "X509(\"truncated DER (1 bytes)\")");
    assert_eq!(messages(svid(hex(LACRE), vec![], vec![])), "InvalidKey(\"empty key\")");
    assert_eq!(messages(svid(hex(LACRE), vec![1], vec![])), "TrustBundle(\"no roots in bundle\")");
    assert_eq!(
        messages(svid(hex(LACRE), vec![1], vec![0x30, 0x80])),
        "X509(\"unsupported length octets: 0\")"
    );
    assert_eq!(messages(good_svid()), "ok");
}

#[test]
fn chain_is_split_into_its_certificates() {
    let certs = decode_cert_chain(&joined(&[LACRE, INTERMEDIATE])).unwrap();
    assert_eq!(certs, vec![hex(LACRE), hex(INTERMEDIATE)]);
    assert_eq!(certs.concat(), joined(&[LACRE, INTERMEDIATE]));
}

#[test]
fn truncated_chain_is_refused() {
    let mut der = joined(&[LACRE, INTERMEDIATE]);
    der.pop();
    let have = hex(INTERMEDIATE).len() - 1;
    match decode_cert_chain(&der) {
        Err(Error::X509(m)) => {
            assert_eq!(m, format!("truncated DER body: need {}, have {have}", have + 1))
        }
        other => panic!("unexpected: {other:?}"),
    }
}

#[test]
fn key_is_taken_as_it_is() {
    assert_eq!(decode_private_key(&[9, 8, 7]).unwrap_or_else(|_| panic!("refused")).der, [9, 8, 7]);
    match decode_private_key(&[]) {
        Err(Error::InvalidKey(m)) => assert_eq!(m, "empty key"),
        _ => panic!("unexpected"),
    }
}

#[test]
fn every_root_of_a_bundle_is_in_the_store() {
    let store = build_root_store(&joined(&[MESH_CA, OTHER_CA])).unwrap();
    let mut expected = RootCertStore::empty();
    expected.add(hex(MESH_CA).into()).unwrap();
    expected.add(hex(OTHER_CA).into()).unwrap();
    assert_eq!(store.roots, expected.roots);
    assert_ne!(store.roots[0], store.roots[1]);
}

#[test]
fn unreadable_root_is_refused() {
    let mut bundle = hex(MESH_CA);
    bundle.extend_from_slice(&[0x30, 0x01, 0x00]);
    match build_root_store(&bundle) {
        Err(Error::TrustBundle(m)) => {
            assert_eq!(m, "rustls add: invalid peer certificate: BadEncoding")
        }
        other => panic!("unexpected: {other:?}"),
    }
}

#[test]
fn refusal_of_a_root_is_reported() {
    assert!(root_outcome(Ok(())).is_ok());
    match root_outcome(Err("why".to_string())) {
        Err(Error::TrustBundle(m)) => assert_eq!(m, "rustls add: why"),
        other => panic!("unexpected: {other:?}"),
    }
}

#[test]
fn server_without_allow_list_takes_plain_webpki() {
    let parts = match ServerConfigBuilder::new(good_svid()).build() {
        Ok(parts) => parts,
        Err(e) => panic!("unexpected: {e:?}"),
    };
    assert_eq!(parts.chain, vec![hex(LACRE), hex(INTERMEDIATE)]);
    assert_eq!(parts.key.der, [1, 2, 3]);
    match parts.client_verifier {
        ClientVerifier::WebPki(roots) => assert_eq!(roots.len(), 2),
        ClientVerifier::SpiffeId(_) => panic!("unexpected"),
    }
}

#[test]
fn server_with_allow_list_checks_it_and_the_last_one_counts() {
    let first = SpiffeIdAllowList::exact_ids(vec!["spiffe://old/one".to_string()]);
    let builder = ServerConfigBuilder::new(good_svid()).peer_allowlist(first);
    match builder.peer_allowlist(some_ids()).build() {
        Ok(parts) => match parts.client_verifier {
            ClientVerifier::SpiffeId(v) => {
                assert_eq!(v.mode(), Mode::Client);
                assert_eq!(v.allow_list_len(), Some(2));
            }
            ClientVerifier::WebPki(_) => panic!("unexpected"),
        },
        Err(e) => panic!("unexpected: {e:?}"),
    }
}

#[test]
fn client_always_checks_the_spiffe_id() {
    let plain = ClientConfigBuilder::new(good_svid()).build().unwrap_or_else(|_| panic!("refused"));
    assert_eq!(plain.server_verifier.mode(), Mode::Server);
    assert_eq!(plain.server_verifier.allow_list_len(), None);
    assert_eq!(plain.chain, vec![hex(LACRE), hex(INTERMEDIATE)]);
    assert_eq!(plain.key.der, [1, 2, 3]);
    let strict = ClientConfigBuilder::new(good_svid())
        .peer_allowlist(some_ids())
        .build()
        .unwrap_or_else(|_| panic!("refused"));
    assert_eq!(strict.server_verifier.allow_list_len(), Some(2));
}

#[test]
fn plain_verifier_needs_a_root() {
    match make_client_verifier(RootCertStore::empty().into(), None) {
        Err(Error::TrustBundle(m)) => {
            assert_eq!(m, "WebPkiClientVerifier::build: no root trust anchors were provided")
        }
        _ => panic!("unexpected"),
    }
}

#[test]
fn placeholder_name_is_spiffe_local() {
    assert_eq!(spiffe_placeholder_server_name().to_str(), "spiffe.local");
}

#[test]
fn rustls_errors_are_wrapped() {
    match Error::from(rustls::Error::HandshakeNotComplete) {
        Error::Rustls(e) => assert_eq!(e, rustls::Error::HandshakeNotComplete),
        other => panic!("unexpected: {other:?}"),
    }
}
