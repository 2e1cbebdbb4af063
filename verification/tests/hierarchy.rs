use cert_machine::cert::Bundle;
use cert_machine::config_parser::{Ca, Config, Instance};
use cert_machine::error::CertError;
use cert_machine::hierarchy::{authority_files, create_ca, trust_links, CA};
use cert_machine::kubernetes_certs::{gen_ca_cert, gen_cert, gen_main_ca_cert, CertType};
use cert_machine::store::{Authority, StoreOp};
use openssl::nid::Nid;
use openssl::x509::X509;

fn host(hostname: &str, filename: Option<&str>) -> Instance {
    Instance { filename: filename.map(|s| s.to_string()), hostname: hostname.to_string(), san: Vec::new() }
}

fn config() -> Config {
    Config {
        cluster_name: "test-cluster".to_string(),
        worker: vec![host("node1", None), host("node2.example.org", Some("node2"))],
        etcd_server: vec![host("etcd1", None)],
        user: None,
        etcd_users: None,
        validity_days: 30,
        key_size: 1024,
        ca: Ca {
            country: Some("NL".to_string()),
            organization: Some("Example".to_string()),
            organization_unit: Some("Platform".to_string()),
            locality: Some("Utrecht".to_string()),
            state_or_province_name: Some("UT".to_string()),
            validity_days: 3650,
            key_size: 2048,
        },
        master_san: Vec::new(),
        apiserver_internal_address: "10.0.0.1:6443".to_string(),
        apiserver_external_address: "example.org:6443".to_string(),
        overwrite: false,
        out_dir: "certs".to_string(),
    }
}

fn entry(name: &openssl::x509::X509NameRef, nid: Nid) -> Vec<String> {
    name.entries_by_nid(nid).map(|e| e.data().as_utf8().unwrap().to_string()).collect()
}

fn fake(tag: &str) -> Box<Bundle> {
    Box::new(Bundle {
        cert: format!("{} certificate", tag).into_bytes(),
        key: format!("{} key", tag).into_bytes(),
        serial_number: Some(0),
        issuer: None,
    })
}

fn link(target: &str, path: &str) -> StoreOp {
    StoreOp::Link { target: target.to_string(), path: path.to_string(), replace: false }
}

#[test]
fn root_certificate_is_self_signed() {
    let cfg = config();
    let root = gen_main_ca_cert(&cfg).unwrap();
    assert_eq!(root.serial_number, Some(0));
    let cert = X509::from_pem(&root.cert).unwrap();
    assert_eq!(entry(cert.subject_name(), Nid::COMMONNAME), vec!["test-cluster"]);
    assert_eq!(entry(cert.subject_name(), Nid::COUNTRYNAME), vec!["NL"]);
    assert_eq!(entry(cert.subject_name(), Nid::ORGANIZATIONNAME), vec!["Example"]);
    assert_eq!(entry(cert.subject_name(), Nid::ORGANIZATIONALUNITNAME), vec!["Platform"]);
    assert_eq!(entry(cert.subject_name(), Nid::LOCALITYNAME), vec!["Utrecht"]);
    assert_eq!(entry(cert.subject_name(), Nid::STATEORPROVINCENAME), vec!["UT"]);
    assert_eq!(cert.issuer_name().to_der().unwrap(), cert.subject_name().to_der().unwrap());
    assert!(cert.verify(&cert.public_key().unwrap()).unwrap());
    assert_eq!(cert.public_key().unwrap().bits(), 2048);
    assert_eq!(cert.not_before().diff(cert.not_after()).unwrap().days, 3650);
    let text = String::from_utf8(cert.to_text().unwrap()).unwrap();
    assert!(text.contains("CA:TRUE"));
}

#[test]
fn intermediate_authorities_are_signed_by_the_root() {
    let cfg = config();
    let ca = create_ca(&cfg).unwrap();
    let root = X509::from_pem(&ca.main_ca.cert).unwrap();
    let etcd = X509::from_pem(&ca.etcd_ca.cert).unwrap();
    let front = X509::from_pem(&ca.front_ca.cert).unwrap();
    assert_eq!(root.issuer_name().to_der().unwrap(), root.subject_name().to_der().unwrap());
    assert_eq!(etcd.issuer_name().to_der().unwrap(), root.subject_name().to_der().unwrap());
    assert_eq!(front.issuer_name().to_der().unwrap(), root.subject_name().to_der().unwrap());
    assert_eq!(entry(etcd.subject_name(), Nid::COMMONNAME), vec!["etcd"]);
    assert_eq!(entry(front.subject_name(), Nid::COMMONNAME), vec!["front-proxy-ca"]);
    assert!(entry(etcd.subject_name(), Nid::COUNTRYNAME).is_empty());
    let root_key = root.public_key().unwrap();
    assert!(root.verify(&root_key).unwrap());
    assert!(etcd.verify(&root_key).unwrap());
    assert!(front.verify(&root_key).unwrap());
    for cert in [&etcd, &front] {
        let text = String::from_utf8(cert.to_text().unwrap()).unwrap();
        assert!(text.contains("CA:TRUE"));
        assert!(text.contains("Certificate Sign"));
        assert_eq!(cert.public_key().unwrap().bits(), 2048);
    }
    assert_eq!(ca.main_ca.serial_number, Some(0));
    assert_eq!(ca.etcd_ca.serial_number, Some(0));
    assert_eq!(ca.front_ca.serial_number, Some(0));
    assert_eq!(ca.main_ca.issuer, None);
    assert_eq!(ca.etcd_ca.issuer, Some(ca.main_ca.cert.clone()));
    assert_eq!(ca.front_ca.issuer, Some(ca.main_ca.cert.clone()));
    assert_ne!(
        etcd.subject_name().to_der().unwrap(),
        etcd.issuer_name().to_der().unwrap()
    );
    assert_ne!(
        front.subject_name().to_der().unwrap(),
        front.issuer_name().to_der().unwrap()
    );
    assert!(!etcd.verify(&etcd.public_key().unwrap()).unwrap());
    assert!(!front.verify(&front.public_key().unwrap()).unwrap());
}

#[test]
fn gen_ca_cert_without_a_signer_signs_itself() {
    let cfg = config();
    let alone = gen_ca_cert("alone", None, &cfg).unwrap();
    let cert = X509::from_pem(&alone.cert).unwrap();
    assert_eq!(cert.issuer_name().to_der().unwrap(), cert.subject_name().to_der().unwrap());
    assert!(cert.verify(&cert.public_key().unwrap()).unwrap());
}

#[test]
fn bundle_of_each_authority() {
    let ca = CA { main_ca: fake("root"), etcd_ca: fake("etcd"), front_ca: fake("front") };
    assert_eq!(ca.bundle(Authority::Root).cert, b"root certificate".to_vec());
    assert_eq!(ca.bundle(Authority::Etcd).cert, b"etcd certificate".to_vec());
    assert_eq!(ca.bundle(Authority::FrontProxy).cert, b"front certificate".to_vec());
}

#[test]
fn files_an_authority_is_loaded_from() {
    assert_eq!(
        authority_files("certs", Authority::Root),
        ("certs/CA/root/keys/ca.key".to_string(), "certs/CA/root/certs/ca.crt".to_string())
    );
    assert_eq!(
        authority_files("out", Authority::FrontProxy),
        ("out/CA/front-proxy/keys/ca.key".to_string(), "out/CA/front-proxy/certs/ca.crt".to_string())
    );
}

#[test]
fn bootstrap_operations() {
    let ca = CA { main_ca: fake("root"), etcd_ca: fake("etcd"), front_ca: fake("front") };
    let ops = ca.bootstrap_ops("certs");
    let authority = |dir: &str, tag: &str| {
        vec![
            StoreOp::CreateFile { path: format!("certs/CA/{}/index", dir), contents: b"0".to_vec() },
            StoreOp::WriteFile {
                path: format!("certs/CA/{}/certs/ca.crt", dir),
                contents: format!("{} certificate", tag).into_bytes(),
            },
            StoreOp::WriteFile {
                path: format!("certs/CA/{}/keys/ca.key", dir),
                contents: format!("{} key", tag).into_bytes(),
            },
            StoreOp::UpdateFile { path: format!("certs/CA/{}/index", dir), contents: b"0".to_vec() },
        ]
    };
    let mut expected = Vec::new();
    expected.extend(authority("root", "root"));
    expected.extend(authority("etcd", "etcd"));
    expected.extend(authority("front-proxy", "front"));
    expected.push(link("../CA/root/certs/ca.crt", "certs/master/ca.crt"));
    expected.push(link("../CA/root/keys/ca.key", "certs/master/ca.key"));
    expected.push(link("../CA/etcd/certs/ca.crt", "certs/master/etcd-ca.crt"));
    expected.push(link("../CA/front-proxy/certs/ca.crt", "certs/master/front-proxy-ca.crt"));
    expected.push(link("../CA/front-proxy/keys/ca.key", "certs/master/front-proxy-ca.key"));
    assert_eq!(ops, expected);
}

#[test]
fn trust_links_of_the_hosts() {
    let cfg = config();
    assert_eq!(
        trust_links(&cfg),
        vec![
            link("../CA/root/certs/ca.crt", "certs/node1/ca.crt"),
            link("../CA/root/certs/ca.crt", "certs/node2/ca.crt"),
            link("../CA/etcd/certs/ca.crt", "certs/etcd1/etcd-ca.crt"),
        ]
    );
    let mut bare = config();
    bare.worker = Vec::new();
    bare.etcd_server = Vec::new();
    assert!(trust_links(&bare).is_empty());
}

#[test]
fn hierarchy_loads_from_its_files() {
    let cfg = config();
    let ca = create_ca(&cfg).unwrap();
    let loaded = CA::from_pem(
        ca.main_ca.cert.clone(),
        ca.main_ca.key.clone(),
        ca.etcd_ca.cert.clone(),
        ca.etcd_ca.key.clone(),
        ca.front_ca.cert.clone(),
        ca.front_ca.key.clone(),
    )
    .unwrap();
    assert_eq!(loaded.main_ca.cert, ca.main_ca.cert);
    assert_eq!(loaded.etcd_ca.key, ca.etcd_ca.key);
    assert_eq!(loaded.front_ca.cert, ca.front_ca.cert);
    assert_eq!(loaded.main_ca.serial_number, None);
    let leaf = gen_cert(&loaded, &cfg, &CertType::Admin, 5).unwrap();
    let cert = X509::from_pem(&leaf.cert).unwrap();
    let root = X509::from_pem(&ca.main_ca.cert).unwrap();
    assert!(cert.verify(&root.public_key().unwrap()).unwrap());
    assert_eq!(leaf.serial_number, Some(5));
}

#[test]
fn hierarchy_refuses_unreadable_files() {
    let cfg = config();
    let ca = create_ca(&cfg).unwrap();
    let r = CA::from_pem(
        ca.main_ca.cert.clone(),
        ca.main_ca.key.clone(),
        b"damaged".to_vec(),
        ca.etcd_ca.key.clone(),
        ca.front_ca.cert.clone(),
        ca.front_ca.key.clone(),
    );
    assert!(matches!(r, Err(CertError::Crypto(_))));
}

#[test]
fn gen_cert_issues_under_the_serial_it_is_given() {
    let cfg = config();
    let ca = create_ca(&cfg).unwrap();
    let first = gen_cert(&ca, &cfg, &CertType::Admin, 1).unwrap();
    let second = gen_cert(&ca, &cfg, &CertType::Admin, 2).unwrap();
    assert_eq!(first.serial_number, Some(1));
    assert_eq!(second.serial_number, Some(2));
    let cert = X509::from_pem(&second.cert).unwrap();
    assert_eq!(cert.serial_number().to_bn().unwrap().to_dec_str().unwrap().to_string(), "2");
}

#[test]
fn gen_cert_signs_with_the_right_authority() {
    let cfg = config();
    let ca = create_ca(&cfg).unwrap();
    let root = X509::from_pem(&ca.main_ca.cert).unwrap();
    let etcd = X509::from_pem(&ca.etcd_ca.cert).unwrap();
    let front = X509::from_pem(&ca.front_ca.cert).unwrap();
    let mut serial = 0;
    let cases: Vec<(CertType, &X509)> = vec![
        (CertType::ApiServer, &root),
        (CertType::ApiServerEtcdClient, &etcd),
        (CertType::FrontProxy, &front),
        (CertType::EtcdServer(&cfg.etcd_server[0]), &etcd),
        (CertType::EtcdUser("backup"), &etcd),
        (CertType::Kubelet(&cfg.worker[0]), &root),
    ];
    for (role, signer) in cases.iter() {
        serial += 1;
        let leaf = gen_cert(&ca, &cfg, role, serial).unwrap();
        let cert = X509::from_pem(&leaf.cert).unwrap();
        assert_eq!(cert.issuer_name().to_der().unwrap(), signer.subject_name().to_der().unwrap());
        assert!(cert.verify(&signer.public_key().unwrap()).unwrap());
        assert_eq!(leaf.issuer, Some(signer.to_pem().unwrap()));
        assert_eq!(cert.public_key().unwrap().bits(), 1024);
        assert_eq!(cert.not_before().diff(cert.not_after()).unwrap().days, 30);
    }
}

#[test]
fn gen_cert_fails_under_a_broken_authority() {
    let cfg = config();
    let ca = CA { main_ca: fake("root"), etcd_ca: fake("etcd"), front_ca: fake("front") };
    assert!(matches!(gen_cert(&ca, &cfg, &CertType::Admin, 10), Err(CertError::Crypto(_))));
}
