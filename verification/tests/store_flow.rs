use cert_machine::cert::Bundle;
use cert_machine::config_parser::{Ca, Config, Instance};
use cert_machine::hierarchy::{authority_files, create_ca, trust_links, CA};
use cert_machine::error::CertError;
use cert_machine::issuance::{draw, issue_all, issue_roles, ledger_ops, upcoming, Draw, Ledgers, Upcoming};
use cert_machine::kubernetes_certs::{
    all_roles, control_plane, file_and_link, gen_cert, kube_certs, placement, service_account,
    CertType,
};
use cert_machine::ledger::SerialLedger;
use cert_machine::ledger::get_sn;
use cert_machine::link::{link_step, LinkSeen, LinkState, LinkStep};
use cert_machine::store::{
    ca_root, crt_file, index_file, init_store, key_file, stored_name, write_bundle_to_file, Authority,
    StoreError, StoreOp,
};
use openssl::x509::X509;
use std::collections::BTreeMap;

#[derive(Clone, Debug, PartialEq)]
enum Node {
    Dir,
    File(Vec<u8>),
    Link(String),
}

#[derive(Clone, Debug, PartialEq)]
struct Disk {
    nodes: BTreeMap<String, Node>,
}

impl Disk {
    fn new() -> Disk {
        Disk { nodes: BTreeMap::new() }
    }

    fn has(&self, path: &str) -> bool {
        self.nodes.contains_key(path)
    }

    fn files(&self) -> Vec<String> {
        self.nodes.iter().filter(|(_, n)| matches!(n, Node::File(_))).map(|(p, _)| p.clone()).collect()
    }

    fn file(&self, path: &str) -> Vec<u8> {
        match self.nodes.get(path) {
            Some(Node::File(bytes)) => bytes.clone(),
            other => panic!("{} is {:?}", path, other),
        }
    }

    fn make_dir(&mut self, path: &str) -> Result<(), StoreError> {
        let mut prefix = String::new();
        for part in path.split('/') {
            if !prefix.is_empty() {
                prefix.push('/');
            }
            prefix.push_str(part);
            match self.nodes.get(&prefix) {
                None => {
                    self.nodes.insert(prefix.clone(), Node::Dir);
                }
                Some(Node::Dir) => {}
                Some(_) => return Err(StoreError::WrongKind),
            }
        }
        Ok(())
    }

    fn place_link(&mut self, target: &str, path: &str, replace: bool) -> Result<(), StoreError> {
        let mut state = LinkState::Start;
        let mut seen = LinkSeen::Nothing;
        loop {
            let (next, step) = link_step(state, seen, replace);
            state = next;
            seen = match step {
                LinkStep::Create => {
                    if self.has(path) {
                        LinkSeen::CreateFailed
                    } else {
                        self.nodes.insert(path.to_string(), Node::Link(target.to_string()));
                        LinkSeen::Created
                    }
                }
                LinkStep::Inspect => match self.nodes.get(path) {
                    Some(Node::Link(_)) => LinkSeen::IsSymlink,
                    Some(_) => LinkSeen::NotSymlink,
                    None => LinkSeen::InspectFailed,
                },
                LinkStep::Remove => {
                    self.nodes.remove(path);
                    LinkSeen::Removed
                }
                LinkStep::Done => return Ok(()),
                LinkStep::Fail(e) => return Err(e),
            };
        }
    }

    fn apply(&mut self, op: &StoreOp) -> Result<(), StoreError> {
        match op {
            StoreOp::MakeDir { path } => self.make_dir(path),
            StoreOp::CreateFile { path, contents } => {
                if self.has(path) {
                    return Err(StoreError::AlreadyExists);
                }
                self.nodes.insert(path.clone(), Node::File(contents.clone()));
                Ok(())
            }
            StoreOp::WriteFile { path, contents } => match self.nodes.get(path) {
                None | Some(Node::File(_)) => {
                    self.nodes.insert(path.clone(), Node::File(contents.clone()));
                    Ok(())
                }
                Some(_) => Err(StoreError::WrongKind),
            },
            StoreOp::UpdateFile { path, contents } => match self.nodes.get(path) {
                None => Err(StoreError::Missing),
                Some(Node::File(_)) => {
                    self.nodes.insert(path.clone(), Node::File(contents.clone()));
                    Ok(())
                }
                Some(_) => Err(StoreError::WrongKind),
            },
            StoreOp::Link { target, path, replace } => self.place_link(target, path, *replace),
        }
    }

    fn run(&mut self, ops: &[StoreOp]) -> Result<(), StoreError> {
        for op in ops {
            self.apply(op)?;
        }
        Ok(())
    }

    fn resolve(&self, path: &str) -> String {
        let target = match self.nodes.get(path) {
            Some(Node::Link(target)) => target.clone(),
            other => panic!("{} is {:?}", path, other),
        };
        let mut parts: Vec<&str> = path.split('/').collect();
        parts.pop();
        for part in target.split('/') {
            if part == ".." {
                parts.pop();
            } else {
                parts.push(part);
            }
        }
        parts.join("/")
    }

    fn ledger(&self, out_dir: &str, authority: Authority) -> u32 {
        let text = String::from_utf8(self.file(&index_file(&authority.dir(out_dir)))).unwrap();
        get_sn(Some(&text)).unwrap().ledger.value
    }
}

fn host(hostname: &str, san: &[&str]) -> Instance {
    Instance { filename: None, hostname: hostname.to_string(), san: san.iter().map(|s| s.to_string()).collect() }
}

fn config(overwrite: bool) -> Config {
    Config {
        cluster_name: "test-cluster".to_string(),
        worker: vec![host("node1", &["node1", "10.0.0.11"])],
        etcd_server: vec![host("etcd1", &["etcd1", "10.0.0.21"])],
        user: None,
        etcd_users: None,
        validity_days: 30,
        key_size: 1024,
        ca: Ca {
            country: None,
            organization: None,
            organization_unit: None,
            locality: None,
            state_or_province_name: None,
            validity_days: 3650,
            key_size: 1024,
        },
        master_san: vec!["api.example.org".to_string()],
        apiserver_internal_address: "10.0.0.1:6443".to_string(),
        apiserver_external_address: "example.org:6443".to_string(),
        overwrite,
        out_dir: "certs".to_string(),
    }
}

fn bootstrap(disk: &mut Disk, cfg: &Config) -> Result<CA, StoreError> {
    let ops = init_store(cfg, &cfg.out_dir, disk.has(&ca_root(&cfg.out_dir)))?;
    disk.run(&ops)?;
    let ca = create_ca(cfg).unwrap();
    disk.run(&ca.bootstrap_ops(&cfg.out_dir))?;
    Ok(ca)
}

fn try_issue(disk: &mut Disk, ca: &CA, cfg: &Config, role: &CertType) -> Result<Result<Box<Bundle>, CertError>, StoreError> {
    let place = placement(role, cfg);
    let dir = place.authority.dir(&cfg.out_dir);
    let index = index_file(&dir);
    let contents = if disk.has(&index) { Some(String::from_utf8(disk.file(&index)).unwrap()) } else { None };
    let read = get_sn(contents.as_deref()).unwrap();
    if let Some(text) = &read.create {
        disk.apply(&StoreOp::CreateFile { path: index.clone(), contents: text.clone().into_bytes() })?;
    }
    let mut ledger = read.ledger;
    let next = match upcoming(&ledger, &place, &cfg.out_dir) {
        Some(next) => next,
        None => return Ok(Err(CertError::SerialsExhausted)),
    };
    let crt_exists = disk.has(&next.crt);
    let key_exists = disk.has(&next.key);
    let drawn = match draw(&mut ledger, &dir, cfg.overwrite, crt_exists, key_exists) {
        Ok(drawn) => drawn,
        Err(e) => return Ok(Err(e)),
    };
    disk.apply(&drawn.op)?;
    let bundle = match gen_cert(ca, cfg, role, drawn.serial) {
        Ok(bundle) => bundle,
        Err(e) => return Ok(Err(e)),
    };
    let plan = file_and_link(&bundle, drawn.serial, &place, &cfg.out_dir, cfg.overwrite, crt_exists, key_exists);
    disk.run(&plan.ops)?;
    Ok(Ok(bundle))
}

fn issue(disk: &mut Disk, ca: &CA, cfg: &Config, role: &CertType) -> Result<Box<Bundle>, StoreError> {
    try_issue(disk, ca, cfg, role).map(|r| r.unwrap())
}

fn check_signed(disk: &Disk, crt_path: &str, signer: &Bundle) {
    let cert = X509::from_pem(&disk.file(crt_path)).unwrap();
    let signer = X509::from_pem(&signer.cert).unwrap();
    assert_eq!(cert.issuer_name().to_der().unwrap(), signer.subject_name().to_der().unwrap(), "{}", crt_path);
    assert!(cert.verify(&signer.public_key().unwrap()).unwrap(), "{}", crt_path);
}

#[test]
fn full_issuance_for_one_worker_and_one_etcd_host() {
    let cfg = config(false);
    let mut disk = Disk::new();
    let ca = bootstrap(&mut disk, &cfg).unwrap();
    for role in control_plane().iter() {
        issue(&mut disk, &ca, &cfg, role).unwrap();
    }
    disk.run(&service_account(&cfg.out_dir).unwrap()).unwrap();
    disk.run(&trust_links(&cfg)).unwrap();
    let roles = all_roles(&cfg);
    for role in roles[control_plane().len()..].iter() {
        issue(&mut disk, &ca, &cfg, role).unwrap();
    }

    check_signed(&disk, "certs/CA/root/certs/ca.crt", &ca.main_ca);
    check_signed(&disk, "certs/CA/etcd/certs/ca.crt", &ca.main_ca);
    check_signed(&disk, "certs/CA/front-proxy/certs/ca.crt", &ca.main_ca);
    assert_eq!(disk.file("certs/CA/root/keys/ca.key"), ca.main_ca.key);
    assert_eq!(disk.file("certs/CA/etcd/keys/ca.key"), ca.etcd_ca.key);
    assert_eq!(disk.file("certs/CA/front-proxy/keys/ca.key"), ca.front_ca.key);

    let expected: Vec<(&str, &str, &Bundle)> = vec![
        ("certs/master/admin", "certs/CA/root/{}/admin-1", &ca.main_ca),
        ("certs/master/apiserver", "certs/CA/root/{}/apiserver-2", &ca.main_ca),
        ("certs/master/apiserver-kubelet-client", "certs/CA/root/{}/apiserver-kubelet-client-3", &ca.main_ca),
        ("certs/master/apiserver-etcd-client", "certs/CA/etcd/{}/apiserver-etcd-client-1", &ca.etcd_ca),
        ("certs/master/kube-controller-manager", "certs/CA/root/{}/kube-controller-manager-4", &ca.main_ca),
        ("certs/master/kube-scheduler", "certs/CA/root/{}/kube-scheduler-5", &ca.main_ca),
        ("certs/master/front-proxy-client", "certs/CA/front-proxy/{}/front-proxy-client-1", &ca.front_ca),
        ("certs/master/kube-proxy", "certs/CA/root/{}/kube-proxy-6", &ca.main_ca),
        ("certs/node1/kube-proxy", "certs/CA/root/{}/kube-proxy-6", &ca.main_ca),
        ("certs/node1/node-kubeconfig", "certs/CA/root/{}/node1-kubeconfig-7", &ca.main_ca),
        ("certs/node1/node", "certs/CA/root/{}/node1-8", &ca.main_ca),
        ("certs/etcd1/etcd", "certs/CA/etcd/{}/etcd1-2", &ca.etcd_ca),
    ];
    for (stable, versioned, signer) in expected.iter() {
        let crt = format!("{}.crt", versioned.replace("{}", "certs"));
        let key = format!("{}.key", versioned.replace("{}", "keys"));
        assert_eq!(disk.resolve(&format!("{}.crt", stable)), crt);
        assert_eq!(disk.resolve(&format!("{}.key", stable)), key);
        check_signed(&disk, &crt, signer);
        let cert = X509::from_pem(&disk.file(&crt)).unwrap();
        let private = openssl::pkey::PKey::private_key_from_pem(&disk.file(&key)).unwrap();
        assert!(private.public_eq(&cert.public_key().unwrap()));
    }

    assert_eq!(disk.resolve("certs/master/ca.crt"), "certs/CA/root/certs/ca.crt");
    assert_eq!(disk.resolve("certs/master/ca.key"), "certs/CA/root/keys/ca.key");
    assert_eq!(disk.resolve("certs/master/etcd-ca.crt"), "certs/CA/etcd/certs/ca.crt");
    assert_eq!(disk.resolve("certs/master/front-proxy-ca.crt"), "certs/CA/front-proxy/certs/ca.crt");
    assert_eq!(disk.resolve("certs/master/front-proxy-ca.key"), "certs/CA/front-proxy/keys/ca.key");
    assert_eq!(disk.resolve("certs/node1/ca.crt"), "certs/CA/root/certs/ca.crt");
    assert_eq!(disk.resolve("certs/etcd1/etcd-ca.crt"), "certs/CA/etcd/certs/ca.crt");
    assert_eq!(disk.resolve("certs/master/sa.pub"), "certs/sa.pub");
    assert_eq!(disk.resolve("certs/master/sa.key"), "certs/sa.key");
    assert!(disk.has("certs/sa.pub"));
    assert!(disk.has("certs/sa.key"));
    assert_eq!(disk.nodes.get("certs/users"), Some(&Node::Dir));
    assert_eq!(disk.nodes.get("certs/etcd-users"), Some(&Node::Dir));

    assert_eq!(disk.ledger("certs", Authority::Root), 8);
    assert_eq!(disk.ledger("certs", Authority::Etcd), 2);
    assert_eq!(disk.ledger("certs", Authority::FrontProxy), 1);
}

#[test]
fn one_run_issues_every_role() {
    let cfg = config(false);
    let mut disk = Disk::new();
    let ca = bootstrap(&mut disk, &cfg).unwrap();
    let mut ledgers = Ledgers::fresh();
    let issuance = issue_all(&ca, &cfg, &mut ledgers, &disk.files()).unwrap();
    assert_eq!(issuance.bundles.len(), 11);
    let serials: Vec<u32> = issuance.bundles.iter().map(|b| b.as_ref().unwrap().serial_number.unwrap()).collect();
    assert_eq!(serials, vec![1, 2, 3, 1, 4, 5, 1, 6, 7, 8, 2]);
    assert_eq!(ledgers.root.value, 8);
    assert_eq!(ledgers.etcd.value, 2);
    assert_eq!(ledgers.front_proxy.value, 1);
    disk.run(&issuance.ops).unwrap();
    assert_eq!(disk.ledger("certs", Authority::Root), 8);
    assert_eq!(disk.ledger("certs", Authority::Etcd), 2);
    assert_eq!(disk.ledger("certs", Authority::FrontProxy), 1);
    assert_eq!(disk.resolve("certs/master/admin.crt"), "certs/CA/root/certs/admin-1.crt");
    assert_eq!(disk.resolve("certs/master/apiserver-etcd-client.key"), "certs/CA/etcd/keys/apiserver-etcd-client-1.key");
    assert_eq!(disk.resolve("certs/master/front-proxy-client.crt"), "certs/CA/front-proxy/certs/front-proxy-client-1.crt");
    assert_eq!(disk.resolve("certs/node1/kube-proxy.crt"), "certs/CA/root/certs/kube-proxy-6.crt");
    assert_eq!(disk.resolve("certs/node1/node-kubeconfig.crt"), "certs/CA/root/certs/node1-kubeconfig-7.crt");
    assert_eq!(disk.resolve("certs/node1/node.key"), "certs/CA/root/keys/node1-8.key");
    assert_eq!(disk.resolve("certs/etcd1/etcd.crt"), "certs/CA/etcd/certs/etcd1-2.crt");
    for (role, bundle) in all_roles(&cfg).iter().zip(issuance.bundles.iter()) {
        let bundle = bundle.as_ref().unwrap();
        assert_eq!(bundle.issuer, Some(ca.bundle(cert_machine::kubernetes_certs::authority(role)).cert.clone()));
        let place = placement(role, &cfg);
        let dir = place.authority.dir(&cfg.out_dir);
        let stored = stored_name(&place.filename, bundle.serial_number.unwrap());
        assert_eq!(disk.file(&crt_file(&dir, &stored)), bundle.cert);
        assert_eq!(disk.file(&key_file(&dir, &stored)), bundle.key);
        check_signed(&disk, &crt_file(&dir, &stored), ca.bundle(place.authority));
    }
}

#[test]
fn a_run_goes_on_from_the_ledgers() {
    let cfg = config(true);
    let mut disk = Disk::new();
    let ca = bootstrap(&mut disk, &cfg).unwrap();
    let mut ledgers = Ledgers::fresh();
    let first = issue_all(&ca, &cfg, &mut ledgers, &disk.files()).unwrap();
    disk.run(&first.ops).unwrap();
    let roles = vec![CertType::Admin, CertType::EtcdUser("backup"), CertType::Admin, CertType::FrontProxy];
    let second = issue_roles(&ca, &cfg, &roles, &mut ledgers, &disk.files()).unwrap();
    let serials: Vec<u32> = second.bundles.iter().map(|b| b.as_ref().unwrap().serial_number.unwrap()).collect();
    assert_eq!(serials, vec![9, 3, 10, 2]);
    disk.run(&second.ops).unwrap();
    assert_eq!(disk.resolve("certs/master/admin.crt"), "certs/CA/root/certs/admin-10.crt");
    assert_eq!(disk.resolve("certs/etcd-users/backup.key"), "certs/CA/etcd/keys/backup-3.key");
    assert_eq!(disk.ledger("certs", Authority::Root), 10);
    assert_eq!(disk.ledger("certs", Authority::Etcd), 3);
    assert_eq!(disk.ledger("certs", Authority::FrontProxy), 2);
}

#[test]
fn a_run_that_fails_writes_nothing() {
    let cfg = config(false);
    let ca = create_ca(&cfg).unwrap();
    let mut ledgers = Ledgers::fresh();
    ledgers.etcd.value = u32::MAX;
    let roles = vec![CertType::Admin, CertType::EtcdUser("backup"), CertType::Scheduler];
    let r = issue_roles(&ca, &cfg, &roles, &mut ledgers, &Vec::new());
    assert_eq!(r.err(), Some(CertError::SerialsExhausted));
    assert_eq!(ledgers.root.value, 1);
    assert_eq!(ledgers.etcd.value, u32::MAX);
    assert_eq!(ledgers.front_proxy.value, 0);
}

#[test]
fn an_empty_run() {
    let cfg = config(false);
    let ca = create_ca(&cfg).unwrap();
    let mut ledgers = Ledgers::fresh();
    let out = issue_roles(&ca, &cfg, &Vec::new(), &mut ledgers, &Vec::new()).unwrap();
    assert!(out.bundles.is_empty());
    assert!(out.ops.is_empty());
    assert!(out.conflicts.is_empty());
    assert_eq!(ledgers, Ledgers::fresh());
}

#[test]
fn ledgers_by_authority() {
    let mut ledgers = Ledgers::fresh();
    assert_eq!(ledgers.get(Authority::Root).value, 0);
    ledgers.set(Authority::Etcd, cert_machine::ledger::SerialLedger { value: 7 });
    assert_eq!(ledgers.get(Authority::Etcd).value, 7);
    assert_eq!(ledgers.get(Authority::Root).value, 0);
    assert_eq!(ledgers.get(Authority::FrontProxy).value, 0);
    ledgers.set(Authority::FrontProxy, cert_machine::ledger::SerialLedger { value: 9 });
    ledgers.set(Authority::Root, cert_machine::ledger::SerialLedger { value: 3 });
    assert_eq!((ledgers.root.value, ledgers.etcd.value, ledgers.front_proxy.value), (3, 7, 9));
}

#[test]
fn reissue_with_overwrite_moves_the_links() {
    let cfg = config(true);
    let mut disk = Disk::new();
    let ca = bootstrap(&mut disk, &cfg).unwrap();
    let first = issue(&mut disk, &ca, &cfg, &CertType::Admin).unwrap();
    assert_eq!(disk.resolve("certs/master/admin.crt"), "certs/CA/root/certs/admin-1.crt");
    let second = issue(&mut disk, &ca, &cfg, &CertType::Admin).unwrap();
    assert!(second.serial_number > first.serial_number);
    assert_eq!(second.serial_number, Some(2));
    assert_eq!(disk.resolve("certs/master/admin.crt"), "certs/CA/root/certs/admin-2.crt");
    assert_eq!(disk.resolve("certs/master/admin.key"), "certs/CA/root/keys/admin-2.key");
    assert_eq!(disk.file("certs/CA/root/certs/admin-2.crt"), second.cert);
    assert_eq!(disk.file("certs/CA/root/keys/admin-2.key"), second.key);
    assert_eq!(disk.file("certs/CA/root/certs/admin-1.crt"), first.cert);
    assert_eq!(disk.ledger("certs", Authority::Root), 2);
}

#[test]
fn reissue_of_every_role_moves_its_links() {
    let cfg = config(true);
    let mut disk = Disk::new();
    let ca = bootstrap(&mut disk, &cfg).unwrap();
    for role in all_roles(&cfg).iter() {
        let first = issue(&mut disk, &ca, &cfg, role).unwrap();
        let second = issue(&mut disk, &ca, &cfg, role).unwrap();
        assert!(second.serial_number > first.serial_number);
        let place = placement(role, &cfg);
        let dir = place.authority.dir(&cfg.out_dir);
        let stored = stored_name(&place.filename, second.serial_number.unwrap());
        for dest in place.dests.iter() {
            assert_eq!(disk.resolve(&format!("{}.crt", dest)), crt_file(&dir, &stored));
            assert_eq!(disk.resolve(&format!("{}.key", dest)), key_file(&dir, &stored));
        }
        assert_eq!(disk.file(&crt_file(&dir, &stored)), second.cert);
        assert_eq!(disk.file(&key_file(&dir, &stored)), second.key);
    }
}

#[test]
fn serials_of_an_authority_run_on_across_reloads() {
    let cfg = config(false);
    let mut disk = Disk::new();
    let ca = bootstrap(&mut disk, &cfg).unwrap();
    let mut serials = Vec::new();
    for round in 0..6 {
        let (key, crt) = authority_files(&cfg.out_dir, Authority::Etcd);
        let reloaded = if round % 2 == 1 {
            CA::from_pem(
                disk.file("certs/CA/root/certs/ca.crt"),
                disk.file("certs/CA/root/keys/ca.key"),
                disk.file(&crt),
                disk.file(&key),
                disk.file("certs/CA/front-proxy/certs/ca.crt"),
                disk.file("certs/CA/front-proxy/keys/ca.key"),
            )
            .unwrap()
        } else {
            ca.clone()
        };
        let bundle = issue(&mut disk, &reloaded, &cfg, &CertType::EtcdUser("backup")).unwrap();
        serials.push(bundle.serial_number.unwrap());
    }
    assert_eq!(serials, vec![1, 2, 3, 4, 5, 6]);
    assert_eq!(disk.ledger("certs", Authority::Etcd), 6);
    assert_eq!(disk.ledger("certs", Authority::Root), 0);
}

#[test]
fn second_bootstrap_fails_and_changes_nothing() {
    let cfg = config(true);
    let mut disk = Disk::new();
    bootstrap(&mut disk, &cfg).unwrap();
    let before = disk.clone();
    assert_eq!(bootstrap(&mut disk, &cfg).err(), Some(StoreError::AlreadyBootstrapped));
    assert!(disk == before);
    let ca = create_ca(&cfg).unwrap();
    assert_eq!(disk.run(&ca.bootstrap_ops(&cfg.out_dir)), Err(StoreError::AlreadyExists));
    assert!(disk == before);
}

#[test]
fn reissue_without_overwrite_leaves_files_and_ledger() {
    let cfg = config(false);
    let mut disk = Disk::new();
    let ca = bootstrap(&mut disk, &cfg).unwrap();
    let first = issue(&mut disk, &ca, &cfg, &CertType::Admin).unwrap();
    assert_eq!(first.serial_number, Some(1));
    disk.apply(&StoreOp::UpdateFile { path: "certs/CA/root/index".to_string(), contents: b"0".to_vec() }).unwrap();
    let before = disk.clone();
    let again = try_issue(&mut disk, &ca, &cfg, &CertType::Admin).unwrap();
    assert_eq!(again.err(), Some(CertError::FileExists));
    assert!(disk == before);
    assert_eq!(disk.file("certs/CA/root/certs/admin-1.crt"), first.cert);
    assert_eq!(disk.file("certs/CA/root/keys/admin-1.key"), first.key);
    assert_eq!(disk.ledger("certs", Authority::Root), 0);
}

#[test]
fn one_existing_file_is_enough_for_a_conflict() {
    let cfg = config(false);
    let mut disk = Disk::new();
    let ca = bootstrap(&mut disk, &cfg).unwrap();
    disk.apply(&StoreOp::CreateFile { path: "certs/CA/root/certs/admin-1.crt".to_string(), contents: b"old".to_vec() })
        .unwrap();
    let before = disk.clone();
    let bundle = gen_cert(&ca, &cfg, &CertType::Admin, 1).unwrap();
    let plan = write_bundle_to_file(&bundle, 1, "certs/CA/root", "admin", false, true, false);
    assert!(plan.ops.is_empty());
    assert_eq!(plan.conflicts, vec!["certs/CA/root/certs/admin-1.crt".to_string()]);
    disk.run(&plan.ops).unwrap();
    assert!(disk == before);
}

#[test]
fn a_file_at_the_place_of_a_link_stays() {
    let cfg = config(true);
    let mut disk = Disk::new();
    let ca = bootstrap(&mut disk, &cfg).unwrap();
    disk.apply(&StoreOp::CreateFile { path: "certs/master/admin.key".to_string(), contents: b"mine".to_vec() }).unwrap();
    assert_eq!(issue(&mut disk, &ca, &cfg, &CertType::Admin).err(), Some(StoreError::NotASymlink));
    assert_eq!(disk.file("certs/master/admin.key"), b"mine".to_vec());
    assert!(!disk.has("certs/master/admin.crt"));
}

#[test]
fn a_missing_ledger_is_created_on_the_way() {
    let cfg = config(false);
    let mut disk = Disk::new();
    let ca = bootstrap(&mut disk, &cfg).unwrap();
    disk.nodes.remove("certs/CA/front-proxy/index");
    let bundle = issue(&mut disk, &ca, &cfg, &CertType::FrontProxy).unwrap();
    assert_eq!(bundle.serial_number, Some(1));
    assert_eq!(disk.ledger("certs", Authority::FrontProxy), 1);
}

#[test]
fn a_role_named_ca_leaves_the_authority_alone() {
    for overwrite in [false, true] {
        let cfg = config(overwrite);
        let mut disk = Disk::new();
        let ca = bootstrap(&mut disk, &cfg).unwrap();
        let authority_crt = disk.file("certs/CA/etcd/certs/ca.crt");
        let authority_key = disk.file("certs/CA/etcd/keys/ca.key");
        let role = CertType::EtcdUser("ca");
        let first = issue(&mut disk, &ca, &cfg, &role).unwrap();
        let second = issue(&mut disk, &ca, &cfg, &role).unwrap();
        assert_eq!((first.serial_number, second.serial_number), (Some(1), Some(2)));
        assert_eq!(disk.file("certs/CA/etcd/certs/ca.crt"), authority_crt);
        assert_eq!(disk.file("certs/CA/etcd/keys/ca.key"), authority_key);
        assert_eq!(disk.file("certs/CA/etcd/certs/ca-1.crt"), first.cert);
        assert_eq!(disk.file("certs/CA/etcd/certs/ca-2.crt"), second.cert);
        assert_eq!(disk.file("certs/CA/etcd/keys/ca-2.key"), second.key);
        assert_eq!(disk.resolve("certs/etcd-users/ca.crt"), "certs/CA/etcd/certs/ca-2.crt");
        assert_eq!(disk.resolve("certs/etcd-users/ca.key"), "certs/CA/etcd/keys/ca-2.key");
        check_signed(&disk, "certs/CA/etcd/certs/ca-2.crt", &ca.etcd_ca);
    }
}

#[test]
fn a_run_with_a_role_named_ca_leaves_the_authority_alone() {
    let cfg = config(false);
    let mut disk = Disk::new();
    let ca = bootstrap(&mut disk, &cfg).unwrap();
    let before = disk.clone();
    let mut ledgers = Ledgers::fresh();
    let roles = vec![CertType::EtcdUser("ca")];
    let out = issue_roles(&ca, &cfg, &roles, &mut ledgers, &disk.files()).unwrap();
    disk.run(&out.ops).unwrap();
    assert_eq!(disk.file("certs/CA/etcd/certs/ca.crt"), before.file("certs/CA/etcd/certs/ca.crt"));
    assert_eq!(disk.file("certs/CA/etcd/keys/ca.key"), before.file("certs/CA/etcd/keys/ca.key"));
    assert_eq!(disk.file("certs/CA/etcd/certs/ca-1.crt"), out.bundles[0].as_ref().unwrap().cert);
    assert_eq!(disk.resolve("certs/etcd-users/ca.crt"), "certs/CA/etcd/certs/ca-1.crt");
}

#[test]
fn a_run_passes_over_a_role_whose_file_exists() {
    let cfg = config(false);
    let mut disk = Disk::new();
    let ca = bootstrap(&mut disk, &cfg).unwrap();
    disk.apply(&StoreOp::CreateFile { path: "certs/CA/root/keys/kube-scheduler-2.key".to_string(), contents: b"old".to_vec() })
        .unwrap();
    let mut ledgers = Ledgers::fresh();
    let roles = vec![CertType::Admin, CertType::Scheduler, CertType::Proxy];
    let out = issue_roles(&ca, &cfg, &roles, &mut ledgers, &disk.files()).unwrap();
    let serials: Vec<Option<u32>> = out.bundles.iter().map(|b| b.as_ref().and_then(|b| b.serial_number)).collect();
    assert_eq!(serials, vec![Some(1), None, Some(2)]);
    assert_eq!(out.conflicts, vec!["certs/CA/root/keys/kube-scheduler-2.key".to_string()]);
    assert_eq!(ledgers.root.value, 2);
    disk.run(&out.ops).unwrap();
    assert_eq!(disk.file("certs/CA/root/keys/kube-scheduler-2.key"), b"old".to_vec());
    assert!(!disk.has("certs/CA/root/certs/kube-scheduler-2.crt"));
    assert!(!disk.has("certs/master/kube-scheduler.crt"));
    assert_eq!(disk.resolve("certs/master/kube-proxy.crt"), "certs/CA/root/certs/kube-proxy-2.crt");
    assert_eq!(disk.ledger("certs", Authority::Root), 2);

    let mut cfg = cfg;
    cfg.overwrite = true;
    let out = issue_roles(&ca, &cfg, &roles, &mut ledgers, &disk.files()).unwrap();
    let serials: Vec<Option<u32>> = out.bundles.iter().map(|b| b.as_ref().and_then(|b| b.serial_number)).collect();
    assert_eq!(serials, vec![Some(3), Some(4), Some(5)]);
    assert!(out.conflicts.is_empty());
}

#[test]
fn a_run_in_which_every_role_is_passed_over() {
    let cfg = config(false);
    let ca = CA { main_ca: Box::new(Bundle { cert: b"x".to_vec(), key: b"y".to_vec(), serial_number: None, issuer: None }),
                  etcd_ca: Box::new(Bundle { cert: b"x".to_vec(), key: b"y".to_vec(), serial_number: None, issuer: None }),
                  front_ca: Box::new(Bundle { cert: b"x".to_vec(), key: b"y".to_vec(), serial_number: None, issuer: None }) };
    let existing = vec![
        "certs/CA/root/certs/admin-1.crt".to_string(),
        "certs/CA/root/keys/admin-1.key".to_string(),
        "certs/CA/etcd/certs/backup-1.crt".to_string(),
    ];
    let mut ledgers = Ledgers::fresh();
    let roles = vec![CertType::Admin, CertType::EtcdUser("backup"), CertType::Admin];
    let out = issue_roles(&ca, &cfg, &roles, &mut ledgers, &existing).unwrap();
    assert_eq!(out.bundles.len(), 3);
    assert!(out.bundles.iter().all(|b| b.is_none()));
    assert!(out.ops.is_empty());
    assert_eq!(
        out.conflicts,
        vec![
            "certs/CA/root/certs/admin-1.crt".to_string(),
            "certs/CA/root/keys/admin-1.key".to_string(),
            "certs/CA/etcd/certs/backup-1.crt".to_string(),
            "certs/CA/root/certs/admin-1.crt".to_string(),
            "certs/CA/root/keys/admin-1.key".to_string(),
        ]
    );
    assert_eq!(ledgers, Ledgers::fresh());
}

#[test]
fn a_run_ends_at_an_exhausted_ledger_before_it_signs() {
    let cfg = config(false);
    let broken = Box::new(Bundle { cert: b"x".to_vec(), key: b"y".to_vec(), serial_number: None, issuer: None });
    let ca = CA { main_ca: broken.clone(), etcd_ca: broken.clone(), front_ca: broken };
    let existing = vec!["certs/CA/root/certs/admin-1.crt".to_string()];
    let mut ledgers = Ledgers::fresh();
    ledgers.etcd.value = u32::MAX;
    let before = ledgers;
    let roles = vec![CertType::Admin, CertType::EtcdUser("backup"), CertType::Scheduler];
    assert_eq!(issue_roles(&ca, &cfg, &roles, &mut ledgers, &existing).err(), Some(CertError::SerialsExhausted));
    assert_eq!(ledgers, before);
    let mut ledgers = Ledgers::fresh();
    ledgers.root.value = u32::MAX;
    let before = ledgers;
    assert_eq!(kube_certs(&ca, &cfg, &mut ledgers, &Vec::new()).err(), Some(CertError::SerialsExhausted));
    assert_eq!(ledgers, before);
}

#[test]
fn a_drawn_serial_is_written_down_before_signing() {
    let cfg = config(false);
    let mut disk = Disk::new();
    bootstrap(&mut disk, &cfg).unwrap();
    let broken = Box::new(Bundle { cert: b"no certificate".to_vec(), key: b"no key".to_vec(), serial_number: Some(0), issuer: None });
    let ca = CA { main_ca: broken.clone(), etcd_ca: broken.clone(), front_ca: broken };
    let r = try_issue(&mut disk, &ca, &cfg, &CertType::Admin).unwrap();
    assert!(matches!(r, Err(CertError::Crypto(_))));
    assert_eq!(disk.ledger("certs", Authority::Root), 1);
    let r = try_issue(&mut disk, &ca, &cfg, &CertType::Admin).unwrap();
    assert!(matches!(r, Err(CertError::Crypto(_))));
    assert_eq!(disk.ledger("certs", Authority::Root), 2);
    assert!(!disk.has("certs/master/admin.crt"));
}

#[test]
fn a_failed_run_never_moves_a_ledger_back() {
    let cfg = config(false);
    let broken = Box::new(Bundle { cert: b"no certificate".to_vec(), key: b"no key".to_vec(), serial_number: Some(0), issuer: None });
    let ca = CA { main_ca: broken.clone(), etcd_ca: broken.clone(), front_ca: broken };
    let mut ledgers = Ledgers { root: SerialLedger { value: 7 }, etcd: SerialLedger { value: 3 }, front_proxy: SerialLedger { value: 1 } };
    let r = issue_roles(&ca, &cfg, &vec![CertType::Admin], &mut ledgers, &Vec::new());
    assert!(matches!(r, Err(CertError::Crypto(_))));
    assert_eq!((ledgers.root.value, ledgers.etcd.value, ledgers.front_proxy.value), (8, 3, 1));
}

#[test]
fn upcoming_names_the_next_files() {
    let cfg = config(false);
    let place = placement(&CertType::FrontProxy, &cfg);
    assert_eq!(
        upcoming(&SerialLedger { value: 41 }, &place, "certs"),
        Some(Upcoming {
            serial: 42,
            crt: "certs/CA/front-proxy/certs/front-proxy-client-42.crt".to_string(),
            key: "certs/CA/front-proxy/keys/front-proxy-client-42.key".to_string(),
        })
    );
    assert_eq!(upcoming(&SerialLedger { value: u32::MAX }, &place, "certs"), None);
}

#[test]
fn draw_hands_out_the_next_serial_with_its_ledger_update() {
    let mut ledger = SerialLedger { value: 4 };
    for (overwrite, crt_exists, key_exists) in [(false, false, false), (true, true, false), (true, true, true)] {
        let before = ledger.value;
        assert_eq!(
            draw(&mut ledger, "certs/CA/root", overwrite, crt_exists, key_exists),
            Ok(Draw {
                serial: before + 1,
                op: StoreOp::UpdateFile {
                    path: "certs/CA/root/index".to_string(),
                    contents: (before + 1).to_string().into_bytes(),
                },
            })
        );
        assert_eq!(ledger.value, before + 1);
    }
}

#[test]
fn draw_refuses_and_leaves_the_ledger() {
    let mut ledger = SerialLedger { value: 4 };
    for (crt_exists, key_exists) in [(true, false), (false, true), (true, true)] {
        assert_eq!(draw(&mut ledger, "d", false, crt_exists, key_exists), Err(CertError::FileExists));
        assert_eq!(ledger.value, 4);
    }
    let mut full = SerialLedger { value: u32::MAX };
    assert_eq!(draw(&mut full, "d", true, false, false), Err(CertError::SerialsExhausted));
    assert_eq!(draw(&mut full, "d", false, true, true), Err(CertError::SerialsExhausted));
    assert_eq!(full.value, u32::MAX);
}

#[test]
fn ledger_ops_write_the_three_ledgers() {
    let ledgers = Ledgers { root: SerialLedger { value: 8 }, etcd: SerialLedger { value: 2 }, front_proxy: SerialLedger { value: 0 } };
    assert_eq!(
        ledger_ops(&ledgers, "certs"),
        vec![
            StoreOp::UpdateFile { path: "certs/CA/root/index".to_string(), contents: b"8".to_vec() },
            StoreOp::UpdateFile { path: "certs/CA/etcd/index".to_string(), contents: b"2".to_vec() },
            StoreOp::UpdateFile { path: "certs/CA/front-proxy/index".to_string(), contents: b"0".to_vec() },
        ]
    );
}

#[test]
fn kube_certs_issues_the_control_plane() {
    let cfg = config(false);
    let mut disk = Disk::new();
    let ca = bootstrap(&mut disk, &cfg).unwrap();
    let mut ledgers = Ledgers::fresh();
    let out = kube_certs(&ca, &cfg, &mut ledgers, &disk.files()).unwrap();
    let serials: Vec<u32> = out.bundles.iter().map(|b| b.as_ref().unwrap().serial_number.unwrap()).collect();
    assert_eq!(serials, vec![1, 2, 3, 1, 4, 5, 1, 6]);
    assert_eq!((ledgers.root.value, ledgers.etcd.value, ledgers.front_proxy.value), (6, 1, 1));
    disk.run(&out.ops).unwrap();
    let root_files = [
        ("admin", 1),
        ("apiserver", 2),
        ("apiserver-kubelet-client", 3),
        ("kube-controller-manager", 4),
        ("kube-scheduler", 5),
        ("kube-proxy", 6),
    ];
    for (name, serial) in root_files {
        let crt = format!("certs/CA/root/certs/{}-{}.crt", name, serial);
        check_signed(&disk, &crt, &ca.main_ca);
        assert!(disk.has(&format!("certs/CA/root/keys/{}-{}.key", name, serial)));
        let text = String::from_utf8(X509::from_pem(&disk.file(&crt)).unwrap().to_text().unwrap()).unwrap();
        assert!(!text.contains("CA:TRUE"));
        let same_name =
            disk.files().iter().filter(|p| p.starts_with(&format!("certs/CA/root/certs/{}-", name))).count();
        assert_eq!(same_name, if name == "apiserver" { 2 } else { 1 });
    }
    check_signed(&disk, "certs/CA/front-proxy/certs/front-proxy-client-1.crt", &ca.front_ca);
    check_signed(&disk, "certs/CA/etcd/certs/apiserver-etcd-client-1.crt", &ca.etcd_ca);
    for path in disk.files() {
        if path.contains("front-proxy-client") {
            assert!(path.starts_with("certs/CA/front-proxy/"), "{}", path);
        }
        if path.contains("apiserver-etcd-client") {
            assert!(path.starts_with("certs/CA/etcd/"), "{}", path);
        }
    }
    assert!(disk.has("certs/sa.pub"));
    assert!(disk.has("certs/sa.key"));
    assert!(disk.file("certs/sa.pub").starts_with(b"-----BEGIN PUBLIC KEY-----"));
    assert_eq!(disk.resolve("certs/master/sa.key"), "certs/sa.key");
    assert_eq!(disk.resolve("certs/master/kube-proxy.crt"), "certs/CA/root/certs/kube-proxy-6.crt");
    assert_eq!(disk.ledger("certs", Authority::Root), 6);
    assert_eq!(disk.ledger("certs", Authority::Etcd), 1);
    assert_eq!(disk.ledger("certs", Authority::FrontProxy), 1);
}
