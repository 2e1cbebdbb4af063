//! The certificates of a Kubernetes cluster: which request each role gets,
//! which authority signs it, and where the result is filed.

use vstd::prelude::*;
use vstd::string::*;
use crate::cert::{
    spec_ca, spec_client, spec_client_and_server, spec_issued, spec_server, Bundle, BundleView,
    CertificateParameters, ParametersView, SubjectView,
};
use crate::config_parser::{
    find_instance, instances, lemma_find_instance, spec_find_instance, Config, ConfigView, Instance,
    InstanceView, User, UserView,
};
use crate::signer::{
    error_stack_message, pkey_from_rsa, pkey_public_key_to_pem, rsa_generate,
    rsa_private_key_to_pem, spec_public_key_header, spec_rsa_private_key_header,
};
use crate::error::CertError;
use crate::hierarchy::CA;
use crate::issuance::{
    issue_roles, outcome_views, spec_run_conflicts, spec_run_issued, spec_run_ops, spec_run_owed,
    Issuance, Ledgers,
};
use crate::store::{
    create_symlink, ops_view, spec_authority_dir, spec_authority_link_dir, spec_commit_ops,
    spec_commits, spec_existing, spec_stored_name, spec_symlinks, stored_name,
    write_bundle_to_file, Authority, OpView, StoreOp, WritePlan,
};
use crate::text::{begins_with, clone_list, clone_opt, concat2, concat3, same_text, texts};

verus! {

/// The certificates that can be issued.
#[derive(Clone, Copy, Debug, PartialEq, Eq)]
pub enum CertType<'a> {
    /// The cluster administrator.
    Admin,
    /// The API server.
    ApiServer,
    /// The API server as a client of the kubelets.
    ApiServerClient,
    /// The API server as a client of etcd.
    ApiServerEtcdClient,
    ControllerManager,
    /// The client of the front proxy.
    FrontProxy,
    Scheduler,
    /// The network proxy that runs on every worker.
    Proxy,
    /// An etcd host, as server and as peer.
    EtcdServer(&'a Instance),
    /// A user of etcd, by name.
    EtcdUser(&'a str),
    /// The kubelet of a worker, as a client of the API server.
    Kubelet(&'a Instance),
    /// The kubelet of a worker, as a server.
    KubeletServer(&'a Instance),
    /// A user of the cluster.
    User(&'a User),
}

/// A `CertType` as mathematical data.
pub ghost enum CertTypeView {
    Admin,
    ApiServer,
    ApiServerClient,
    ApiServerEtcdClient,
    ControllerManager,
    FrontProxy,
    Scheduler,
    Proxy,
    EtcdServer(InstanceView),
    EtcdUser(Seq<char>),
    Kubelet(InstanceView),
    KubeletServer(InstanceView),
    User(UserView),
}

impl<'a> View for CertType<'a> {
    type V = CertTypeView;

    open spec fn view(&self) -> CertTypeView {
        match self {
            CertType::Admin => CertTypeView::Admin,
            CertType::ApiServer => CertTypeView::ApiServer,
            CertType::ApiServerClient => CertTypeView::ApiServerClient,
            CertType::ApiServerEtcdClient => CertTypeView::ApiServerEtcdClient,
            CertType::ControllerManager => CertTypeView::ControllerManager,
            CertType::FrontProxy => CertTypeView::FrontProxy,
            CertType::Scheduler => CertTypeView::Scheduler,
            CertType::Proxy => CertTypeView::Proxy,
            CertType::EtcdServer(i) => CertTypeView::EtcdServer(i@),
            CertType::EtcdUser(name) => CertTypeView::EtcdUser(name@),
            CertType::Kubelet(i) => CertTypeView::Kubelet(i@),
            CertType::KubeletServer(i) => CertTypeView::KubeletServer(i@),
            CertType::User(u) => CertTypeView::User(u@),
        }
    }
}

/// The names under which the API server is reached from inside any cluster.
pub open spec fn spec_builtin_san() -> Seq<Seq<char>> {
    seq![
        "kubernetes"@,
        "kubernetes.default"@,
        "kubernetes.default.svc"@,
        "kubernetes.default.svc.cluster.local"@,
        "10.96.0.1"@,
    ]
}

/// The request `p` with the organization `organization`.
pub open spec fn spec_in_organization(p: ParametersView, organization: Option<Seq<char>>) -> ParametersView {
    ParametersView {
        subject: SubjectView { organization, ..p.subject },
        ..p
    }
}

/// The request `p` with the alternative names `san`.
pub open spec fn spec_with_san(p: ParametersView, san: Seq<Seq<char>>) -> ParametersView {
    ParametersView { san: Some(san), ..p }
}

/// The request `p` under the serial number `serial`.
pub open spec fn spec_with_serial(p: ParametersView, serial: u32) -> ParametersView {
    ParametersView { serial_number: serial, ..p }
}

/// The request `p`, to be signed by `ca`.
pub open spec fn spec_signed_by(p: ParametersView, ca: Option<BundleView>) -> ParametersView {
    ParametersView { ca, ..p }
}

/// The request that a role gets, before a serial number and a signer are set.
pub open spec fn spec_profile(t: CertTypeView, config: ConfigView) -> ParametersView {
    let bits = config.key_size;
    let days = config.validity_days;
    let masters = Some("system:masters"@);
    match t {
        CertTypeView::Admin => spec_in_organization(spec_client("admin"@, bits, days), masters),
        CertTypeView::ApiServer => spec_with_san(
            spec_server("kubernetes"@, bits, days),
            spec_builtin_san() + config.master_san,
        ),
        CertTypeView::ApiServerClient => spec_in_organization(
            spec_client("kube-apiserver-kubelet-client"@, bits, days),
            masters,
        ),
        CertTypeView::ApiServerEtcdClient => spec_in_organization(
            spec_client("root"@, bits, days),
            masters,
        ),
        CertTypeView::ControllerManager => spec_in_organization(
            spec_client("system:kube-controller-manager"@, bits, days),
            masters,
        ),
        CertTypeView::FrontProxy => spec_client("front-proxy-client"@, bits, days),
        CertTypeView::Scheduler => spec_in_organization(
            spec_client("system:kube-scheduler"@, bits, days),
            masters,
        ),
        CertTypeView::Proxy => spec_in_organization(
            spec_client("system:kube-proxy"@, bits, days),
            Some("system:node-proxier"@),
        ),
        CertTypeView::EtcdServer(host) => spec_with_san(
            spec_client_and_server(host.hostname, bits, days),
            host.san,
        ),
        CertTypeView::EtcdUser(name) => spec_client(name, bits, days),
        CertTypeView::Kubelet(host) => spec_in_organization(
            spec_client("system:node:"@ + host.hostname, bits, days),
            Some("system:nodes"@),
        ),
        CertTypeView::KubeletServer(host) => spec_with_san(
            spec_server(host.hostname, bits, days),
            host.san,
        ),
        CertTypeView::User(user) => spec_in_organization(
            spec_client(user.username, bits, days),
            user.group,
        ),
    }
}

/// The request that a role gets under the serial number `serial`, with no
/// signer set.
pub open spec fn spec_parameters(t: CertTypeView, config: ConfigView, serial: u32) -> ParametersView {
    spec_with_serial(spec_profile(t, config), serial)
}

/// The authority that signs the certificate of a role.
pub open spec fn spec_authority(t: CertTypeView) -> Authority {
    match t {
        CertTypeView::ApiServerEtcdClient => Authority::Etcd,
        CertTypeView::EtcdServer(_) => Authority::Etcd,
        CertTypeView::EtcdUser(_) => Authority::Etcd,
        CertTypeView::FrontProxy => Authority::FrontProxy,
        _ => Authority::Root,
    }
}

/// The stable name under which the bundle of a role is filed with its authority.
pub open spec fn spec_filename(t: CertTypeView) -> Seq<char> {
    match t {
        CertTypeView::Admin => "admin"@,
        CertTypeView::ApiServer => "apiserver"@,
        CertTypeView::ApiServerClient => "apiserver-kubelet-client"@,
        CertTypeView::ApiServerEtcdClient => "apiserver-etcd-client"@,
        CertTypeView::ControllerManager => "kube-controller-manager"@,
        CertTypeView::FrontProxy => "front-proxy-client"@,
        CertTypeView::Scheduler => "kube-scheduler"@,
        CertTypeView::Proxy => "kube-proxy"@,
        CertTypeView::EtcdServer(host) => host.dir_name(),
        CertTypeView::EtcdUser(name) => name,
        CertTypeView::Kubelet(host) => host.dir_name() + "-kubeconfig"@,
        CertTypeView::KubeletServer(host) => host.dir_name(),
        CertTypeView::User(user) => user.username,
    }
}

/// The place of each worker's link to the proxy's bundle.
pub open spec fn spec_proxy_dests(out_dir: Seq<char>, workers: Seq<InstanceView>) -> Seq<Seq<char>> {
    Seq::new(workers.len(), |i: int| out_dir + "/"@ + workers[i].dir_name() + "/kube-proxy"@)
}

/// The places, without `.crt` or `.key`, of the links under which the bundle
/// of a role is reached: under `master` for the control plane, in the host's
/// directory for a host, under `users` or `etcd-users` for a user. The
/// proxy's bundle is linked in the directory of every worker as well.
pub open spec fn spec_dests(t: CertTypeView, config: ConfigView) -> Seq<Seq<char>> {
    let out = config.out_dir;
    match t {
        CertTypeView::EtcdServer(host) => seq![out + "/"@ + host.dir_name() + "/etcd"@],
        CertTypeView::EtcdUser(name) => seq![out + "/etcd-users/"@ + name],
        CertTypeView::Kubelet(host) => seq![out + "/"@ + host.dir_name() + "/node-kubeconfig"@],
        CertTypeView::KubeletServer(host) => seq![out + "/"@ + host.dir_name() + "/node"@],
        CertTypeView::User(user) => seq![out + "/users/"@ + user.username],
        CertTypeView::Proxy => seq![out + "/master/"@ + spec_filename(t)] + spec_proxy_dests(
            out,
            config.worker,
        ),
        _ => seq![out + "/master/"@ + spec_filename(t)],
    }
}

/// The links to the files of `cert_name` under `authority`, a pair for each
/// of the places `dests`.
pub open spec fn spec_links(authority: Authority, cert_name: Seq<char>, dests: Seq<Seq<char>>) -> Seq<
    OpView,
>
    decreases dests.len(),
{
    if dests.len() == 0 {
        Seq::empty()
    } else {
        spec_links(authority, cert_name, dests.drop_last()) + spec_symlinks(
            spec_authority_link_dir(authority),
            cert_name,
            dests.last(),
        )
    }
}

/// Where the bundle of a role is filed and linked.
#[derive(Clone, Debug, PartialEq, Eq)]
pub struct Placement {
    /// The authority that signs the certificate and keeps its files.
    pub authority: Authority,
    /// The stable name of the bundle with its authority.
    pub filename: String,
    /// The places of the links to the bundle, without `.crt` or `.key`.
    pub dests: Vec<String>,
}

/// The characters of an optional string, borrowed.
pub fn opt_str(opt_string: &Option<String>) -> (r: Option<&str>)
    ensures
        r is Some <==> opt_string is Some,
        r matches Some(s) ==> s@ == opt_string->0@,
{
    match opt_string {
        Some(s) => Some(s.as_str()),
        None => None,
    }
}

fn client_in(cn: &str, config: &Config, organization: Option<&str>) -> (p: CertificateParameters<
    'static,
>)
    ensures
        p@ == spec_in_organization(
            spec_client(cn@, config.key_size, config.validity_days),
            match organization {
                Some(o) => Some(o@),
                None => None,
            },
        ),
{
    let mut p = CertificateParameters::client(cn, config.key_size, config.validity_days);
    p.subject.organization = match organization {
        Some(o) => Some(String::from_str(o)),
        None => None,
    };
    p
}

fn builtin_san() -> (names: Vec<String>)
    ensures
        texts(names@) == spec_builtin_san(),
{
    let mut names: Vec<String> = Vec::new();
    names.push(String::from_str("kubernetes"));
    names.push(String::from_str("kubernetes.default"));
    names.push(String::from_str("kubernetes.default.svc"));
    names.push(String::from_str("kubernetes.default.svc.cluster.local"));
    names.push(String::from_str("10.96.0.1"));
    assert(texts(names@) =~= spec_builtin_san());
    names
}

/// The request that the role `cert_type` gets in the cluster `config`, before
/// a serial number and a signer are set.
pub fn profile(cert_type: &CertType, config: &Config) -> (p: CertificateParameters<'static>)
    ensures
        p@ == spec_profile(cert_type@, config@),
{
    let bits = config.key_size;
    let days = config.validity_days;
    match cert_type {
        CertType::Admin => client_in("admin", config, Some("system:masters")),
        CertType::ApiServer => {
            let mut san = builtin_san();
            let mut more = clone_list(&config.master_san);
            let ghost first = texts(san@);
            let ghost second = texts(more@);
            san.append(&mut more);
            assert(texts(san@) =~= first + second);
            let mut p = CertificateParameters::server("kubernetes", bits, days);
            p.san = Some(san);
            p
        },
        CertType::ApiServerClient => client_in(
            "kube-apiserver-kubelet-client",
            config,
            Some("system:masters"),
        ),
        CertType::ApiServerEtcdClient => client_in("root", config, Some("system:masters")),
        CertType::ControllerManager => client_in(
            "system:kube-controller-manager",
            config,
            Some("system:masters"),
        ),
        CertType::FrontProxy => CertificateParameters::client("front-proxy-client", bits, days),
        CertType::Scheduler => client_in("system:kube-scheduler", config, Some("system:masters")),
        CertType::Proxy => client_in("system:kube-proxy", config, Some("system:node-proxier")),
        CertType::EtcdServer(host) => {
            let mut p = CertificateParameters::client_and_server(
                host.hostname.as_str(),
                bits,
                days,
            );
            p.san = Some(clone_list(&host.san));
            p
        },
        CertType::EtcdUser(name) => CertificateParameters::client(name, bits, days),
        CertType::Kubelet(host) => {
            let cn = concat2("system:node:", host.hostname.as_str());
            client_in(cn.as_str(), config, Some("system:nodes"))
        },
        CertType::KubeletServer(host) => {
            let mut p = CertificateParameters::server(host.hostname.as_str(), bits, days);
            p.san = Some(clone_list(&host.san));
            p
        },
        CertType::User(user) => client_in(user.username.as_str(), config, opt_str(&user.group)),
    }
}

/// The request that the role `cert_type` gets under the serial number
/// `serial`, with no signer set.
pub fn parameters(cert_type: &CertType, config: &Config, serial: u32) -> (p: CertificateParameters<
    'static,
>)
    ensures
        p@ == spec_parameters(cert_type@, config@, serial),
{
    let mut p = profile(cert_type, config);
    p.serial_number = serial;
    p
}

/// The authority that signs the certificate of the role `cert_type`.
pub fn authority(cert_type: &CertType) -> (a: Authority)
    ensures
        a == spec_authority(cert_type@),
{
    match cert_type {
        CertType::ApiServerEtcdClient => Authority::Etcd,
        CertType::EtcdServer(_) => Authority::Etcd,
        CertType::EtcdUser(_) => Authority::Etcd,
        CertType::FrontProxy => Authority::FrontProxy,
        _ => Authority::Root,
    }
}

/// The stable name under which the bundle of the role `cert_type` is filed.
pub fn filename(cert_type: &CertType) -> (name: String)
    ensures
        name@ == spec_filename(cert_type@),
{
    match cert_type {
        CertType::Admin => String::from_str("admin"),
        CertType::ApiServer => String::from_str("apiserver"),
        CertType::ApiServerClient => String::from_str("apiserver-kubelet-client"),
        CertType::ApiServerEtcdClient => String::from_str("apiserver-etcd-client"),
        CertType::ControllerManager => String::from_str("kube-controller-manager"),
        CertType::FrontProxy => String::from_str("front-proxy-client"),
        CertType::Scheduler => String::from_str("kube-scheduler"),
        CertType::Proxy => String::from_str("kube-proxy"),
        CertType::EtcdServer(host) => host.dir_name(),
        CertType::EtcdUser(name) => String::from_str(name),
        CertType::Kubelet(host) => {
            let dir = host.dir_name();
            concat2(dir.as_str(), "-kubeconfig")
        },
        CertType::KubeletServer(host) => host.dir_name(),
        CertType::User(user) => user.username.clone(),
    }
}

fn host_dest(out_dir: &str, host: &Instance, leaf: &str) -> (dest: String)
    ensures
        dest@ == out_dir@ + "/"@ + host@.dir_name() + leaf@,
{
    let dir = host.dir_name();
    let mut dest = concat3(out_dir, "/", dir.as_str());
    dest.append(leaf);
    dest
}

fn one(dest: String) -> (dests: Vec<String>)
    ensures
        texts(dests@) == seq![dest@],
{
    let mut dests: Vec<String> = Vec::new();
    dests.push(dest);
    assert(texts(dests@) =~= seq![dest@]);
    dests
}

/// The places of the links under which the bundle of the role `cert_type`
/// is reached.
pub fn dests(cert_type: &CertType, config: &Config) -> (dests: Vec<String>)
    ensures
        texts(dests@) == spec_dests(cert_type@, config@),
{
    let out = config.out_dir.as_str();
    match cert_type {
        CertType::EtcdServer(host) => one(host_dest(out, host, "/etcd")),
        CertType::EtcdUser(name) => one(concat3(out, "/etcd-users/", name)),
        CertType::Kubelet(host) => one(host_dest(out, host, "/node-kubeconfig")),
        CertType::KubeletServer(host) => one(host_dest(out, host, "/node")),
        CertType::User(user) => one(concat3(out, "/users/", user.username.as_str())),
        CertType::Proxy => {
            let name = filename(cert_type);
            let mut dests = one(concat3(out, "/master/", name.as_str()));
            let ghost first = texts(dests@);
            let ghost all = spec_proxy_dests(config@.out_dir, config@.worker);
            let mut i: usize = 0;
            assert(texts(dests@) =~= first + all.take(0));
            while i < config.worker.len()
                invariant
                    i <= config.worker.len(),
                    out@ == config@.out_dir,
                    all == spec_proxy_dests(config@.out_dir, config@.worker),
                    texts(dests@) == first + all.take(i as int),
                decreases config.worker.len() - i,
            {
                let ghost so_far = texts(dests@);
                dests.push(host_dest(out, &config.worker[i], "/kube-proxy"));
                assert(texts(dests@) =~= so_far.push(all[i as int]));
                assert(first + all.take(i + 1) =~= (first + all.take(i as int)).push(
                    all[i as int],
                ));
                i = i + 1;
            }
            assert(all.take(i as int) =~= all);
            dests
        },
        _ => {
            let name = filename(cert_type);
            one(concat3(out, "/master/", name.as_str()))
        },
    }
}

/// Where the bundle of the role `cert_type` is filed and linked.
pub fn placement(cert_type: &CertType, config: &Config) -> (place: Placement)
    ensures
        place.authority == spec_authority(cert_type@),
        place.filename@ == spec_filename(cert_type@),
        texts(place.dests@) == spec_dests(cert_type@, config@),
{
    Placement {
        authority: authority(cert_type),
        filename: filename(cert_type),
        dests: dests(cert_type, config),
    }
}

/// The links that make the bundle filed at `place` under the serial number
/// `serial` reachable under its stable names.
pub fn links(place: &Placement, serial: u32) -> (ops: Vec<StoreOp>)
    ensures
        ops_view(ops@) == spec_links(
            place.authority,
            spec_stored_name(place.filename@, serial),
            texts(place.dests@),
        ),
{
    let dir = place.authority.link_dir();
    let name = stored_name(place.filename.as_str(), serial);
    let ghost all = texts(place.dests@);
    let mut ops: Vec<StoreOp> = Vec::new();
    let mut i: usize = 0;
    assert(all.take(0) =~= Seq::<Seq<char>>::empty());
    assert(ops_view(ops@) =~= Seq::<OpView>::empty());
    while i < place.dests.len()
        invariant
            i <= place.dests.len(),
            all == texts(place.dests@),
            dir@ == spec_authority_link_dir(place.authority),
            name@ == spec_stored_name(place.filename@, serial),
            ops_view(ops@) == spec_links(place.authority, name@, all.take(i as int)),
        decreases place.dests.len() - i,
    {
        let ghost so_far = ops_view(ops@);
        let mut pair = create_symlink(dir.as_str(), name.as_str(), place.dests[i].as_str());
        let ghost added = ops_view(pair@);
        ops.append(&mut pair);
        proof {
            assert(ops_view(ops@) =~= so_far + added);
            let next = all.take(i + 1);
            assert(next.drop_last() =~= all.take(i as int));
            assert(next.last() == all[i as int]);
        }
        i = i + 1;
    }
    assert(all.take(i as int) =~= all);
    ops
}

/// What files and links a bundle, issued under `serial`, at its place in
/// the store at `out_dir`: the two files and the ledger of its authority,
/// then the links at its stable names.
pub open spec fn spec_filing_ops(
    authority: Authority,
    filename: Seq<char>,
    dests: Seq<Seq<char>>,
    out_dir: Seq<char>,
    bundle: BundleView,
    serial: u32,
) -> Seq<OpView> {
    spec_commit_ops(
        bundle.cert,
        bundle.key,
        serial,
        spec_authority_dir(out_dir, authority),
        filename,
    ) + spec_links(authority, spec_stored_name(filename, serial), dests)
}

/// Decides what is to be written for `bundle`, issued under `serial`, at
/// its place `place` in the store at `out_dir`, given whether its two files
/// exist.
///
/// The files, the ledger and the links go together. Where overwriting is
/// not asked for and one of the two files exists, nothing is written and no
/// link is placed, and the files that exist are reported.
pub fn file_and_link(
    bundle: &Bundle,
    serial: u32,
    place: &Placement,
    out_dir: &str,
    overwrite: bool,
    crt_exists: bool,
    key_exists: bool,
) -> (plan: WritePlan)
    ensures
        ops_view(plan.ops@) == if spec_commits(overwrite, crt_exists, key_exists) {
            spec_filing_ops(
                place.authority,
                place.filename@,
                texts(place.dests@),
                out_dir@,
                bundle@,
                serial,
            )
        } else {
            Seq::<OpView>::empty()
        },
        texts(plan.conflicts@) == if overwrite {
            Seq::<Seq<char>>::empty()
        } else {
            spec_existing(
                spec_authority_dir(out_dir@, place.authority),
                spec_stored_name(place.filename@, serial),
                crt_exists,
                key_exists,
            )
        },
        texts(plan.overwritten@) == if overwrite {
            spec_existing(
                spec_authority_dir(out_dir@, place.authority),
                spec_stored_name(place.filename@, serial),
                crt_exists,
                key_exists,
            )
        } else {
            Seq::<Seq<char>>::empty()
        },
{
    let dir = place.authority.dir(out_dir);
    let mut plan = write_bundle_to_file(
        bundle,
        serial,
        dir.as_str(),
        place.filename.as_str(),
        overwrite,
        crt_exists,
        key_exists,
    );
    if overwrite || !(crt_exists || key_exists) {
        let ghost filed = ops_view(plan.ops@);
        let mut more = links(place, serial);
        let ghost linked = ops_view(more@);
        plan.ops.append(&mut more);
        assert(ops_view(plan.ops@) =~= filed + linked);
    }
    plan
}

/// The line that tells the operator which certificate is being issued.
pub open spec fn spec_announcement(t: CertTypeView) -> Seq<char> {
    match t {
        CertTypeView::Admin => "Creating cert for Kubernetes admin"@,
        CertTypeView::ApiServer => "Creating cert for Kubernetes API server"@,
        CertTypeView::ApiServerClient => "Creating cert for Kubernetes API server kubelet client"@,
        CertTypeView::ApiServerEtcdClient => "Creating cert for Kubernetes ETCD client"@,
        CertTypeView::ControllerManager => "Creating cert for Kubernetes controller-manager"@,
        CertTypeView::FrontProxy => "Creating cert: front-proxy-client"@,
        CertTypeView::Scheduler => "Creating cert for Kubernetes scheduler"@,
        CertTypeView::Proxy => "Creating cert for Kubernetes proxy"@,
        CertTypeView::EtcdServer(host) => "Creating cert for etcd node: "@ + host.hostname,
        CertTypeView::EtcdUser(name) => "Creating cert for etcd user: "@ + name,
        CertTypeView::Kubelet(host) => "Creating cert for node: "@ + host.hostname,
        CertTypeView::KubeletServer(host) => "Creating server cert for node: "@ + host.hostname,
        CertTypeView::User(user) => "Creating cert for kubernetes user: "@ + user.username,
    }
}

/// The line that tells the operator that the certificate of `cert_type` is
/// being issued.
pub fn announcement(cert_type: &CertType) -> (line: String)
    ensures
        line@ == spec_announcement(cert_type@),
{
    match cert_type {
        CertType::Admin => String::from_str("Creating cert for Kubernetes admin"),
        CertType::ApiServer => String::from_str("Creating cert for Kubernetes API server"),
        CertType::ApiServerClient => String::from_str(
            "Creating cert for Kubernetes API server kubelet client",
        ),
        CertType::ApiServerEtcdClient => String::from_str(
            "Creating cert for Kubernetes ETCD client",
        ),
        CertType::ControllerManager => String::from_str(
            "Creating cert for Kubernetes controller-manager",
        ),
        CertType::FrontProxy => String::from_str("Creating cert: front-proxy-client"),
        CertType::Scheduler => String::from_str("Creating cert for Kubernetes scheduler"),
        CertType::Proxy => String::from_str("Creating cert for Kubernetes proxy"),
        CertType::EtcdServer(host) => concat2(
            "Creating cert for etcd node: ",
            host.hostname.as_str(),
        ),
        CertType::EtcdUser(name) => concat2("Creating cert for etcd user: ", name),
        CertType::Kubelet(host) => concat2("Creating cert for node: ", host.hostname.as_str()),
        CertType::KubeletServer(host) => concat2(
            "Creating server cert for node: ",
            host.hostname.as_str(),
        ),
        CertType::User(user) => concat2(
            "Creating cert for kubernetes user: ",
            user.username.as_str(),
        ),
    }
}

/// No role of the cluster is a certificate authority: the request of every
/// role is a leaf request, without basic constraints.
pub proof fn lemma_roles_are_leaves(t: CertTypeView, config: ConfigView, serial: u32)
    ensures
        !crate::cert::spec_is_authority(spec_parameters(t, config, serial).basic_constraints),
{
}

/// The view of the signer of a request.
pub open spec fn spec_signer(ca: Option<&Box<Bundle>>) -> Option<BundleView> {
    match ca {
        Some(b) => Some(b@),
        None => None,
    }
}

/// The request for the root authority's own certificate: the cluster's name
/// as common name, the other subject entries, key length and validity as
/// configured for the authorities.
pub open spec fn spec_root_parameters(config: ConfigView) -> ParametersView {
    let p = spec_ca(config.cluster_name, config.ca.key_size, config.ca.validity_days);
    ParametersView {
        subject: SubjectView {
            common_name: config.cluster_name,
            country: config.ca.country,
            organization: config.ca.organization,
            organization_unit: config.ca.organization_unit,
            state_or_province_name: config.ca.state_or_province_name,
            locality: config.ca.locality,
        },
        ..p
    }
}

/// Issues the certificate of the role `cert_type` under the serial number
/// `serial_number`, signed by `ca`.
pub fn issue(
    cert_type: &CertType,
    ca: Option<&Box<Bundle>>,
    config: &Config,
    serial_number: u32,
) -> (r: Result<Box<Bundle>, CertError>)
    ensures
        spec_issued(
            spec_signed_by(spec_parameters(cert_type@, config@, serial_number), spec_signer(ca)),
            r,
        ),
{
    let mut p = parameters(cert_type, config, serial_number);
    p.ca = ca;
    p.gen_cert()
}

/// The request for the certificate of an authority.
///
/// The root signs itself, under the cluster's name and the subject entries
/// configured for the authorities. The etcd authority, `etcd`, and the front
/// proxy authority, `front-proxy-ca`, are signed by `root`, the bundle of
/// the root. All three have the key length and the validity configured for
/// the authorities.
pub open spec fn spec_authority_request(
    authority: Authority,
    config: ConfigView,
    root: Option<BundleView>,
) -> ParametersView {
    match authority {
        Authority::Root => spec_root_parameters(config),
        Authority::Etcd => spec_signed_by(
            spec_ca("etcd"@, config.ca.key_size, config.ca.validity_days),
            root,
        ),
        Authority::FrontProxy => spec_signed_by(
            spec_ca("front-proxy-ca"@, config.ca.key_size, config.ca.validity_days),
            root,
        ),
    }
}

/// Makes the request for the certificate of `authority`, signer included.
/// `root` is the bundle of the root authority; the root's own request takes
/// no account of it.
pub fn authority_request<'a>(
    authority: Authority,
    config: &Config,
    root: Option<&'a Box<Bundle>>,
) -> (p: CertificateParameters<'a>)
    ensures
        p@ == spec_authority_request(authority, config@, spec_signer(root)),
{
    let bits = config.ca.key_size;
    let days = config.ca.validity_days;
    match authority {
        Authority::Root => {
            let mut p = CertificateParameters::ca(config.cluster_name.as_str(), bits, days);
            p.subject.country = clone_opt(&config.ca.country);
            p.subject.organization = clone_opt(&config.ca.organization);
            p.subject.organization_unit = clone_opt(&config.ca.organization_unit);
            p.subject.state_or_province_name = clone_opt(&config.ca.state_or_province_name);
            p.subject.locality = clone_opt(&config.ca.locality);
            p
        },
        Authority::Etcd => {
            let mut p = CertificateParameters::ca("etcd", bits, days);
            p.ca = root;
            p
        },
        Authority::FrontProxy => {
            let mut p = CertificateParameters::ca("front-proxy-ca", bits, days);
            p.ca = root;
            p
        },
    }
}

/// Issues the certificate of `authority`, as `authority_request` asks for it.
pub fn gen_authority_cert(authority: Authority, config: &Config, root: Option<&Box<Bundle>>) -> (r:
    Result<Box<Bundle>, CertError>)
    ensures
        spec_issued(spec_authority_request(authority, config@, spec_signer(root)), r),
{
    let p = authority_request(authority, config, root);
    p.gen_cert()
}

/// Issues the self-signed certificate of the root authority.
pub fn gen_main_ca_cert(config: &Config) -> (r: Result<Box<Bundle>, CertError>)
    ensures
        spec_issued(spec_authority_request(Authority::Root, config@, None), r),
{
    gen_authority_cert(Authority::Root, config, None)
}

/// Issues the certificate of an authority with the common name `cn`, signed
/// by `main_ca`.
pub fn gen_ca_cert(cn: &str, main_ca: Option<&Box<Bundle>>, config: &Config) -> (r: Result<
    Box<Bundle>,
    CertError,
>)
    ensures
        spec_issued(
            spec_signed_by(
                spec_ca(cn@, config.ca.key_size, config.ca.validity_days),
                spec_signer(main_ca),
            ),
            r,
        ),
{
    let mut p = CertificateParameters::ca(cn, config.ca.key_size, config.ca.validity_days);
    p.ca = main_ca;
    p.gen_cert()
}

/// Issues the kubelet's client certificate for `worker`.
pub fn gen_kubelet_cert(
    worker: &Instance,
    ca: Option<&Box<Bundle>>,
    config: &Config,
    serial_number: u32,
) -> (r: Result<Box<Bundle>, CertError>)
    ensures
        spec_issued(
            spec_signed_by(
                spec_parameters(CertTypeView::Kubelet(worker@), config@, serial_number),
                spec_signer(ca),
            ),
            r,
        ),
{
    issue(&CertType::Kubelet(worker), ca, config, serial_number)
}

/// Issues the kubelet's server certificate for `worker`.
pub fn gen_kubelet_server_cert(
    worker: &Instance,
    ca: Option<&Box<Bundle>>,
    config: &Config,
    serial_number: u32,
) -> (r: Result<Box<Bundle>, CertError>)
    ensures
        spec_issued(
            spec_signed_by(
                spec_parameters(CertTypeView::KubeletServer(worker@), config@, serial_number),
                spec_signer(ca),
            ),
            r,
        ),
{
    issue(&CertType::KubeletServer(worker), ca, config, serial_number)
}

/// Issues the certificate of the etcd host `worker`.
pub fn gen_etcd_cert(
    worker: &Instance,
    ca: Option<&Box<Bundle>>,
    config: &Config,
    serial_number: u32,
) -> (r: Result<Box<Bundle>, CertError>)
    ensures
        spec_issued(
            spec_signed_by(
                spec_parameters(CertTypeView::EtcdServer(worker@), config@, serial_number),
                spec_signer(ca),
            ),
            r,
        ),
{
    issue(&CertType::EtcdServer(worker), ca, config, serial_number)
}

/// Issues the certificate of the etcd user `username`.
pub fn gen_etcd_user(
    username: &str,
    ca: Option<&Box<Bundle>>,
    config: &Config,
    serial_number: u32,
) -> (r: Result<Box<Bundle>, CertError>)
    ensures
        spec_issued(
            spec_signed_by(
                spec_parameters(CertTypeView::EtcdUser(username@), config@, serial_number),
                spec_signer(ca),
            ),
            r,
        ),
{
    issue(&CertType::EtcdUser(username), ca, config, serial_number)
}

/// Issues the administrator's certificate.
pub fn admin_cert(ca: &Box<Bundle>, config: &Config, serial_number: u32) -> (r: Result<
    Box<Bundle>,
    CertError,
>)
    ensures
        spec_issued(
            spec_signed_by(
                spec_parameters(CertTypeView::Admin, config@, serial_number),
                Some(ca@),
            ),
            r,
        ),
{
    issue(&CertType::Admin, Some(ca), config, serial_number)
}

/// Issues the certificate of the cluster user `user`.
pub fn user_cert(ca: &Box<Bundle>, config: &Config, user: &User, serial_number: u32) -> (r: Result<
    Box<Bundle>,
    CertError,
>)
    ensures
        spec_issued(
            spec_signed_by(
                spec_parameters(CertTypeView::User(user@), config@, serial_number),
                Some(ca@),
            ),
            r,
        ),
{
    issue(&CertType::User(user), Some(ca), config, serial_number)
}

/// Issues the API server's certificate.
pub fn apiserver_cert(ca: &Box<Bundle>, config: &Config, serial_number: u32) -> (r: Result<
    Box<Bundle>,
    CertError,
>)
    ensures
        spec_issued(
            spec_signed_by(
                spec_parameters(CertTypeView::ApiServer, config@, serial_number),
                Some(ca@),
            ),
            r,
        ),
{
    issue(&CertType::ApiServer, Some(ca), config, serial_number)
}

/// Issues the certificate of the API server as a client of the kubelets.
pub fn apiserver_client_cert(ca: &Box<Bundle>, config: &Config, serial_number: u32) -> (r: Result<
    Box<Bundle>,
    CertError,
>)
    ensures
        spec_issued(
            spec_signed_by(
                spec_parameters(CertTypeView::ApiServerClient, config@, serial_number),
                Some(ca@),
            ),
            r,
        ),
{
    issue(&CertType::ApiServerClient, Some(ca), config, serial_number)
}

/// Issues the certificate of the API server as a client of etcd. Its common
/// name is `root`: under another name the API server could not compact the
/// etcd storage once etcd checks who it is.
pub fn apiserver_etcd_client_cert(ca: &Box<Bundle>, config: &Config, serial_number: u32) -> (r:
    Result<Box<Bundle>, CertError>)
    ensures
        spec_issued(
            spec_signed_by(
                spec_parameters(CertTypeView::ApiServerEtcdClient, config@, serial_number),
                Some(ca@),
            ),
            r,
        ),
{
    issue(&CertType::ApiServerEtcdClient, Some(ca), config, serial_number)
}

/// Issues the controller manager's certificate.
pub fn controller_manager_cert(ca: &Box<Bundle>, config: &Config, serial_number: u32) -> (r:
    Result<Box<Bundle>, CertError>)
    ensures
        spec_issued(
            spec_signed_by(
                spec_parameters(CertTypeView::ControllerManager, config@, serial_number),
                Some(ca@),
            ),
            r,
        ),
{
    issue(&CertType::ControllerManager, Some(ca), config, serial_number)
}

/// Issues the scheduler's certificate.
pub fn scheduler_cert(ca: &Box<Bundle>, config: &Config, serial_number: u32) -> (r: Result<
    Box<Bundle>,
    CertError,
>)
    ensures
        spec_issued(
            spec_signed_by(
                spec_parameters(CertTypeView::Scheduler, config@, serial_number),
                Some(ca@),
            ),
            r,
        ),
{
    issue(&CertType::Scheduler, Some(ca), config, serial_number)
}

/// Issues the network proxy's certificate.
pub fn proxy_cert(ca: &Box<Bundle>, config: &Config, serial_number: u32) -> (r: Result<
    Box<Bundle>,
    CertError,
>)
    ensures
        spec_issued(
            spec_signed_by(
                spec_parameters(CertTypeView::Proxy, config@, serial_number),
                Some(ca@),
            ),
            r,
        ),
{
    issue(&CertType::Proxy, Some(ca), config, serial_number)
}

/// Issues the certificate of the front proxy's client.
pub fn front_proxy_cert(ca: &Box<Bundle>, config: &Config, serial_number: u32) -> (r: Result<
    Box<Bundle>,
    CertError,
>)
    ensures
        spec_issued(
            spec_signed_by(
                spec_parameters(CertTypeView::FrontProxy, config@, serial_number),
                Some(ca@),
            ),
            r,
        ),
{
    issue(&CertType::FrontProxy, Some(ca), config, serial_number)
}

/// Issues the certificate of the role `cert_type` under the serial number
/// `serial`, signed by the authority of the role.
///
/// The serial number is one that `issuance::draw` has handed out, and that
/// the caller has written down: nothing here draws or persists.
pub fn gen_cert(ca: &CA, config: &Config, cert_type: &CertType, serial: u32) -> (r: Result<
    Box<Bundle>,
    CertError,
>)
    ensures
        spec_issued(
            spec_signed_by(
                spec_parameters(cert_type@, config@, serial),
                Some(ca@.bundle(spec_authority(cert_type@))),
            ),
            r,
        ),
{
    let signer = ca.bundle(authority(cert_type));
    match cert_type {
        CertType::Admin => admin_cert(signer, config, serial),
        CertType::ApiServer => apiserver_cert(signer, config, serial),
        CertType::ApiServerClient => apiserver_client_cert(signer, config, serial),
        CertType::ApiServerEtcdClient => apiserver_etcd_client_cert(signer, config, serial),
        CertType::ControllerManager => controller_manager_cert(signer, config, serial),
        CertType::FrontProxy => front_proxy_cert(signer, config, serial),
        CertType::Scheduler => scheduler_cert(signer, config, serial),
        CertType::Proxy => proxy_cert(signer, config, serial),
        CertType::EtcdServer(host) => gen_etcd_cert(host, Some(signer), config, serial),
        CertType::EtcdUser(name) => gen_etcd_user(name, Some(signer), config, serial),
        CertType::Kubelet(host) => gen_kubelet_cert(host, Some(signer), config, serial),
        CertType::KubeletServer(host) => gen_kubelet_server_cert(host, Some(signer), config, serial),
        CertType::User(user) => user_cert(signer, config, user, serial),
    }
}

/// The view of each role of a list.
pub open spec fn cert_types(list: Seq<CertType>) -> Seq<CertTypeView> {
    Seq::new(list.len(), |i: int| list[i]@)
}

/// The roles of the control plane, in the order in which they are issued.
pub open spec fn spec_control_plane() -> Seq<CertTypeView> {
    seq![
        CertTypeView::Admin,
        CertTypeView::ApiServer,
        CertTypeView::ApiServerClient,
        CertTypeView::ApiServerEtcdClient,
        CertTypeView::ControllerManager,
        CertTypeView::Scheduler,
        CertTypeView::FrontProxy,
        CertTypeView::Proxy,
    ]
}

/// The two roles of each worker: the kubelet as client, then as server.
pub open spec fn spec_worker_roles(workers: Seq<InstanceView>) -> Seq<CertTypeView> {
    Seq::new(
        2 * workers.len(),
        |i: int|
            if i % 2 == 0 {
                CertTypeView::Kubelet(workers[i / 2])
            } else {
                CertTypeView::KubeletServer(workers[i / 2])
            },
    )
}

/// The role of each etcd host.
pub open spec fn spec_etcd_roles(hosts: Seq<InstanceView>) -> Seq<CertTypeView> {
    Seq::new(hosts.len(), |i: int| CertTypeView::EtcdServer(hosts[i]))
}

/// The role of each cluster user.
pub open spec fn spec_user_roles(list: Option<Seq<UserView>>) -> Seq<CertTypeView> {
    match list {
        Some(list) => Seq::new(list.len(), |i: int| CertTypeView::User(list[i])),
        None => Seq::empty(),
    }
}

/// The role of each etcd user.
pub open spec fn spec_etcd_user_roles(list: Option<Seq<Seq<char>>>) -> Seq<CertTypeView> {
    match list {
        Some(list) => Seq::new(list.len(), |i: int| CertTypeView::EtcdUser(list[i])),
        None => Seq::empty(),
    }
}

/// Every role of a cluster, in the order in which a new store is filled:
/// the control plane, the workers, the etcd hosts, the cluster users, the
/// etcd users.
pub open spec fn spec_all_roles(config: ConfigView) -> Seq<CertTypeView> {
    spec_control_plane() + spec_worker_roles(config.worker) + spec_etcd_roles(config.etcd_server)
        + spec_user_roles(config.user) + spec_etcd_user_roles(config.etcd_users)
}

/// The roles of the control plane, in the order in which they are issued.
pub fn control_plane<'a>() -> (roles: Vec<CertType<'a>>)
    ensures
        cert_types(roles@) == spec_control_plane(),
{
    let mut roles: Vec<CertType<'a>> = Vec::new();
    roles.push(CertType::Admin);
    roles.push(CertType::ApiServer);
    roles.push(CertType::ApiServerClient);
    roles.push(CertType::ApiServerEtcdClient);
    roles.push(CertType::ControllerManager);
    roles.push(CertType::Scheduler);
    roles.push(CertType::FrontProxy);
    roles.push(CertType::Proxy);
    assert(cert_types(roles@) =~= spec_control_plane());
    roles
}

/// Every role of the cluster `config`, in the order in which a new store is filled.
pub fn all_roles<'a>(config: &'a Config) -> (roles: Vec<CertType<'a>>)
    ensures
        cert_types(roles@) == spec_all_roles(config@),
{
    let mut roles = control_plane();
    let ghost workers = spec_worker_roles(config@.worker);
    let mut i: usize = 0;
    assert(cert_types(roles@) =~= spec_control_plane() + workers.take(0));
    while i < config.worker.len()
        invariant
            i <= config.worker.len(),
            workers == spec_worker_roles(config@.worker),
            cert_types(roles@) == spec_control_plane() + workers.take(2 * i),
        decreases config.worker.len() - i,
    {
        let ghost so_far = cert_types(roles@);
        roles.push(CertType::Kubelet(&config.worker[i]));
        roles.push(CertType::KubeletServer(&config.worker[i]));
        assert(cert_types(roles@) =~= so_far.push(workers[2 * i]).push(workers[2 * i + 1]));
        assert(spec_control_plane() + workers.take(2 * (i + 1)) =~= (spec_control_plane()
            + workers.take(2 * i)).push(workers[2 * i]).push(workers[2 * i + 1]));
        i = i + 1;
    }
    assert(workers.take(2 * i) =~= workers);
    let ghost before_etcd = cert_types(roles@);
    let ghost etcd = spec_etcd_roles(config@.etcd_server);
    let mut j: usize = 0;
    assert(cert_types(roles@) =~= before_etcd + etcd.take(0));
    while j < config.etcd_server.len()
        invariant
            j <= config.etcd_server.len(),
            etcd == spec_etcd_roles(config@.etcd_server),
            cert_types(roles@) == before_etcd + etcd.take(j as int),
        decreases config.etcd_server.len() - j,
    {
        let ghost so_far = cert_types(roles@);
        roles.push(CertType::EtcdServer(&config.etcd_server[j]));
        assert(cert_types(roles@) =~= so_far.push(etcd[j as int]));
        assert(before_etcd + etcd.take(j + 1) =~= (before_etcd + etcd.take(j as int)).push(
            etcd[j as int],
        ));
        j = j + 1;
    }
    assert(etcd.take(j as int) =~= etcd);
    let ghost before_users = cert_types(roles@);
    let ghost user_roles = spec_user_roles(config@.user);
    assert(cert_types(roles@) =~= before_users + user_roles.take(0));
    if let Some(list) = &config.user {
        let mut k: usize = 0;
        while k < list.len()
            invariant
                k <= list.len(),
                config.user == Some(*list),
                user_roles == spec_user_roles(config@.user),
                cert_types(roles@) == before_users + user_roles.take(k as int),
            decreases list.len() - k,
        {
            let ghost so_far = cert_types(roles@);
            roles.push(CertType::User(&list[k]));
            assert(cert_types(roles@) =~= so_far.push(user_roles[k as int]));
            assert(before_users + user_roles.take(k + 1) =~= (before_users + user_roles.take(
                k as int,
            )).push(user_roles[k as int]));
            k = k + 1;
        }
        assert(user_roles.take(k as int) =~= user_roles);
    } else {
        assert(user_roles.take(0) =~= user_roles);
    }
    let ghost before_etcd_users = cert_types(roles@);
    let ghost etcd_user_roles = spec_etcd_user_roles(config@.etcd_users);
    assert(cert_types(roles@) =~= before_etcd_users + etcd_user_roles.take(0));
    if let Some(list) = &config.etcd_users {
        let mut k: usize = 0;
        while k < list.len()
            invariant
                k <= list.len(),
                config.etcd_users == Some(*list),
                etcd_user_roles == spec_etcd_user_roles(config@.etcd_users),
                cert_types(roles@) == before_etcd_users + etcd_user_roles.take(k as int),
            decreases list.len() - k,
        {
            let ghost so_far = cert_types(roles@);
            roles.push(CertType::EtcdUser(list[k].as_str()));
            assert(cert_types(roles@) =~= so_far.push(etcd_user_roles[k as int]));
            assert(before_etcd_users + etcd_user_roles.take(k + 1) =~= (before_etcd_users
                + etcd_user_roles.take(k as int)).push(etcd_user_roles[k as int]));
            k = k + 1;
        }
        assert(etcd_user_roles.take(k as int) =~= etcd_user_roles);
    } else {
        assert(etcd_user_roles.take(0) =~= etcd_user_roles);
    }
    roles
}

/// Why a request for a certificate names no role.
#[derive(Clone, Copy, Debug, PartialEq, Eq, Structural)]
pub enum ResolveError {
    /// There is no certificate of this kind.
    UnknownKind,
    /// The kind needs the name of a host or of a user, and none was given.
    MissingName,
    /// No worker of this hostname is configured.
    UnknownWorker,
    /// No etcd host of this hostname is configured.
    UnknownEtcdServer,
}

/// The roles that a kind of certificate stands for, by the names that the
/// operator uses. A kubelet gets two certificates; every other kind is one
/// role. A host is looked up in the configuration by its hostname.
pub open spec fn spec_select(
    config: ConfigView,
    kind: Seq<char>,
    name: Option<Seq<char>>,
    user: Option<UserView>,
) -> Result<Seq<CertTypeView>, ResolveError> {
    if kind == "admin"@ {
        Ok(seq![CertTypeView::Admin])
    } else if kind == "apiserver"@ {
        Ok(seq![CertTypeView::ApiServer])
    } else if kind == "apiserver-client"@ {
        Ok(seq![CertTypeView::ApiServerClient])
    } else if kind == "apiserver-etcd-client"@ {
        Ok(seq![CertTypeView::ApiServerEtcdClient])
    } else if kind == "controller-manager"@ {
        Ok(seq![CertTypeView::ControllerManager])
    } else if kind == "scheduler"@ {
        Ok(seq![CertTypeView::Scheduler])
    } else if kind == "front-proxy-client"@ {
        Ok(seq![CertTypeView::FrontProxy])
    } else if kind == "proxy"@ {
        Ok(seq![CertTypeView::Proxy])
    } else if kind == "kubelet"@ {
        match name {
            None => Err(ResolveError::MissingName),
            Some(hostname) => match spec_find_instance(config.worker, hostname) {
                Some(k) => Ok(
                    seq![
                        CertTypeView::Kubelet(config.worker[k]),
                        CertTypeView::KubeletServer(config.worker[k]),
                    ],
                ),
                None => Err(ResolveError::UnknownWorker),
            },
        }
    } else if kind == "etcd"@ {
        match name {
            None => Err(ResolveError::MissingName),
            Some(hostname) => match spec_find_instance(config.etcd_server, hostname) {
                Some(k) => Ok(seq![CertTypeView::EtcdServer(config.etcd_server[k])]),
                None => Err(ResolveError::UnknownEtcdServer),
            },
        }
    } else if kind == "etcd-user"@ {
        match name {
            None => Err(ResolveError::MissingName),
            Some(username) => Ok(seq![CertTypeView::EtcdUser(username)]),
        }
    } else if kind == "user"@ {
        match user {
            None => Err(ResolveError::MissingName),
            Some(u) => Ok(seq![CertTypeView::User(u)]),
        }
    } else {
        Err(ResolveError::UnknownKind)
    }
}

fn single<'a>(role: CertType<'a>) -> (roles: Vec<CertType<'a>>)
    ensures
        cert_types(roles@) == seq![role@],
{
    let mut roles: Vec<CertType<'a>> = Vec::new();
    roles.push(role);
    assert(cert_types(roles@) =~= seq![role@]);
    roles
}

/// Finds the roles that the operator asks for with a kind of certificate,
/// the name of a host or of an etcd user, and a cluster user.
pub fn select<'a>(
    config: &'a Config,
    kind: &str,
    name: Option<&'a str>,
    user: Option<&'a User>,
) -> (r: Result<Vec<CertType<'a>>, ResolveError>)
    ensures
        match spec_select(
            config@,
            kind@,
            match name {
                Some(n) => Some(n@),
                None => None,
            },
            match user {
                Some(u) => Some(u@),
                None => None,
            },
        ) {
            Ok(roles) => r matches Ok(list) && cert_types(list@) == roles,
            Err(e) => r matches Err(f) && f == e,
        },
{
    if same_text(kind, "admin") {
        Ok(single(CertType::Admin))
    } else if same_text(kind, "apiserver") {
        Ok(single(CertType::ApiServer))
    } else if same_text(kind, "apiserver-client") {
        Ok(single(CertType::ApiServerClient))
    } else if same_text(kind, "apiserver-etcd-client") {
        Ok(single(CertType::ApiServerEtcdClient))
    } else if same_text(kind, "controller-manager") {
        Ok(single(CertType::ControllerManager))
    } else if same_text(kind, "scheduler") {
        Ok(single(CertType::Scheduler))
    } else if same_text(kind, "front-proxy-client") {
        Ok(single(CertType::FrontProxy))
    } else if same_text(kind, "proxy") {
        Ok(single(CertType::Proxy))
    } else if same_text(kind, "kubelet") {
        match name {
            None => Err(ResolveError::MissingName),
            Some(hostname) => match find_instance(&config.worker, hostname) {
                Some(host) => {
                    proof {
                        let all = instances(config.worker@);
                        lemma_find_instance(all, hostname@);
                        let k = spec_find_instance(all, hostname@)->0;
                        assert(all[k] == config.worker@[k]@);
                    }
                    let mut roles: Vec<CertType<'a>> = Vec::new();
                    roles.push(CertType::Kubelet(host));
                    roles.push(CertType::KubeletServer(host));
                    assert(cert_types(roles@) =~= seq![
                        CertTypeView::Kubelet(host@),
                        CertTypeView::KubeletServer(host@),
                    ]);
                    Ok(roles)
                },
                None => Err(ResolveError::UnknownWorker),
            },
        }
    } else if same_text(kind, "etcd") {
        match name {
            None => Err(ResolveError::MissingName),
            Some(hostname) => match find_instance(&config.etcd_server, hostname) {
                Some(host) => {
                    proof {
                        let all = instances(config.etcd_server@);
                        lemma_find_instance(all, hostname@);
                        let k = spec_find_instance(all, hostname@)->0;
                        assert(all[k] == config.etcd_server@[k]@);
                    }
                    Ok(single(CertType::EtcdServer(host)))
                },
                None => Err(ResolveError::UnknownEtcdServer),
            },
        }
    } else if same_text(kind, "etcd-user") {
        match name {
            None => Err(ResolveError::MissingName),
            Some(username) => Ok(single(CertType::EtcdUser(username))),
        }
    } else if same_text(kind, "user") {
        match user {
            None => Err(ResolveError::MissingName),
            Some(u) => Ok(single(CertType::User(u))),
        }
    } else {
        Err(ResolveError::UnknownKind)
    }
}

/// The key pair with which service account tokens are signed and checked.
pub struct KeyPair {
    /// The public key, PEM-encoded.
    pub public: Vec<u8>,
    /// The private key, PEM-encoded.
    pub private: Vec<u8>,
}

/// What files the service account keys: the two files in the store's
/// directory, and a link to each under `master`.
pub open spec fn spec_service_account_ops(out_dir: Seq<char>, public: Seq<u8>, private: Seq<u8>) -> Seq<
    OpView,
> {
    seq![
        OpView::WriteFile { path: out_dir + "/sa.pub"@, contents: public },
        OpView::WriteFile { path: out_dir + "/sa.key"@, contents: private },
        OpView::Link { target: "../sa.pub"@, path: out_dir + "/master/sa.pub"@, replace: false },
        OpView::Link { target: "../sa.key"@, path: out_dir + "/master/sa.key"@, replace: false },
    ]
}

/// What holds of a pair of service account keys: the public key is a PEM
/// text that begins with the header of a public key, and the private key
/// one that begins with the header of an RSA private key.
pub open spec fn spec_key_pair(public: Seq<u8>, private: Seq<u8>) -> bool {
    &&& begins_with(public, spec_public_key_header())
    &&& begins_with(private, spec_rsa_private_key_header())
}

/// Generates the service account keys: an RSA key of 2048 bits, as the PEM
/// text of the private key and the PEM text of its public half. Only the
/// cryptographic library can fail.
pub fn service_account_keys() -> (r: Result<KeyPair, CertError>)
    ensures
        match r {
            Ok(keys) => spec_key_pair(keys.public@, keys.private@),
            Err(e) => e is Crypto,
        },
{
    let rsa = match rsa_generate(2048) {
        Ok(rsa) => rsa,
        Err(e) => {
            return Err(CertError::Crypto(error_stack_message(&e)));
        },
    };
    let private = match rsa_private_key_to_pem(&rsa) {
        Ok(pem) => pem,
        Err(e) => {
            return Err(CertError::Crypto(error_stack_message(&e)));
        },
    };
    let key = match pkey_from_rsa(rsa) {
        Ok(key) => key,
        Err(e) => {
            return Err(CertError::Crypto(error_stack_message(&e)));
        },
    };
    match pkey_public_key_to_pem(&key) {
        Ok(public) => Ok(KeyPair { public, private }),
        Err(e) => Err(CertError::Crypto(error_stack_message(&e))),
    }
}

/// What files the service account keys `keys` in the store at `out_dir`.
pub fn service_account_ops(keys: &KeyPair, out_dir: &str) -> (ops: Vec<StoreOp>)
    ensures
        ops_view(ops@) == spec_service_account_ops(out_dir@, keys.public@, keys.private@),
{
    let mut ops: Vec<StoreOp> = Vec::new();
    ops.push(
        StoreOp::WriteFile { path: concat2(out_dir, "/sa.pub"), contents: keys.public.clone() },
    );
    ops.push(
        StoreOp::WriteFile { path: concat2(out_dir, "/sa.key"), contents: keys.private.clone() },
    );
    ops.push(
        StoreOp::Link {
            target: String::from_str("../sa.pub"),
            path: concat2(out_dir, "/master/sa.pub"),
            replace: false,
        },
    );
    ops.push(
        StoreOp::Link {
            target: String::from_str("../sa.key"),
            path: concat2(out_dir, "/master/sa.key"),
            replace: false,
        },
    );
    assert(ops_view(ops@) =~= spec_service_account_ops(out_dir@, keys.public@, keys.private@));
    ops
}

/// Generates the service account keys and says how they are filed in the
/// store at `out_dir`.
pub fn service_account(out_dir: &str) -> (r: Result<Vec<StoreOp>, CertError>)
    ensures
        r matches Ok(ops) ==> exists|public: Seq<u8>, private: Seq<u8>|
            ops_view(ops@) == #[trigger] spec_service_account_ops(out_dir@, public, private)
                && spec_key_pair(public, private),
        r matches Err(e) ==> e is Crypto,
{
    let keys = service_account_keys()?;
    Ok(service_account_ops(&keys, out_dir))
}

/// Issues the certificates of the control plane and generates the service
/// account keys.
///
/// The eight roles of the control plane are issued in one run, as
/// `issue_roles` issues them: each signed by its authority under that
/// authority's next serial number, and filed in that authority's directory;
/// a role in whose way a file stands is passed over. The service account
/// keys are generated after the run, and the operations that file them
/// follow those of the run.
pub fn kube_certs(ca: &CA, config: &Config, ledgers: &mut Ledgers, existing: &Vec<String>) -> (r:
    Result<Issuance, CertError>)
    ensures
        spec_run_owed(
            spec_control_plane(),
            config@,
            *old(ledgers),
            *final(ledgers),
            texts(existing@),
            r,
        ),
        r matches Ok(out) ==> spec_run_issued(
            spec_control_plane(),
            config@,
            ca@,
            *old(ledgers),
            *final(ledgers),
            texts(existing@),
            out.bundles@,
        ) && texts(out.conflicts@) == spec_run_conflicts(
            spec_control_plane(),
            config@,
            *old(ledgers),
            texts(existing@),
        ) && exists|public: Seq<u8>, private: Seq<u8>|
            ops_view(out.ops@) == spec_run_ops(
                spec_control_plane(),
                config@,
                outcome_views(out.bundles@),
            ) + #[trigger] spec_service_account_ops(config@.out_dir, public, private)
                && spec_key_pair(public, private),
{
    let roles = control_plane();
    let mut out = match issue_roles(ca, config, &roles, ledgers, existing) {
        Ok(out) => out,
        Err(e) => {
            return Err(e);
        },
    };
    let keys = match service_account_keys() {
        Ok(keys) => keys,
        Err(e) => {
            return Err(e);
        },
    };
    let mut more = service_account_ops(&keys, config.out_dir.as_str());
    let ghost issued = ops_view(out.ops@);
    let ghost extra = ops_view(more@);
    out.ops.append(&mut more);
    proof {
        assert(ops_view(out.ops@) =~= issued + extra);
        assert(extra == spec_service_account_ops(config@.out_dir, keys.public@, keys.private@));
    }
    Ok(out)
}

} // verus!
