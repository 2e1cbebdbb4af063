//! The three certificate authorities of a store.
//!
//! The root authority signs itself. The etcd authority and the front proxy
//! authority are signed by the root. Each has a ledger of its own.

use vstd::prelude::*;
use vstd::string::*;
use crate::cert::{
    spec_fresh_bundle, spec_inputs_fit, spec_validity_fits, Bundle, BundleView,
};
use crate::config_parser::{instances, Config, ConfigView, Instance, InstanceView};
use crate::error::CertError;
use crate::kubernetes_certs::{gen_authority_cert, spec_authority_request};
use crate::ledger::SerialLedger;
use crate::signer::MAX_INPUT_BYTES;
use crate::store::{
    crt_file, file_ops, index_file, key_file, ledger_bytes, ops_view, spec_authority_dir,
    spec_authority_link_dir, spec_crt_file, spec_file_ops, spec_index_file, spec_key_file,
    spec_ledger_bytes, Authority, OpView, StoreOp,
};
use crate::text::{concat2, concat3};

verus! {

/// The bundles of the three authorities.
#[derive(Clone, PartialEq, Eq)]
pub struct CA {
    /// The root authority.
    pub main_ca: Box<Bundle>,
    /// The authority of the etcd cluster.
    pub etcd_ca: Box<Bundle>,
    /// The authority of the front proxy.
    pub front_ca: Box<Bundle>,
}

/// A `CA` as mathematical data.
pub ghost struct CAView {
    pub main_ca: BundleView,
    pub etcd_ca: BundleView,
    pub front_ca: BundleView,
}

impl CAView {
    /// The bundle of one authority.
    pub open spec fn bundle(self, authority: Authority) -> BundleView {
        match authority {
            Authority::Root => self.main_ca,
            Authority::Etcd => self.etcd_ca,
            Authority::FrontProxy => self.front_ca,
        }
    }
}

impl View for CA {
    type V = CAView;

    open spec fn view(&self) -> CAView {
        CAView { main_ca: self.main_ca@, etcd_ca: self.etcd_ca@, front_ca: self.front_ca@ }
    }
}

/// What files a new authority: its ledger, created at 0 and only if there is
/// none yet, then its bundle under the name `ca`, with the ledger at 0.
pub open spec fn spec_authority_ops(out_dir: Seq<char>, authority: Authority, bundle: BundleView) -> Seq<
    OpView,
> {
    let dir = spec_authority_dir(out_dir, authority);
    seq![OpView::CreateFile { path: spec_index_file(dir), contents: spec_ledger_bytes(0) }]
        + spec_file_ops(bundle.cert, bundle.key, 0, dir, "ca"@)
}

/// The links under `master` that point at the authorities' own files: both
/// files of the root and of the front proxy authority, and the certificate
/// of the etcd authority. None of them replaces a link that exists.
pub open spec fn spec_master_links(out_dir: Seq<char>) -> Seq<OpView> {
    let root = spec_authority_link_dir(Authority::Root);
    let etcd = spec_authority_link_dir(Authority::Etcd);
    let front = spec_authority_link_dir(Authority::FrontProxy);
    seq![
        OpView::Link {
            target: spec_crt_file(root, "ca"@),
            path: out_dir + "/master/ca.crt"@,
            replace: false,
        },
        OpView::Link {
            target: spec_key_file(root, "ca"@),
            path: out_dir + "/master/ca.key"@,
            replace: false,
        },
        OpView::Link {
            target: spec_crt_file(etcd, "ca"@),
            path: out_dir + "/master/etcd-ca.crt"@,
            replace: false,
        },
        OpView::Link {
            target: spec_crt_file(front, "ca"@),
            path: out_dir + "/master/front-proxy-ca.crt"@,
            replace: false,
        },
        OpView::Link {
            target: spec_key_file(front, "ca"@),
            path: out_dir + "/master/front-proxy-ca.key"@,
            replace: false,
        },
    ]
}

/// Everything that files a new hierarchy: the three authorities, the root
/// first, then the links under `master`.
pub open spec fn spec_bootstrap_ops(out_dir: Seq<char>, ca: CAView) -> Seq<OpView> {
    spec_authority_ops(out_dir, Authority::Root, ca.main_ca) + spec_authority_ops(
        out_dir,
        Authority::Etcd,
        ca.etcd_ca,
    ) + spec_authority_ops(out_dir, Authority::FrontProxy, ca.front_ca) + spec_master_links(out_dir)
}

/// The files from which the authority `authority` of the store at `out_dir`
/// is loaded: the key file first, then the certificate file. They are the
/// files that the operations of `CA::bootstrap_ops` write.
pub fn authority_files(out_dir: &str, authority: Authority) -> (names: (String, String))
    ensures
        names.0@ == spec_key_file(spec_authority_dir(out_dir@, authority), "ca"@),
        names.1@ == spec_crt_file(spec_authority_dir(out_dir@, authority), "ca"@),
{
    let dir = authority.dir(out_dir);
    (key_file(dir.as_str(), "ca"), crt_file(dir.as_str(), "ca"))
}

fn push_authority_ops(ops: &mut Vec<StoreOp>, out_dir: &str, authority: Authority, bundle: &Bundle)
    ensures
        ops_view(final(ops)@) == ops_view(old(ops)@) + spec_authority_ops(
            out_dir@,
            authority,
            bundle@,
        ),
{
    let ghost before = ops_view(ops@);
    let dir = authority.dir(out_dir);
    let ledger = SerialLedger::bootstrap();
    ops.push(
        StoreOp::CreateFile {
            path: index_file(dir.as_str()),
            contents: ledger_bytes(ledger.value),
        },
    );
    let ghost created = ops_view(ops@);
    let mut filing = file_ops(bundle, ledger.value, dir.as_str(), "ca");
    let ghost commit = ops_view(filing@);
    ops.append(&mut filing);
    assert(ops_view(ops@) =~= created + commit);
    assert(created =~= before.push(
        OpView::CreateFile { path: spec_index_file(dir@), contents: spec_ledger_bytes(0) },
    ));
    assert(ops_view(ops@) =~= before + spec_authority_ops(out_dir@, authority, bundle@));
}

fn push_link(ops: &mut Vec<StoreOp>, target: String, out_dir: &str, place: &str)
    ensures
        ops_view(final(ops)@) == ops_view(old(ops)@).push(
            OpView::Link { target: target@, path: out_dir@ + place@, replace: false },
        ),
{
    ops.push(StoreOp::Link { target, path: concat2(out_dir, place), replace: false });
    assert(ops_view(ops@) =~= ops_view(old(ops)@).push(
        OpView::Link { target: target@, path: out_dir@ + place@, replace: false },
    ));
}

impl CA {
    /// The bundle of one authority.
    pub fn bundle(&self, authority: Authority) -> (b: &Box<Bundle>)
        ensures
            b@ == self@.bundle(authority),
    {
        match authority {
            Authority::Root => &self.main_ca,
            Authority::Etcd => &self.etcd_ca,
            Authority::FrontProxy => &self.front_ca,
        }
    }

    /// Puts a hierarchy together from the files of its three authorities,
    /// each given as the contents of the certificate file and of the key
    /// file. No ledger is read.
    pub fn from_pem(
        main_crt: Vec<u8>,
        main_key: Vec<u8>,
        etcd_crt: Vec<u8>,
        etcd_key: Vec<u8>,
        front_crt: Vec<u8>,
        front_key: Vec<u8>,
    ) -> (r: Result<CA, CertError>)
        ensures
            r matches Ok(ca) ==> {
                &&& ca.main_ca.cert@ == main_crt@
                &&& ca.main_ca.key@ == main_key@
                &&& ca.etcd_ca.cert@ == etcd_crt@
                &&& ca.etcd_ca.key@ == etcd_key@
                &&& ca.front_ca.cert@ == front_crt@
                &&& ca.front_ca.key@ == front_key@
            },
            r matches Err(e) ==> e is InputTooLong || e is Crypto,
            main_crt@.len() > MAX_INPUT_BYTES || main_key@.len() > MAX_INPUT_BYTES ==> r matches Err(
                CertError::InputTooLong,
            ),
            r matches Ok(_) ==> {
                &&& main_crt@.len() <= MAX_INPUT_BYTES && main_key@.len() <= MAX_INPUT_BYTES
                &&& etcd_crt@.len() <= MAX_INPUT_BYTES && etcd_key@.len() <= MAX_INPUT_BYTES
                &&& front_crt@.len() <= MAX_INPUT_BYTES && front_key@.len() <= MAX_INPUT_BYTES
            },
    {
        let main_ca = Bundle::from_pem(main_crt, main_key)?;
        let etcd_ca = Bundle::from_pem(etcd_crt, etcd_key)?;
        let front_ca = Bundle::from_pem(front_crt, front_key)?;
        Ok(CA { main_ca, etcd_ca, front_ca })
    }

    /// What files this hierarchy in a store whose directories have just been made.
    pub fn bootstrap_ops(&self, out_dir: &str) -> (ops: Vec<StoreOp>)
        ensures
            ops_view(ops@) == spec_bootstrap_ops(out_dir@, self@),
    {
        let mut ops: Vec<StoreOp> = Vec::new();
        assert(ops_view(ops@) =~= Seq::<OpView>::empty());
        push_authority_ops(&mut ops, out_dir, Authority::Root, &self.main_ca);
        push_authority_ops(&mut ops, out_dir, Authority::Etcd, &self.etcd_ca);
        push_authority_ops(&mut ops, out_dir, Authority::FrontProxy, &self.front_ca);
        let ghost authorities = ops_view(ops@);
        let root = Authority::Root.link_dir();
        let etcd = Authority::Etcd.link_dir();
        let front = Authority::FrontProxy.link_dir();
        push_link(&mut ops, crt_file(root.as_str(), "ca"), out_dir, "/master/ca.crt");
        push_link(&mut ops, key_file(root.as_str(), "ca"), out_dir, "/master/ca.key");
        push_link(&mut ops, crt_file(etcd.as_str(), "ca"), out_dir, "/master/etcd-ca.crt");
        push_link(&mut ops, crt_file(front.as_str(), "ca"), out_dir, "/master/front-proxy-ca.crt");
        push_link(&mut ops, key_file(front.as_str(), "ca"), out_dir, "/master/front-proxy-ca.key");
        assert(ops_view(ops@) =~= authorities + spec_master_links(out_dir@));
        ops
    }
}

/// The link to an authority's certificate in the directory of each host of a list.
pub open spec fn spec_host_ca_links(
    out_dir: Seq<char>,
    hosts: Seq<InstanceView>,
    authority: Authority,
    leaf: Seq<char>,
) -> Seq<OpView> {
    Seq::new(
        hosts.len(),
        |i: int|
            OpView::Link {
                target: spec_crt_file(spec_authority_link_dir(authority), "ca"@),
                path: out_dir + "/"@ + hosts[i].dir_name() + leaf,
                replace: false,
            },
    )
}

/// The links that give every host the certificate of the authority it
/// trusts: `ca.crt`, the root's, for each worker, and `etcd-ca.crt`, the
/// etcd authority's, for each etcd host.
pub open spec fn spec_trust_links(config: ConfigView) -> Seq<OpView> {
    spec_host_ca_links(config.out_dir, config.worker, Authority::Root, "/ca.crt"@)
        + spec_host_ca_links(config.out_dir, config.etcd_server, Authority::Etcd, "/etcd-ca.crt"@)
}

fn push_host_ca_links(
    ops: &mut Vec<StoreOp>,
    out_dir: &str,
    hosts: &Vec<Instance>,
    authority: Authority,
    leaf: &str,
)
    ensures
        ops_view(final(ops)@) == ops_view(old(ops)@) + spec_host_ca_links(
            out_dir@,
            instances(hosts@),
            authority,
            leaf@,
        ),
{
    let ghost before = ops_view(ops@);
    let ghost all = spec_host_ca_links(out_dir@, instances(hosts@), authority, leaf@);
    let link_dir = authority.link_dir();
    let mut i: usize = 0;
    assert(ops_view(ops@) =~= before + all.take(0));
    while i < hosts.len()
        invariant
            i <= hosts.len(),
            link_dir@ == spec_authority_link_dir(authority),
            all == spec_host_ca_links(out_dir@, instances(hosts@), authority, leaf@),
            ops_view(ops@) == before + all.take(i as int),
        decreases hosts.len() - i,
    {
        let ghost so_far = ops_view(ops@);
        let dir = hosts[i].dir_name();
        let mut path = concat3(out_dir, "/", dir.as_str());
        path.append(leaf);
        ops.push(StoreOp::Link { target: crt_file(link_dir.as_str(), "ca"), path, replace: false });
        assert(ops_view(ops@) =~= so_far.push(all[i as int]));
        assert(before + all.take(i + 1) =~= (before + all.take(i as int)).push(all[i as int]));
        i = i + 1;
    }
    assert(all.take(i as int) =~= all);
}

/// The links that give every host of the cluster the certificate of the
/// authority it trusts.
pub fn trust_links(config: &Config) -> (ops: Vec<StoreOp>)
    ensures
        ops_view(ops@) == spec_trust_links(config@),
{
    let mut ops: Vec<StoreOp> = Vec::new();
    assert(ops_view(ops@) =~= Seq::<OpView>::empty());
    let out = config.out_dir.as_str();
    push_host_ca_links(&mut ops, out, &config.worker, Authority::Root, "/ca.crt");
    push_host_ca_links(&mut ops, out, &config.etcd_server, Authority::Etcd, "/etcd-ca.crt");
    assert(ops_view(ops@) =~= spec_trust_links(config@));
    ops
}

/// What holds of every outcome of `create_ca`.
///
/// A configuration whose subject entries for the authorities are too long
/// is refused as such, and one whose validity period for the authorities
/// does not fit, as that. For every other configuration the three
/// authorities come back, each a bundle of two PEM texts under the serial
/// number 0: the root with no signer on record, for it signed itself, and
/// the two others with the root's certificate on record as their signer;
/// unless the cryptographic library fails or hands out a root bundle too
/// long to sign with.
pub open spec fn spec_created(config: ConfigView, r: Result<CA, CertError>) -> bool {
    let root = spec_authority_request(Authority::Root, config, None);
    if !spec_inputs_fit(root) {
        r matches Err(CertError::InputTooLong)
    } else if !spec_validity_fits(root.validity_days) {
        r matches Err(CertError::ValidityTooLong)
    } else {
        match r {
            Ok(ca) => {
                &&& spec_fresh_bundle(ca.main_ca@, 0, None)
                &&& spec_fresh_bundle(ca.etcd_ca@, 0, Some(ca.main_ca@))
                &&& spec_fresh_bundle(ca.front_ca@, 0, Some(ca.main_ca@))
                &&& spec_inputs_fit(
                    spec_authority_request(Authority::Etcd, config, Some(ca.main_ca@)),
                )
                &&& spec_inputs_fit(
                    spec_authority_request(Authority::FrontProxy, config, Some(ca.main_ca@)),
                )
            },
            Err(e) => e is Crypto || e is InputTooLong,
        }
    }
}

/// Creates the three authorities of a new store, each as
/// `authority_request` asks for it: the root, signed by itself, then the
/// etcd authority and the front proxy authority, signed by the root.
/// Nothing is written; `CA::bootstrap_ops` says what is to be.
pub fn create_ca(config: &Config) -> (r: Result<CA, CertError>)
    ensures
        spec_created(config@, r),
{
    let main_ca = gen_authority_cert(Authority::Root, config, None)?;
    let etcd_ca = gen_authority_cert(Authority::Etcd, config, Some(&main_ca))?;
    let front_ca = gen_authority_cert(Authority::FrontProxy, config, Some(&main_ca))?;
    Ok(CA { main_ca, etcd_ca, front_ca })
}

} // verus!
