//! The certificate store: where things lie on disk, and what is to be
//! written there.
//!
//! Nothing in this file touches a disk. Each function decides what is to be
//! done and returns it as a list of `StoreOp`; the caller carries the
//! operations out, in order, and stops at the first that fails. What an
//! operation means is said by `apply_op`, on a model of the disk.
//!
//! The layout under the output directory: one directory for each authority
//! (`CA/root`, `CA/etcd`, `CA/front-proxy`) with the subdirectories `certs`
//! and `keys` and the ledger file `index`; `master` for the control plane,
//! one directory for each host, `users` and `etcd-users`. Those hold symbolic
//! links that point into the authority directories.

use vstd::prelude::*;
use vstd::string::*;
use vstd::utf8::encode_utf8;
use crate::cert::Bundle;
use crate::config_parser::{Config, ConfigView, Instance, InstanceView};
use crate::decimal::{decimal_string, decimal_text};
use crate::text::{concat2, concat3};

verus! {

/// One of the three certificate authorities of a store.
#[derive(Clone, Copy, Debug, PartialEq, Eq, Structural)]
pub enum Authority {
    /// The self-signed authority that signs the other two and most leaves.
    Root,
    /// The authority of the etcd cluster.
    Etcd,
    /// The authority of the front proxy.
    FrontProxy,
}

/// One operation on the disk.
#[derive(Clone, Debug, PartialEq, Eq)]
pub enum StoreOp {
    /// Create the directory `path` and the directories above it. No fault
    /// where it exists.
    MakeDir { path: String },
    /// Create the file `path` with `contents`. A fault where anything exists
    /// at `path`.
    CreateFile { path: String, contents: Vec<u8> },
    /// Write `contents` to the file `path`, in place of what it held, or as
    /// a new file.
    WriteFile { path: String, contents: Vec<u8> },
    /// Write `contents` to the file `path` in place of what it held. A fault
    /// where there is no such file.
    UpdateFile { path: String, contents: Vec<u8> },
    /// Create at `path` a symbolic link to `target`. Where `replace` is set
    /// and a symbolic link exists at `path`, that link is removed first;
    /// anything else that exists at `path` is a fault, and stays.
    Link { target: String, path: String, replace: bool },
}

/// A `StoreOp` as mathematical data.
pub ghost enum OpView {
    MakeDir { path: Seq<char> },
    CreateFile { path: Seq<char>, contents: Seq<u8> },
    WriteFile { path: Seq<char>, contents: Seq<u8> },
    UpdateFile { path: Seq<char>, contents: Seq<u8> },
    Link { target: Seq<char>, path: Seq<char>, replace: bool },
}

impl View for StoreOp {
    type V = OpView;

    open spec fn view(&self) -> OpView {
        match self {
            StoreOp::MakeDir { path } => OpView::MakeDir { path: path@ },
            StoreOp::CreateFile { path, contents } => OpView::CreateFile {
                path: path@,
                contents: contents@,
            },
            StoreOp::WriteFile { path, contents } => OpView::WriteFile {
                path: path@,
                contents: contents@,
            },
            StoreOp::UpdateFile { path, contents } => OpView::UpdateFile {
                path: path@,
                contents: contents@,
            },
            StoreOp::Link { target, path, replace } => OpView::Link {
                target: target@,
                path: path@,
                replace: *replace,
            },
        }
    }
}

/// The view of each operation of a list.
pub open spec fn ops_view(ops: Seq<StoreOp>) -> Seq<OpView> {
    Seq::new(ops.len(), |i: int| ops[i]@)
}

/// What lies at one path of the disk.
pub ghost enum Node {
    Dir,
    File(Seq<u8>),
    Link(Seq<char>),
}

/// Why an operation cannot be carried out.
#[derive(Clone, Copy, Debug, PartialEq, Eq, Structural)]
pub enum StoreError {
    /// The store already holds certificate authorities.
    AlreadyBootstrapped,
    /// Something exists where a new file or link was to be created.
    AlreadyExists,
    /// There is no file where one was to be updated.
    Missing,
    /// A directory or a link exists where a file was to be written, or a
    /// file or a link where a directory was to be made.
    WrongKind,
    /// What exists where a link was to be placed is not a symbolic link.
    NotASymlink,
    /// What exists where a link was to be placed could not be examined.
    Unreadable,
    /// The old link could not be removed.
    RemoveFailed,
    /// The link could not be created.
    LinkFailed,
    /// The caller reported something that cannot follow the step it was
    /// asked to take.
    OutOfTurn,
}

/// The disk after `op`, or the fault that `op` ends in. A fault leaves the
/// disk as it was. The model keeps no account of the directories above a
/// path: it knows the directories that were made by name only.
pub open spec fn apply_op(disk: Map<Seq<char>, Node>, op: OpView) -> Result<
    Map<Seq<char>, Node>,
    StoreError,
> {
    match op {
        OpView::MakeDir { path } => if disk.contains_key(path) && !(disk[path] is Dir) {
            Err(StoreError::WrongKind)
        } else {
            Ok(disk.insert(path, Node::Dir))
        },
        OpView::CreateFile { path, contents } => if disk.contains_key(path) {
            Err(StoreError::AlreadyExists)
        } else {
            Ok(disk.insert(path, Node::File(contents)))
        },
        OpView::WriteFile { path, contents } => if disk.contains_key(path) && !(disk[path]
            is File) {
            Err(StoreError::WrongKind)
        } else {
            Ok(disk.insert(path, Node::File(contents)))
        },
        OpView::UpdateFile { path, contents } => if !disk.contains_key(path) {
            Err(StoreError::Missing)
        } else if !(disk[path] is File) {
            Err(StoreError::WrongKind)
        } else {
            Ok(disk.insert(path, Node::File(contents)))
        },
        OpView::Link { target, path, replace } => if !disk.contains_key(path) {
            Ok(disk.insert(path, Node::Link(target)))
        } else if !replace {
            Err(StoreError::AlreadyExists)
        } else if disk[path] is Link {
            Ok(disk.insert(path, Node::Link(target)))
        } else {
            Err(StoreError::NotASymlink)
        },
    }
}

/// The disk after the operations `ops`, carried out in order up to the first
/// fault, together with that fault if there was one.
pub open spec fn apply_all(disk: Map<Seq<char>, Node>, ops: Seq<OpView>) -> (
    Map<Seq<char>, Node>,
    Option<StoreError>,
)
    decreases ops.len(),
{
    if ops.len() == 0 {
        (disk, None)
    } else {
        match apply_op(disk, ops.first()) {
            Ok(next) => apply_all(next, ops.drop_first()),
            Err(e) => (disk, Some(e)),
        }
    }
}

/// The name of an authority's directory under `CA`.
pub open spec fn spec_authority_name(authority: Authority) -> Seq<char> {
    match authority {
        Authority::Root => "root"@,
        Authority::Etcd => "etcd"@,
        Authority::FrontProxy => "front-proxy"@,
    }
}

/// The directory of an authority in the store at `out_dir`.
pub open spec fn spec_authority_dir(out_dir: Seq<char>, authority: Authority) -> Seq<char> {
    out_dir + "/CA/"@ + spec_authority_name(authority)
}

/// The directory of an authority as a link one level below `out_dir` names it.
pub open spec fn spec_authority_link_dir(authority: Authority) -> Seq<char> {
    "../CA/"@ + spec_authority_name(authority)
}

/// The directory whose presence shows that a store has its authorities.
pub open spec fn spec_ca_root(out_dir: Seq<char>) -> Seq<char> {
    out_dir + "/CA"@
}

/// The ledger file of the authority directory `dir`.
pub open spec fn spec_index_file(dir: Seq<char>) -> Seq<char> {
    dir + "/index"@
}

/// The name under which the bundle of a role is filed: the stable name, a
/// hyphen and the serial number. An authority's own bundle is filed under
/// the name `ca`, which no name of this form is.
pub open spec fn spec_stored_name(filename: Seq<char>, serial: u32) -> Seq<char> {
    filename + "-"@ + decimal_text(serial as nat)
}

/// The certificate file of a bundle filed as `stored` in the authority
/// directory `dir`.
pub open spec fn spec_crt_file(dir: Seq<char>, stored: Seq<char>) -> Seq<char> {
    dir + "/certs/"@ + stored + ".crt"@
}

/// The key file of a bundle filed as `stored` in the authority directory `dir`.
pub open spec fn spec_key_file(dir: Seq<char>, stored: Seq<char>) -> Seq<char> {
    dir + "/keys/"@ + stored + ".key"@
}

/// The bytes of a ledger file that stands at `value`.
pub open spec fn spec_ledger_bytes(value: u32) -> Seq<u8> {
    encode_utf8(decimal_text(value as nat))
}

/// What is to be done to file a bundle.
#[derive(Clone, Debug, PartialEq, Eq)]
pub struct WritePlan {
    /// The operations to carry out: none, or the two files and the ledger.
    pub ops: Vec<StoreOp>,
    /// The files that exist and stay as they are, because overwriting was
    /// not asked for. Where there is one, nothing is written at all.
    pub conflicts: Vec<String>,
    /// The files that exist and are written over.
    pub overwritten: Vec<String>,
}

/// The operations that file a bundle as `stored` in the authority directory
/// `dir`: the certificate, the key, then the ledger, which is set to `serial`.
pub open spec fn spec_file_ops(
    cert: Seq<u8>,
    key: Seq<u8>,
    serial: u32,
    dir: Seq<char>,
    stored: Seq<char>,
) -> Seq<OpView> {
    seq![
        OpView::WriteFile { path: spec_crt_file(dir, stored), contents: cert },
        OpView::WriteFile { path: spec_key_file(dir, stored), contents: key },
        OpView::UpdateFile { path: spec_index_file(dir), contents: spec_ledger_bytes(serial) },
    ]
}

/// The operations that file the bundle of a role under its stable name
/// `filename`.
pub open spec fn spec_commit_ops(
    cert: Seq<u8>,
    key: Seq<u8>,
    serial: u32,
    dir: Seq<char>,
    filename: Seq<char>,
) -> Seq<OpView> {
    spec_file_ops(cert, key, serial, dir, spec_stored_name(filename, serial))
}

/// Those of the two files of a bundle that exist, the certificate file first.
pub open spec fn spec_existing(
    dir: Seq<char>,
    stored: Seq<char>,
    crt_exists: bool,
    key_exists: bool,
) -> Seq<Seq<char>> {
    let crt = if crt_exists {
        seq![spec_crt_file(dir, stored)]
    } else {
        Seq::empty()
    };
    let key = if key_exists {
        seq![spec_key_file(dir, stored)]
    } else {
        Seq::empty()
    };
    crt + key
}

/// Whether a bundle is filed: always where overwriting is asked for, and
/// else only where neither of its files exists.
pub open spec fn spec_commits(overwrite: bool, crt_exists: bool, key_exists: bool) -> bool {
    overwrite || !(crt_exists || key_exists)
}

/// The operations that `write_bundle_to_file` decides on: those that file the
/// bundle, or none.
pub open spec fn spec_write_ops(
    cert: Seq<u8>,
    key: Seq<u8>,
    serial: u32,
    dir: Seq<char>,
    filename: Seq<char>,
    overwrite: bool,
    crt_exists: bool,
    key_exists: bool,
) -> Seq<OpView> {
    if spec_commits(overwrite, crt_exists, key_exists) {
        spec_commit_ops(cert, key, serial, dir, filename)
    } else {
        Seq::empty()
    }
}

/// The two links that make a bundle reachable under a stable name, the key
/// first: `dest.key` and `dest.crt`, pointing at the files of `cert_name`
/// under the authority directory `ca_dir`.
pub open spec fn spec_symlinks(ca_dir: Seq<char>, cert_name: Seq<char>, dest: Seq<char>) -> Seq<
    OpView,
> {
    seq![
        OpView::Link {
            target: spec_key_file(ca_dir, cert_name),
            path: dest + ".key"@,
            replace: true,
        },
        OpView::Link {
            target: spec_crt_file(ca_dir, cert_name),
            path: dest + ".crt"@,
            replace: true,
        },
    ]
}

/// The directory of each host of a list, under `root_dir`.
pub open spec fn spec_host_dirs(root_dir: Seq<char>, hosts: Seq<InstanceView>) -> Seq<OpView> {
    Seq::new(hosts.len(), |i: int| OpView::MakeDir { path: root_dir + "/"@ + hosts[i].dir_name() })
}

/// The directories of an authority, under `root_dir`.
pub open spec fn spec_authority_dirs(root_dir: Seq<char>, authority: Authority) -> Seq<OpView> {
    seq![
        OpView::MakeDir { path: spec_authority_dir(root_dir, authority) + "/certs"@ },
        OpView::MakeDir { path: spec_authority_dir(root_dir, authority) + "/keys"@ },
    ]
}

/// The directories of a store, in the order in which they are made.
pub open spec fn spec_directories(config: ConfigView, root_dir: Seq<char>) -> Seq<OpView> {
    spec_authority_dirs(root_dir, Authority::Root) + spec_authority_dirs(root_dir, Authority::Etcd)
        + spec_authority_dirs(root_dir, Authority::FrontProxy) + seq![
        OpView::MakeDir { path: root_dir + "/master"@ },
        OpView::MakeDir { path: root_dir + "/users"@ },
        OpView::MakeDir { path: root_dir + "/etcd-users"@ },
    ] + spec_host_dirs(root_dir, config.worker) + spec_host_dirs(root_dir, config.etcd_server)
}

impl Authority {
    /// The name of the authority's directory under `CA`.
    pub fn name(&self) -> (name: &'static str)
        ensures
            name@ == spec_authority_name(*self),
    {
        match self {
            Authority::Root => "root",
            Authority::Etcd => "etcd",
            Authority::FrontProxy => "front-proxy",
        }
    }

    /// The authority's directory in the store at `out_dir`.
    pub fn dir(&self, out_dir: &str) -> (dir: String)
        ensures
            dir@ == spec_authority_dir(out_dir@, *self),
    {
        concat3(out_dir, "/CA/", self.name())
    }

    /// The authority's directory as a link one level below the store's
    /// directory names it.
    pub fn link_dir(&self) -> (dir: String)
        ensures
            dir@ == spec_authority_link_dir(*self),
    {
        concat2("../CA/", self.name())
    }
}

/// The directory whose presence shows that the store at `out_dir` has its authorities.
pub fn ca_root(out_dir: &str) -> (dir: String)
    ensures
        dir@ == spec_ca_root(out_dir@),
{
    concat2(out_dir, "/CA")
}

/// The ledger file of the authority directory `dir`.
pub fn index_file(dir: &str) -> (file: String)
    ensures
        file@ == spec_index_file(dir@),
{
    concat2(dir, "/index")
}

/// The name under which the bundle of a role with the stable name
/// `filename` and the serial number `serial` is filed.
pub fn stored_name(filename: &str, serial: u32) -> (stored: String)
    ensures
        stored@ == spec_stored_name(filename@, serial),
{
    let number = decimal_string(serial);
    concat3(filename, "-", number.as_str())
}

/// The operations that file `bundle` as `stored` in the authority directory
/// `dir`, and set the ledger to `serial`.
pub fn file_ops(bundle: &Bundle, serial: u32, dir: &str, stored: &str) -> (ops: Vec<StoreOp>)
    ensures
        ops_view(ops@) == spec_file_ops(bundle.cert@, bundle.key@, serial, dir@, stored@),
{
    let mut ops: Vec<StoreOp> = Vec::new();
    ops.push(StoreOp::WriteFile { path: crt_file(dir, stored), contents: bundle.cert.clone() });
    ops.push(StoreOp::WriteFile { path: key_file(dir, stored), contents: bundle.key.clone() });
    ops.push(StoreOp::UpdateFile { path: index_file(dir), contents: ledger_bytes(serial) });
    assert(ops_view(ops@) =~= spec_file_ops(bundle.cert@, bundle.key@, serial, dir@, stored@));
    ops
}

/// The certificate file of a bundle filed as `stored` under `dir`.
pub fn crt_file(dir: &str, stored: &str) -> (file: String)
    ensures
        file@ == spec_crt_file(dir@, stored@),
{
    let mut file = concat3(dir, "/certs/", stored);
    file.append(".crt");
    file
}

/// The key file of a bundle filed as `stored` under `dir`.
pub fn key_file(dir: &str, stored: &str) -> (file: String)
    ensures
        file@ == spec_key_file(dir@, stored@),
{
    let mut file = concat3(dir, "/keys/", stored);
    file.append(".key");
    file
}

/// The bytes of a ledger file that stands at `value`.
pub fn ledger_bytes(value: u32) -> (bytes: Vec<u8>)
    ensures
        bytes@ == spec_ledger_bytes(value),
{
    decimal_string(value).as_str().as_bytes_vec()
}

/// The directories of the store at `out_dir` that hold the files of
/// bundles: `certs` and `keys` of each authority.
pub open spec fn spec_file_dirs(out_dir: Seq<char>) -> Seq<Seq<char>> {
    seq![
        spec_authority_dir(out_dir, Authority::Root) + "/certs"@,
        spec_authority_dir(out_dir, Authority::Root) + "/keys"@,
        spec_authority_dir(out_dir, Authority::Etcd) + "/certs"@,
        spec_authority_dir(out_dir, Authority::Etcd) + "/keys"@,
        spec_authority_dir(out_dir, Authority::FrontProxy) + "/certs"@,
        spec_authority_dir(out_dir, Authority::FrontProxy) + "/keys"@,
    ]
}

/// The directories of the store at `out_dir` that hold the files of
/// bundles. A file `name` in one of them, `dir`, is the file `dir/name`.
pub fn file_dirs(out_dir: &str) -> (dirs: Vec<String>)
    ensures
        crate::text::texts(dirs@) == spec_file_dirs(out_dir@),
{
    let root = Authority::Root.dir(out_dir);
    let etcd = Authority::Etcd.dir(out_dir);
    let front = Authority::FrontProxy.dir(out_dir);
    let mut dirs: Vec<String> = Vec::new();
    dirs.push(concat2(root.as_str(), "/certs"));
    dirs.push(concat2(root.as_str(), "/keys"));
    dirs.push(concat2(etcd.as_str(), "/certs"));
    dirs.push(concat2(etcd.as_str(), "/keys"));
    dirs.push(concat2(front.as_str(), "/certs"));
    dirs.push(concat2(front.as_str(), "/keys"));
    assert(crate::text::texts(dirs@) =~= spec_file_dirs(out_dir@));
    dirs
}

/// Decides how the first bootstrap of a store begins: with the making of its
/// directories, unless the store has authorities already. Then nothing is
/// to be done to it at all.
pub fn init_store(config: &Config, root_dir: &str, ca_exists: bool) -> (r: Result<
    Vec<StoreOp>,
    StoreError,
>)
    ensures
        ca_exists ==> r == Err::<Vec<StoreOp>, StoreError>(StoreError::AlreadyBootstrapped),
        !ca_exists ==> (r matches Ok(ops) && ops_view(ops@) == spec_directories(
            config@,
            root_dir@,
        )),
{
    if ca_exists {
        Err(StoreError::AlreadyBootstrapped)
    } else {
        Ok(create_directory_struct(config, root_dir))
    }
}

fn push_authority_dirs(ops: &mut Vec<StoreOp>, root_dir: &str, authority: Authority)
    ensures
        ops_view(final(ops)@) == ops_view(old(ops)@) + spec_authority_dirs(root_dir@, authority),
{
    let dir = authority.dir(root_dir);
    ops.push(StoreOp::MakeDir { path: concat2(dir.as_str(), "/certs") });
    ops.push(StoreOp::MakeDir { path: concat2(dir.as_str(), "/keys") });
    assert(ops_view(ops@) =~= ops_view(old(ops)@) + spec_authority_dirs(root_dir@, authority));
}

fn push_host_dirs(ops: &mut Vec<StoreOp>, root_dir: &str, hosts: &Vec<Instance>)
    ensures
        ops_view(final(ops)@) == ops_view(old(ops)@) + spec_host_dirs(
            root_dir@,
            crate::config_parser::instances(hosts@),
        ),
{
    let ghost before = ops_view(ops@);
    let ghost all = spec_host_dirs(root_dir@, crate::config_parser::instances(hosts@));
    let mut i: usize = 0;
    assert(ops_view(ops@) =~= before + all.take(0));
    while i < hosts.len()
        invariant
            i <= hosts.len(),
            all == spec_host_dirs(root_dir@, crate::config_parser::instances(hosts@)),
            ops_view(ops@) == before + all.take(i as int),
        decreases hosts.len() - i,
    {
        let ghost so_far = ops_view(ops@);
        let name = hosts[i].dir_name();
        ops.push(StoreOp::MakeDir { path: concat3(root_dir, "/", name.as_str()) });
        assert(ops_view(ops@) =~= so_far.push(all[i as int]));
        assert(before + all.take(i + 1) =~= (before + all.take(i as int)).push(all[i as int]));
        i = i + 1;
    }
    assert(all.take(i as int) =~= all);
}

/// The directories that a store for `config` consists of, to be made in this order.
pub fn create_directory_struct(config: &Config, root_dir: &str) -> (ops: Vec<StoreOp>)
    ensures
        ops_view(ops@) == spec_directories(config@, root_dir@),
{
    let mut ops: Vec<StoreOp> = Vec::new();
    assert(ops_view(ops@) =~= Seq::<OpView>::empty());
    push_authority_dirs(&mut ops, root_dir, Authority::Root);
    push_authority_dirs(&mut ops, root_dir, Authority::Etcd);
    push_authority_dirs(&mut ops, root_dir, Authority::FrontProxy);
    let ghost authorities = ops_view(ops@);
    ops.push(StoreOp::MakeDir { path: concat2(root_dir, "/master") });
    ops.push(StoreOp::MakeDir { path: concat2(root_dir, "/users") });
    ops.push(StoreOp::MakeDir { path: concat2(root_dir, "/etcd-users") });
    assert(ops_view(ops@) =~= authorities + seq![
        OpView::MakeDir { path: root_dir@ + "/master"@ },
        OpView::MakeDir { path: root_dir@ + "/users"@ },
        OpView::MakeDir { path: root_dir@ + "/etcd-users"@ },
    ]);
    push_host_dirs(&mut ops, root_dir, &config.worker);
    push_host_dirs(&mut ops, root_dir, &config.etcd_server);
    assert(ops_view(ops@) =~= spec_directories(config@, root_dir@));
    ops
}

/// Decides what is to be written to file `bundle`, issued under `serial`,
/// under the stable name `filename` in the authority directory `out_dir`,
/// given whether its two files exist.
///
/// The certificate, the key and the ledger go together. Where overwriting is
/// not asked for and one of the two files exists, nothing is written, the
/// ledger stays where it stands, and the files that exist are reported.
pub fn write_bundle_to_file(
    bundle: &Bundle,
    serial: u32,
    out_dir: &str,
    filename: &str,
    overwrite: bool,
    crt_exists: bool,
    key_exists: bool,
) -> (plan: WritePlan)
    ensures
        ops_view(plan.ops@) == spec_write_ops(
            bundle.cert@,
            bundle.key@,
            serial,
            out_dir@,
            filename@,
            overwrite,
            crt_exists,
            key_exists,
        ),
        crate::text::texts(plan.conflicts@) == if overwrite {
            Seq::<Seq<char>>::empty()
        } else {
            spec_existing(
                out_dir@,
                spec_stored_name(filename@, serial),
                crt_exists,
                key_exists,
            )
        },
        crate::text::texts(plan.overwritten@) == if overwrite {
            spec_existing(
                out_dir@,
                spec_stored_name(filename@, serial),
                crt_exists,
                key_exists,
            )
        } else {
            Seq::<Seq<char>>::empty()
        },
{
    let stored = stored_name(filename, serial);
    let mut existing: Vec<String> = Vec::new();
    if crt_exists {
        existing.push(crt_file(out_dir, stored.as_str()));
    }
    if key_exists {
        existing.push(key_file(out_dir, stored.as_str()));
    }
    assert(crate::text::texts(existing@) =~= spec_existing(
        out_dir@,
        stored@,
        crt_exists,
        key_exists,
    ));
    let ops: Vec<StoreOp> = if overwrite || !(crt_exists || key_exists) {
        file_ops(bundle, serial, out_dir, stored.as_str())
    } else {
        let none: Vec<StoreOp> = Vec::new();
        assert(ops_view(none@) =~= Seq::<OpView>::empty());
        none
    };
    let none: Vec<String> = Vec::new();
    assert(crate::text::texts(none@) =~= Seq::<Seq<char>>::empty());
    if overwrite {
        WritePlan { ops, conflicts: none, overwritten: existing }
    } else {
        WritePlan { ops, conflicts: existing, overwritten: none }
    }
}

/// The two links that make the bundle filed as `cert_name` under the
/// authority directory `ca_dir` reachable as `dest.key` and `dest.crt`.
/// A link that exists at either place is replaced.
pub fn create_symlink(ca_dir: &str, cert_name: &str, dest: &str) -> (ops: Vec<StoreOp>)
    ensures
        ops_view(ops@) == spec_symlinks(ca_dir@, cert_name@, dest@),
{
    let mut ops: Vec<StoreOp> = Vec::new();
    ops.push(
        StoreOp::Link {
            target: key_file(ca_dir, cert_name),
            path: concat2(dest, ".key"),
            replace: true,
        },
    );
    ops.push(
        StoreOp::Link {
            target: crt_file(ca_dir, cert_name),
            path: concat2(dest, ".crt"),
            replace: true,
        },
    );
    assert(ops_view(ops@) =~= spec_symlinks(ca_dir@, cert_name@, dest@));
    ops
}

} // verus!
