//! The cluster description that certificates are issued from.
//!
//! The values arrive already parsed and validated; nothing here reads a file.

use vstd::prelude::*;
use vstd::string::*;
use crate::text::{opt_text, opt_texts, same_text, texts};

verus! {

/// Everything the issuance needs to know of one cluster.
#[derive(Clone, Debug, PartialEq, Eq)]
pub struct Config {
    pub cluster_name: String,
    pub worker: Vec<Instance>,
    pub etcd_server: Vec<Instance>,
    pub user: Option<Vec<User>>,
    pub etcd_users: Option<Vec<String>>,
    /// Validity of leaf certificates, in days.
    pub validity_days: u32,
    /// Key length of leaf certificates, in bits.
    pub key_size: u32,
    pub ca: Ca,
    /// Names of the API server beyond the built-in ones.
    pub master_san: Vec<String>,
    pub apiserver_internal_address: String,
    pub apiserver_external_address: String,
    /// Whether files that exist may be written over.
    pub overwrite: bool,
    /// The directory that holds the certificate store.
    pub out_dir: String,
}

/// One configured host.
#[derive(Clone, Debug, PartialEq, Eq)]
pub struct Instance {
    /// The name of the host's directory in the store, where it is not the hostname.
    pub filename: Option<String>,
    pub hostname: String,
    pub san: Vec<String>,
}

/// One cluster user.
#[derive(Clone, Debug, PartialEq, Eq)]
pub struct User {
    pub username: String,
    pub group: Option<String>,
}

/// Subject entries, validity and key length of the certificate authorities.
#[derive(Clone, Debug, PartialEq, Eq)]
pub struct Ca {
    pub country: Option<String>,
    pub organization: Option<String>,
    pub organization_unit: Option<String>,
    pub locality: Option<String>,
    pub state_or_province_name: Option<String>,
    pub validity_days: u32,
    pub key_size: u32,
}

/// An `Instance` as mathematical data.
pub ghost struct InstanceView {
    pub filename: Option<Seq<char>>,
    pub hostname: Seq<char>,
    pub san: Seq<Seq<char>>,
}

impl InstanceView {
    /// The name of the host's directory in the store: the file name where
    /// one is configured, else the hostname.
    pub open spec fn dir_name(self) -> Seq<char> {
        match self.filename {
            Some(name) => name,
            None => self.hostname,
        }
    }
}

impl View for Instance {
    type V = InstanceView;

    open spec fn view(&self) -> InstanceView {
        InstanceView {
            filename: opt_text(self.filename),
            hostname: self.hostname@,
            san: texts(self.san@),
        }
    }
}

/// A `User` as mathematical data.
pub ghost struct UserView {
    pub username: Seq<char>,
    pub group: Option<Seq<char>>,
}

impl View for User {
    type V = UserView;

    open spec fn view(&self) -> UserView {
        UserView { username: self.username@, group: opt_text(self.group) }
    }
}

/// A `Ca` as mathematical data.
pub ghost struct CaView {
    pub country: Option<Seq<char>>,
    pub organization: Option<Seq<char>>,
    pub organization_unit: Option<Seq<char>>,
    pub locality: Option<Seq<char>>,
    pub state_or_province_name: Option<Seq<char>>,
    pub validity_days: u32,
    pub key_size: u32,
}

impl View for Ca {
    type V = CaView;

    open spec fn view(&self) -> CaView {
        CaView {
            country: opt_text(self.country),
            organization: opt_text(self.organization),
            organization_unit: opt_text(self.organization_unit),
            locality: opt_text(self.locality),
            state_or_province_name: opt_text(self.state_or_province_name),
            validity_days: self.validity_days,
            key_size: self.key_size,
        }
    }
}

/// The view of each instance of a list.
pub open spec fn instances(v: Seq<Instance>) -> Seq<InstanceView> {
    Seq::new(v.len(), |i: int| v[i]@)
}

/// The view of each user of a list.
pub open spec fn users(v: Seq<User>) -> Seq<UserView> {
    Seq::new(v.len(), |i: int| v[i]@)
}

/// A `Config` as mathematical data.
pub ghost struct ConfigView {
    pub cluster_name: Seq<char>,
    pub worker: Seq<InstanceView>,
    pub etcd_server: Seq<InstanceView>,
    pub user: Option<Seq<UserView>>,
    pub etcd_users: Option<Seq<Seq<char>>>,
    pub validity_days: u32,
    pub key_size: u32,
    pub ca: CaView,
    pub master_san: Seq<Seq<char>>,
    pub apiserver_internal_address: Seq<char>,
    pub apiserver_external_address: Seq<char>,
    pub overwrite: bool,
    pub out_dir: Seq<char>,
}

impl View for Config {
    type V = ConfigView;

    open spec fn view(&self) -> ConfigView {
        ConfigView {
            cluster_name: self.cluster_name@,
            worker: instances(self.worker@),
            etcd_server: instances(self.etcd_server@),
            user: match self.user {
                Some(list) => Some(users(list@)),
                None => None,
            },
            etcd_users: opt_texts(self.etcd_users),
            validity_days: self.validity_days,
            key_size: self.key_size,
            ca: self.ca@,
            master_san: texts(self.master_san@),
            apiserver_internal_address: self.apiserver_internal_address@,
            apiserver_external_address: self.apiserver_external_address@,
            overwrite: self.overwrite,
            out_dir: self.out_dir@,
        }
    }
}

/// The key length of leaf certificates where none is configured.
pub fn cert_key_size() -> (bits: u32)
    ensures
        bits == 2048,
{
    2048
}

/// The key length of certificate authorities where none is configured.
pub fn ca_key_size() -> (bits: u32)
    ensures
        bits == 4096,
{
    4096
}

/// Whether existing files are written over where nothing is configured: they are not.
pub fn overwrite_false() -> (overwrite: bool)
    ensures
        !overwrite,
{
    false
}

/// The store directory where none is configured.
pub fn out_dir() -> (dir: String)
    ensures
        dir@ == "certs"@,
{
    String::from_str("certs")
}

impl Instance {
    /// The name of the host's directory in the store: the file name where
    /// one is configured, else the hostname.
    pub fn dir_name(&self) -> (name: String)
        ensures
            name@ == self@.dir_name(),
    {
        match &self.filename {
            Some(filename) => filename.clone(),
            None => self.hostname.clone(),
        }
    }
}

/// The position of the last instance of `list` with the hostname `hostname`.
pub open spec fn spec_find_instance(list: Seq<InstanceView>, hostname: Seq<char>) -> Option<int>
    decreases list.len(),
{
    if list.len() == 0 {
        None
    } else if list.last().hostname == hostname {
        Some(list.len() - 1)
    } else {
        spec_find_instance(list.drop_last(), hostname)
    }
}

/// `spec_find_instance` finds a host exactly if the list has one of that
/// name, and none of that name stands behind the one it finds.
pub proof fn lemma_find_instance(list: Seq<InstanceView>, hostname: Seq<char>)
    ensures
        match spec_find_instance(list, hostname) {
            Some(k) => 0 <= k < list.len() && list[k].hostname == hostname && forall|j: int|
                k < j < list.len() ==> list[j].hostname != hostname,
            None => forall|j: int| 0 <= j < list.len() ==> list[j].hostname != hostname,
        },
    decreases list.len(),
{
    if list.len() > 0 && list.last().hostname != hostname {
        let front = list.drop_last();
        lemma_find_instance(front, hostname);
        assert forall|j: int| 0 <= j < front.len() implies front[j] == list[j] by {}
        match spec_find_instance(front, hostname) {
            Some(k) => {
                assert forall|j: int| k < j < list.len() implies list[j].hostname != hostname by {
                    if j < front.len() {
                        assert(front[j] == list[j]);
                    }
                }
            },
            None => {
                assert forall|j: int| 0 <= j < list.len() implies list[j].hostname != hostname by {
                    if j < front.len() {
                        assert(front[j] == list[j]);
                    }
                }
            },
        }
    }
}

/// The host with the hostname `hostname`; where several share it, the last of them.
pub fn find_instance<'a>(list: &'a Vec<Instance>, hostname: &str) -> (found: Option<&'a Instance>)
    ensures
        match spec_find_instance(instances(list@), hostname@) {
            Some(k) => found == Some(&list@[k]),
            None => found is None,
        },
{
    let ghost all = instances(list@);
    let mut i: usize = list.len();
    assert(all.take(i as int) =~= all);
    while i > 0
        invariant
            i <= list.len(),
            all == instances(list@),
            spec_find_instance(all, hostname@) == spec_find_instance(all.take(i as int), hostname@),
        decreases i,
    {
        let ghost prefix = all.take(i as int);
        assert(prefix.last() == list@[i - 1]@);
        assert(prefix.drop_last() =~= all.take(i - 1));
        i = i - 1;
        if same_text(list[i].hostname.as_str(), hostname) {
            return Some(&list[i]);
        }
    }
    None
}

} // verus!
