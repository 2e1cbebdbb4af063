//! Issuing certificates: one by one, or those of many roles in one run.
//!
//! One certificate is issued in four steps. `upcoming` says which serial
//! number is next and which files it would be filed in; the caller looks
//! whether they exist. `draw` then refuses, or hands out the number with the
//! operation that writes the ledger down; the caller carries that out
//! before anything is signed, so that a number stays spent whatever becomes
//! of the certificate. `kubernetes_certs::gen_cert` signs, and
//! `kubernetes_certs::file_and_link` says what is to be written.
//!
//! A run takes the same steps for each role in turn, against a list of the
//! files that exist. A role in whose way a file stands is passed over and
//! reported; the run goes on with the next. Nothing is written during the
//! run; the operations come back together, so that a run that fails has
//! written nothing. The ledgers that the caller holds are moved on as the
//! numbers are drawn, and `ledger_ops` writes them down after a run that
//! has failed.

use vstd::prelude::*;
use vstd::string::*;
use crate::cert::{has_name, spec_fresh_bundle, Bundle, BundleView};
use crate::config_parser::{Config, ConfigView};
use crate::error::CertError;
use crate::hierarchy::{CAView, CA};
use crate::kubernetes_certs::{
    all_roles, cert_types, file_and_link, gen_cert, placement, spec_all_roles, spec_authority,
    spec_control_plane,
    spec_dests, spec_filename, spec_filing_ops, spec_links, CertType, CertTypeView, Placement,
};
use crate::ledger::{spec_next_serial, SerialLedger};
use crate::store::{
    crt_file, index_file, key_file, ledger_bytes, ops_view, spec_authority_dir, spec_commits,
    spec_crt_file, spec_existing, spec_index_file, spec_key_file, spec_ledger_bytes,
    spec_stored_name, stored_name, Authority, OpView, StoreOp,
};
use crate::text::texts;

verus! {

/// The ledgers of the three authorities.
#[derive(Clone, Copy, Debug, PartialEq, Eq, Structural)]
pub struct Ledgers {
    pub root: SerialLedger,
    pub etcd: SerialLedger,
    pub front_proxy: SerialLedger,
}

impl Ledgers {
    /// Where the ledger of one authority stands.
    pub open spec fn value(self, authority: Authority) -> u32 {
        match authority {
            Authority::Root => self.root.value,
            Authority::Etcd => self.etcd.value,
            Authority::FrontProxy => self.front_proxy.value,
        }
    }

    /// The ledgers with the ledger of one authority set to `value`.
    pub open spec fn with(self, authority: Authority, value: u32) -> Ledgers {
        match authority {
            Authority::Root => Ledgers { root: SerialLedger { value }, ..self },
            Authority::Etcd => Ledgers { etcd: SerialLedger { value }, ..self },
            Authority::FrontProxy => Ledgers { front_proxy: SerialLedger { value }, ..self },
        }
    }

    /// The ledgers of a new store: each stands at 0.
    pub fn fresh() -> (ledgers: Ledgers)
        ensures
            forall|authority: Authority| ledgers.value(authority) == 0,
    {
        Ledgers {
            root: SerialLedger::bootstrap(),
            etcd: SerialLedger::bootstrap(),
            front_proxy: SerialLedger::bootstrap(),
        }
    }

    /// The ledger of one authority.
    pub fn get(&self, authority: Authority) -> (ledger: SerialLedger)
        ensures
            ledger.value == self.value(authority),
    {
        match authority {
            Authority::Root => self.root,
            Authority::Etcd => self.etcd,
            Authority::FrontProxy => self.front_proxy,
        }
    }

    /// Puts `ledger` in the place of the ledger of one authority.
    pub fn set(&mut self, authority: Authority, ledger: SerialLedger)
        ensures
            *final(self) == old(self).with(authority, ledger.value),
    {
        match authority {
            Authority::Root => {
                self.root = ledger;
            },
            Authority::Etcd => {
                self.etcd = ledger;
            },
            Authority::FrontProxy => {
                self.front_proxy = ledger;
            },
        }
    }
}

/// The serial number that is next under an authority, and the files that
/// the bundle of a role would be filed in under it.
#[derive(Clone, Debug, PartialEq, Eq)]
pub struct Upcoming {
    pub serial: u32,
    /// The certificate file.
    pub crt: String,
    /// The key file.
    pub key: String,
}

/// A serial number that was drawn, with the operation that writes the
/// ledger down at it.
#[derive(Clone, Debug, PartialEq, Eq)]
pub struct Draw {
    pub serial: u32,
    pub op: StoreOp,
}

/// The certificate file of the bundle filed at a place under `serial`.
pub open spec fn spec_crt_at(
    out_dir: Seq<char>,
    authority: Authority,
    filename: Seq<char>,
    serial: u32,
) -> Seq<char> {
    spec_crt_file(spec_authority_dir(out_dir, authority), spec_stored_name(filename, serial))
}

/// The key file of the bundle filed at a place under `serial`.
pub open spec fn spec_key_at(
    out_dir: Seq<char>,
    authority: Authority,
    filename: Seq<char>,
    serial: u32,
) -> Seq<char> {
    spec_key_file(spec_authority_dir(out_dir, authority), spec_stored_name(filename, serial))
}

/// Says which serial number the next draw from `ledger` hands out, and in
/// which files the bundle for `place` would then be filed. There is none
/// where the ledger is exhausted.
pub fn upcoming(ledger: &SerialLedger, place: &Placement, out_dir: &str) -> (r: Option<Upcoming>)
    ensures
        match spec_next_serial(ledger.value) {
            Some(serial) => r matches Some(u) && u.serial == serial && u.crt@ == spec_crt_at(
                out_dir@,
                place.authority,
                place.filename@,
                serial,
            ) && u.key@ == spec_key_at(out_dir@, place.authority, place.filename@, serial),
            None => r is None,
        },
{
    if ledger.value == u32::MAX {
        return None;
    }
    let serial: u32 = ledger.value + 1;
    let dir = place.authority.dir(out_dir);
    let stored = stored_name(place.filename.as_str(), serial);
    Some(
        Upcoming {
            serial,
            crt: crt_file(dir.as_str(), stored.as_str()),
            key: key_file(dir.as_str(), stored.as_str()),
        },
    )
}

/// Draws the next serial number from the ledger of the authority directory
/// `dir`, unless the certificate could not be filed under it.
///
/// `crt_exists` and `key_exists` say whether the files of `upcoming`
/// exist. Where one does and overwriting is not asked for, nothing is
/// drawn: the ledger stays where it stands. An exhausted ledger stays too.
/// A number that is drawn is spent; the operation that comes with it sets
/// the ledger file to it.
pub fn draw(
    ledger: &mut SerialLedger,
    dir: &str,
    overwrite: bool,
    crt_exists: bool,
    key_exists: bool,
) -> (r: Result<Draw, CertError>)
    ensures
        match spec_next_serial(old(ledger).value) {
            None => r matches Err(CertError::SerialsExhausted) && *final(ledger) == *old(ledger),
            Some(serial) => if spec_commits(overwrite, crt_exists, key_exists) {
                r matches Ok(d) && d.serial == serial && final(ledger).value == serial && d.op@
                    == (OpView::UpdateFile {
                    path: spec_index_file(dir@),
                    contents: spec_ledger_bytes(serial),
                })
            } else {
                r matches Err(CertError::FileExists) && *final(ledger) == *old(ledger)
            },
        },
{
    if ledger.value == u32::MAX {
        return Err(CertError::SerialsExhausted);
    }
    if !(overwrite || !(crt_exists || key_exists)) {
        return Err(CertError::FileExists);
    }
    match ledger.next_serial() {
        Ok(serial) => Ok(
            Draw {
                serial,
                op: StoreOp::UpdateFile { path: index_file(dir), contents: ledger_bytes(serial) },
            },
        ),
        Err(_) => Err(CertError::SerialsExhausted),
    }
}

/// The operations that set the three ledger files of a store to `ledgers`.
pub open spec fn spec_ledger_ops(ledgers: Ledgers, out_dir: Seq<char>) -> Seq<OpView> {
    seq![
        OpView::UpdateFile {
            path: spec_index_file(spec_authority_dir(out_dir, Authority::Root)),
            contents: spec_ledger_bytes(ledgers.root.value),
        },
        OpView::UpdateFile {
            path: spec_index_file(spec_authority_dir(out_dir, Authority::Etcd)),
            contents: spec_ledger_bytes(ledgers.etcd.value),
        },
        OpView::UpdateFile {
            path: spec_index_file(spec_authority_dir(out_dir, Authority::FrontProxy)),
            contents: spec_ledger_bytes(ledgers.front_proxy.value),
        },
    ]
}

/// The operations that write the three ledgers of the store at `out_dir`
/// down as they stand in `ledgers`.
pub fn ledger_ops(ledgers: &Ledgers, out_dir: &str) -> (ops: Vec<StoreOp>)
    ensures
        ops_view(ops@) == spec_ledger_ops(*ledgers, out_dir@),
{
    let mut ops: Vec<StoreOp> = Vec::new();
    let root = Authority::Root.dir(out_dir);
    let etcd = Authority::Etcd.dir(out_dir);
    let front = Authority::FrontProxy.dir(out_dir);
    ops.push(
        StoreOp::UpdateFile {
            path: index_file(root.as_str()),
            contents: ledger_bytes(ledgers.root.value),
        },
    );
    ops.push(
        StoreOp::UpdateFile {
            path: index_file(etcd.as_str()),
            contents: ledger_bytes(ledgers.etcd.value),
        },
    );
    ops.push(
        StoreOp::UpdateFile {
            path: index_file(front.as_str()),
            contents: ledger_bytes(ledgers.front_proxy.value),
        },
    );
    assert(ops_view(ops@) =~= spec_ledger_ops(*ledgers, out_dir@));
    ops
}

/// What a run has issued, and what is to be written for it.
pub struct Issuance {
    /// The outcome for each role, in the order of the roles: the bundle
    /// that was issued, or none where a file of the role exists and
    /// overwriting was not asked for.
    pub bundles: Vec<Option<Box<Bundle>>>,
    /// The operations that file and link the bundles, in the order of the roles.
    pub ops: Vec<StoreOp>,
    /// The files that exist and stood in the way of a role, in the order of
    /// the roles.
    pub conflicts: Vec<String>,
}

/// The view of each outcome of a list.
pub open spec fn outcome_views(outcomes: Seq<Option<Box<Bundle>>>) -> Seq<Option<BundleView>> {
    Seq::new(
        outcomes.len(),
        |i: int|
            match outcomes[i] {
                Some(b) => Some(b@),
                None => None,
            },
    )
}

/// Whether the bundle of a role can be filed under `serial` in a store that
/// holds the files `existing`: always where overwriting is asked for, and
/// else only where neither of its two files exists.
pub open spec fn spec_role_clear(
    t: CertTypeView,
    config: ConfigView,
    serial: u32,
    existing: Seq<Seq<char>>,
) -> bool {
    spec_commits(
        config.overwrite,
        existing.contains(spec_crt_at(config.out_dir, spec_authority(t), spec_filename(t), serial)),
        existing.contains(spec_key_at(config.out_dir, spec_authority(t), spec_filename(t), serial)),
    )
}

/// Whether the ledger that the role `t` draws from is exhausted.
pub open spec fn spec_exhausted(ledgers: Ledgers, t: CertTypeView) -> bool {
    ledgers.value(spec_authority(t)) == u32::MAX
}

/// The serial number that is drawn for the role `t` where the ledgers stand
/// at `ledgers`: the next one of its authority, unless the ledger is
/// exhausted or a file of the role under that number stands in the way.
pub open spec fn spec_drawn(
    ledgers: Ledgers,
    t: CertTypeView,
    config: ConfigView,
    existing: Seq<Seq<char>>,
) -> Option<u32> {
    match spec_next_serial(ledgers.value(spec_authority(t))) {
        Some(serial) => if spec_role_clear(t, config, serial, existing) {
            Some(serial)
        } else {
            None
        },
        None => None,
    }
}

/// The files that stand in the way of the role `t` where the ledgers stand
/// at `ledgers`: none where a serial number is drawn for it, and none where
/// its ledger is exhausted.
pub open spec fn spec_role_conflicts(
    ledgers: Ledgers,
    t: CertTypeView,
    config: ConfigView,
    existing: Seq<Seq<char>>,
) -> Seq<Seq<char>> {
    match spec_next_serial(ledgers.value(spec_authority(t))) {
        Some(serial) => if spec_role_clear(t, config, serial, existing) {
            Seq::empty()
        } else {
            spec_existing(
                spec_authority_dir(config.out_dir, spec_authority(t)),
                spec_stored_name(spec_filename(t), serial),
                existing.contains(
                    spec_crt_at(config.out_dir, spec_authority(t), spec_filename(t), serial),
                ),
                existing.contains(
                    spec_key_at(config.out_dir, spec_authority(t), spec_filename(t), serial),
                ),
            )
        },
        None => Seq::empty(),
    }
}

/// Where the ledgers stand after the role `t` had its turn.
pub open spec fn spec_step(
    ledgers: Ledgers,
    t: CertTypeView,
    config: ConfigView,
    existing: Seq<Seq<char>>,
) -> Ledgers {
    match spec_drawn(ledgers, t, config, existing) {
        Some(serial) => ledgers.with(spec_authority(t), serial),
        None => ledgers,
    }
}

/// Where the ledgers stand after each of `roles` had its turn, in a run
/// that begins with the ledgers at `start`.
pub open spec fn spec_ledgers_after(
    roles: Seq<CertTypeView>,
    config: ConfigView,
    start: Ledgers,
    existing: Seq<Seq<char>>,
) -> Ledgers
    decreases roles.len(),
{
    if roles.len() == 0 {
        start
    } else {
        spec_step(
            spec_ledgers_after(roles.drop_last(), config, start, existing),
            roles.last(),
            config,
            existing,
        )
    }
}

/// Where the ledgers stand when the role at position `i` has its turn.
pub open spec fn spec_ledgers_at(
    roles: Seq<CertTypeView>,
    config: ConfigView,
    start: Ledgers,
    existing: Seq<Seq<char>>,
    i: int,
) -> Ledgers {
    spec_ledgers_after(roles.take(i), config, start, existing)
}

/// What files and links the bundle of one role: the two files and the
/// ledger of its authority, then the links at its stable names.
pub open spec fn spec_role_ops(t: CertTypeView, config: ConfigView, bundle: BundleView) -> Seq<
    OpView,
> {
    spec_filing_ops(
        spec_authority(t),
        spec_filename(t),
        spec_dests(t, config),
        config.out_dir,
        bundle,
        bundle.serial_number->0,
    )
}

/// What files and links the bundles of a run, role by role.
pub open spec fn spec_run_ops(
    roles: Seq<CertTypeView>,
    config: ConfigView,
    outcomes: Seq<Option<BundleView>>,
) -> Seq<OpView>
    decreases roles.len(),
{
    if roles.len() == 0 || outcomes.len() == 0 {
        Seq::empty()
    } else {
        spec_run_ops(roles.drop_last(), config, outcomes.drop_last()) + match outcomes.last() {
            Some(bundle) => spec_role_ops(roles.last(), config, bundle),
            None => Seq::empty(),
        }
    }
}

/// The files that stand in the way of the roles of a run, role by role.
pub open spec fn spec_run_conflicts(
    roles: Seq<CertTypeView>,
    config: ConfigView,
    start: Ledgers,
    existing: Seq<Seq<char>>,
) -> Seq<Seq<char>>
    decreases roles.len(),
{
    if roles.len() == 0 {
        Seq::empty()
    } else {
        spec_run_conflicts(roles.drop_last(), config, start, existing) + spec_role_conflicts(
            spec_ledgers_after(roles.drop_last(), config, start, existing),
            roles.last(),
            config,
            existing,
        )
    }
}

/// What holds of the outcomes and the ledgers of a run that has come to its
/// end.
///
/// There is one outcome for each role. No ledger was exhausted when a role
/// had its turn. A role for which a serial number is drawn has a bundle,
/// with that number and the certificate of the role's authority on record;
/// the numbers of an authority run on from its ledger without gap or
/// repeat. A role in whose way a file stands has no bundle, and nothing is
/// drawn for it. The ledgers stand where the draws have left them.
pub open spec fn spec_run_issued(
    roles: Seq<CertTypeView>,
    config: ConfigView,
    ca: CAView,
    start: Ledgers,
    end: Ledgers,
    existing: Seq<Seq<char>>,
    outcomes: Seq<Option<Box<Bundle>>>,
) -> bool {
    &&& outcomes.len() == roles.len()
    &&& forall|i: int|
        0 <= i < roles.len() ==> !spec_exhausted(
            #[trigger] spec_ledgers_at(roles, config, start, existing, i),
            roles[i],
        )
    &&& forall|i: int|
        0 <= i < roles.len() ==> match spec_drawn(
            spec_ledgers_at(roles, config, start, existing, i),
            roles[i],
            config,
            existing,
        ) {
            Some(serial) => (#[trigger] outcomes[i]) matches Some(b) && spec_fresh_bundle(
                b@,
                serial,
                Some(ca.bundle(spec_authority(roles[i]))),
            ),
            None => outcomes[i] is None,
        }
    &&& end == spec_ledgers_after(roles, config, start, existing)
}

/// What holds of a run that has come to its end: of its outcomes and
/// ledgers what `spec_run_issued` says, and its operations and conflicts
/// are those of its roles in turn.
pub open spec fn spec_run_done(
    roles: Seq<CertTypeView>,
    config: ConfigView,
    ca: CAView,
    start: Ledgers,
    end: Ledgers,
    existing: Seq<Seq<char>>,
    out: Issuance,
) -> bool {
    &&& spec_run_issued(roles, config, ca, start, end, existing, out.bundles@)
    &&& ops_view(out.ops@) == spec_run_ops(roles, config, outcome_views(out.bundles@))
    &&& texts(out.conflicts@) == spec_run_conflicts(roles, config, start, existing)
}

/// Whether none of the first `n` roles of a run has anything signed: for
/// each of them, with the ledgers where the run begins, a file stands in
/// the way and its ledger is not exhausted.
pub open spec fn spec_quiet(
    roles: Seq<CertTypeView>,
    config: ConfigView,
    start: Ledgers,
    existing: Seq<Seq<char>>,
    n: int,
) -> bool {
    forall|j: int|
        0 <= j < n && j < roles.len() ==> spec_drawn(start, #[trigger] roles[j], config, existing)
            is None && !spec_exhausted(start, roles[j])
}

/// Whether a run ends at an exhausted ledger before anything is signed:
/// some role finds its ledger exhausted where the run begins, and none of
/// the roles before it has anything signed.
pub open spec fn spec_ends_exhausted(
    roles: Seq<CertTypeView>,
    config: ConfigView,
    start: Ledgers,
    existing: Seq<Seq<char>>,
) -> bool {
    exists|i: int|
        0 <= i < roles.len() && spec_quiet(roles, config, start, existing, i) && spec_exhausted(
            start,
            #[trigger] roles[i],
        )
}

/// What a run owes before it has anything signed, and whatever comes back.
///
/// No ledger ever moves back. Where no role has anything signed, because a
/// file stands in the way of each, the ledgers stay as they are. Where a
/// role finds its ledger exhausted before anything was signed, the run ends
/// with `SerialsExhausted` and leaves the ledgers as they are. The run ends
/// with `SerialsExhausted` only at a role whose ledger is exhausted when it
/// has its turn, and with no other error than those of the signing.
pub open spec fn spec_run_owed(
    roles: Seq<CertTypeView>,
    config: ConfigView,
    start: Ledgers,
    end: Ledgers,
    existing: Seq<Seq<char>>,
    r: Result<Issuance, CertError>,
) -> bool {
    &&& forall|authority: Authority| end.value(authority) >= start.value(authority)
    &&& spec_quiet(roles, config, start, existing, roles.len() as int) ==> end == start
    &&& spec_ends_exhausted(roles, config, start, existing) ==> (r matches Err(
        CertError::SerialsExhausted,
    )) && end == start
    &&& r matches Err(e) ==> e is SerialsExhausted || e is InputTooLong || e is ValidityTooLong
        || e is Crypto
    &&& (r matches Err(CertError::SerialsExhausted)) ==> exists|i: int|
        0 <= i < roles.len() && spec_exhausted(
            #[trigger] spec_ledgers_at(roles, config, start, existing, i),
            roles[i],
        ) && end == spec_ledgers_at(roles, config, start, existing, i)
}

/// What holds of a run that ends because a signing failed: the serial
/// number that was drawn for the role stays spent. The ledgers stand where
/// the draw for that role has left them.
pub open spec fn spec_run_spent(
    roles: Seq<CertTypeView>,
    config: ConfigView,
    start: Ledgers,
    end: Ledgers,
    existing: Seq<Seq<char>>,
) -> bool {
    exists|i: int|
        0 <= i < roles.len() && spec_drawn(
            #[trigger] spec_ledgers_at(roles, config, start, existing, i),
            roles[i],
            config,
            existing,
        ) is Some && end == spec_ledgers_at(roles, config, start, existing, i + 1)
}

/// The bundle of a role is written into the directory of the authority
/// that signs it, and nowhere else.
///
/// What files and links the bundle of a role begins with three operations:
/// the certificate file and the key file under the role's authority, named
/// by the stable name and the serial number, and that authority's ledger.
/// Every operation after them places a link.
pub proof fn lemma_role_writes_under_its_authority(
    t: CertTypeView,
    config: ConfigView,
    bundle: BundleView,
    k: int,
)
    requires
        0 <= k < spec_role_ops(t, config, bundle).len(),
    ensures
        ({
            let ops = spec_role_ops(t, config, bundle);
            let dir = spec_authority_dir(config.out_dir, spec_authority(t));
            let serial = bundle.serial_number->0;
            &&& ops.len() >= 3
            &&& ops[0] == (OpView::WriteFile {
                path: spec_crt_at(config.out_dir, spec_authority(t), spec_filename(t), serial),
                contents: bundle.cert,
            })
            &&& ops[1] == (OpView::WriteFile {
                path: spec_key_at(config.out_dir, spec_authority(t), spec_filename(t), serial),
                contents: bundle.key,
            })
            &&& ops[2] == (OpView::UpdateFile {
                path: spec_index_file(dir),
                contents: spec_ledger_bytes(serial),
            })
            &&& k >= 3 ==> ops[k] is Link
        }),
{
    let authority = spec_authority(t);
    let name = spec_stored_name(spec_filename(t), bundle.serial_number->0);
    lemma_links_are_links(authority, name, spec_dests(t, config), k - 3);
}

/// Every operation that places the links of a bundle is a link.
pub proof fn lemma_links_are_links(
    authority: Authority,
    name: Seq<char>,
    dests: Seq<Seq<char>>,
    k: int,
)
    ensures
        0 <= k < spec_links(authority, name, dests).len() ==> spec_links(authority, name, dests)[k]
            is Link,
    decreases dests.len(),
{
    if dests.len() > 0 {
        lemma_links_are_links(authority, name, dests.drop_last(), k);
    }
}

/// The ledgers after one role more are those after the turn of that role.
pub proof fn lemma_ledgers_step(
    roles: Seq<CertTypeView>,
    config: ConfigView,
    start: Ledgers,
    existing: Seq<Seq<char>>,
    i: int,
)
    requires
        0 <= i < roles.len(),
    ensures
        spec_ledgers_at(roles, config, start, existing, i + 1) == spec_step(
            spec_ledgers_at(roles, config, start, existing, i),
            roles[i],
            config,
            existing,
        ),
{
    let next = roles.take(i + 1);
    assert(next.drop_last() =~= roles.take(i));
    assert(next.last() == roles[i]);
}

/// No ledger moves back in the course of a run.
pub proof fn lemma_ledgers_rise(
    roles: Seq<CertTypeView>,
    config: ConfigView,
    start: Ledgers,
    existing: Seq<Seq<char>>,
    i: int,
    j: int,
    authority: Authority,
)
    requires
        0 <= i <= j <= roles.len(),
    ensures
        spec_ledgers_at(roles, config, start, existing, i).value(authority) <= spec_ledgers_at(
            roles,
            config,
            start,
            existing,
            j,
        ).value(authority),
    decreases j - i,
{
    if i < j {
        lemma_ledgers_rise(roles, config, start, existing, i, j - 1, authority);
        lemma_ledgers_step(roles, config, start, existing, j - 1);
    }
}

/// Within a run, a later certificate of an authority has a greater serial
/// number than an earlier one, and both are greater than the ledger was.
pub proof fn lemma_serials_rise(
    roles: Seq<CertTypeView>,
    config: ConfigView,
    start: Ledgers,
    existing: Seq<Seq<char>>,
    i: int,
    j: int,
)
    requires
        0 <= i < j < roles.len(),
        spec_authority(roles[i]) == spec_authority(roles[j]),
        spec_drawn(spec_ledgers_at(roles, config, start, existing, i), roles[i], config, existing)
            is Some,
        spec_drawn(spec_ledgers_at(roles, config, start, existing, j), roles[j], config, existing)
            is Some,
    ensures
        ({
            let first = spec_drawn(
                spec_ledgers_at(roles, config, start, existing, i),
                roles[i],
                config,
                existing,
            )->0;
            let second = spec_drawn(
                spec_ledgers_at(roles, config, start, existing, j),
                roles[j],
                config,
                existing,
            )->0;
            start.value(spec_authority(roles[i])) < first < second
        }),
{
    let authority = spec_authority(roles[i]);
    lemma_ledgers_rise(roles, config, start, existing, 0, i, authority);
    assert(roles.take(0) =~= Seq::<CertTypeView>::empty());
    lemma_ledgers_step(roles, config, start, existing, i);
    lemma_ledgers_rise(roles, config, start, existing, i + 1, j, authority);
}

/// While no role has anything signed, the ledgers stay where the run began.
pub proof fn lemma_quiet_keeps_ledgers(
    roles: Seq<CertTypeView>,
    config: ConfigView,
    start: Ledgers,
    existing: Seq<Seq<char>>,
    n: int,
)
    requires
        0 <= n <= roles.len(),
        spec_quiet(roles, config, start, existing, n),
    ensures
        spec_ledgers_at(roles, config, start, existing, n) == start,
    decreases n,
{
    if n == 0 {
        assert(roles.take(0) =~= Seq::<CertTypeView>::empty());
    } else {
        lemma_quiet_keeps_ledgers(roles, config, start, existing, n - 1);
        lemma_ledgers_step(roles, config, start, existing, n - 1);
        assert(spec_drawn(start, roles[n - 1], config, existing) is None);
    }
}

/// Where nothing stands in the way, every role draws the next serial
/// number of its authority: that is so where overwriting is asked for, and
/// in a store that holds no file yet.
pub proof fn lemma_clear_draw(
    ledgers: Ledgers,
    t: CertTypeView,
    config: ConfigView,
    existing: Seq<Seq<char>>,
)
    requires
        config.overwrite || existing.len() == 0,
    ensures
        spec_drawn(ledgers, t, config, existing) == spec_next_serial(
            ledgers.value(spec_authority(t)),
        ),
{
}

/// Who signs the control plane, and under which serial numbers.
///
/// Of the eight roles of the control plane, the API server's client
/// certificate for etcd is signed by the etcd authority, the front proxy's
/// client certificate by the front proxy authority, and the six others by
/// the root. In a run over the control plane in which nothing stands in the
/// way, the six take the first six serial numbers after the root's ledger,
/// in their order, and the two others each the first after the ledger of
/// their authority.
pub proof fn lemma_control_plane_run(start: Ledgers, config: ConfigView, existing: Seq<Seq<char>>)
    requires
        config.overwrite || existing.len() == 0,
        start.value(Authority::Root) + 6 <= u32::MAX,
        start.value(Authority::Etcd) + 1 <= u32::MAX,
        start.value(Authority::FrontProxy) + 1 <= u32::MAX,
    ensures
        ({
            let roles = spec_control_plane();
            let root = start.value(Authority::Root);
            let drawn = |i: int|
                spec_drawn(
                    spec_ledgers_at(roles, config, start, existing, i),
                    roles[i],
                    config,
                    existing,
                );
            &&& roles.len() == 8
            &&& spec_authority(roles[0]) == Authority::Root && drawn(0) == Some((root + 1) as u32)
            &&& spec_authority(roles[1]) == Authority::Root && drawn(1) == Some((root + 2) as u32)
            &&& spec_authority(roles[2]) == Authority::Root && drawn(2) == Some((root + 3) as u32)
            &&& spec_authority(roles[3]) == Authority::Etcd && drawn(3) == Some(
                (start.value(Authority::Etcd) + 1) as u32,
            )
            &&& spec_authority(roles[4]) == Authority::Root && drawn(4) == Some((root + 4) as u32)
            &&& spec_authority(roles[5]) == Authority::Root && drawn(5) == Some((root + 5) as u32)
            &&& spec_authority(roles[6]) == Authority::FrontProxy && drawn(6) == Some(
                (start.value(Authority::FrontProxy) + 1) as u32,
            )
            &&& spec_authority(roles[7]) == Authority::Root && drawn(7) == Some((root + 6) as u32)
        }),
{
    let roles = spec_control_plane();
    assert(roles.take(0) =~= Seq::<CertTypeView>::empty());
    assert(spec_ledgers_at(roles, config, start, existing, 0) == start);
    lemma_ledgers_step(roles, config, start, existing, 0);
    lemma_clear_draw(spec_ledgers_at(roles, config, start, existing, 0), roles[0], config, existing);
    lemma_ledgers_step(roles, config, start, existing, 1);
    lemma_clear_draw(spec_ledgers_at(roles, config, start, existing, 1), roles[1], config, existing);
    lemma_ledgers_step(roles, config, start, existing, 2);
    lemma_clear_draw(spec_ledgers_at(roles, config, start, existing, 2), roles[2], config, existing);
    lemma_ledgers_step(roles, config, start, existing, 3);
    lemma_clear_draw(spec_ledgers_at(roles, config, start, existing, 3), roles[3], config, existing);
    lemma_ledgers_step(roles, config, start, existing, 4);
    lemma_clear_draw(spec_ledgers_at(roles, config, start, existing, 4), roles[4], config, existing);
    lemma_ledgers_step(roles, config, start, existing, 5);
    lemma_clear_draw(spec_ledgers_at(roles, config, start, existing, 5), roles[5], config, existing);
    lemma_ledgers_step(roles, config, start, existing, 6);
    lemma_clear_draw(spec_ledgers_at(roles, config, start, existing, 6), roles[6], config, existing);
    lemma_clear_draw(spec_ledgers_at(roles, config, start, existing, 7), roles[7], config, existing);
}

/// What a run that ends at the role at position `i` owes, seen from the
/// state of the run at that role.
proof fn lemma_owed_at_exit(
    roles: Seq<CertTypeView>,
    config: ConfigView,
    start: Ledgers,
    now: Ledgers,
    existing: Seq<Seq<char>>,
    i: int,
)
    requires
        0 <= i < roles.len(),
        now == spec_ledgers_at(roles, config, start, existing, i),
        forall|k: int|
            0 <= k < i ==> !spec_exhausted(
                #[trigger] spec_ledgers_at(roles, config, start, existing, k),
                roles[k],
            ),
    ensures
        spec_exhausted(now, roles[i]) ==> !spec_quiet(
            roles,
            config,
            start,
            existing,
            roles.len() as int,
        ) && (spec_ends_exhausted(roles, config, start, existing) ==> now == start),
        spec_drawn(now, roles[i], config, existing) is Some ==> !spec_quiet(
            roles,
            config,
            start,
            existing,
            roles.len() as int,
        ) && !spec_ends_exhausted(roles, config, start, existing),
{
    if spec_quiet(roles, config, start, existing, roles.len() as int) {
        assert(spec_quiet(roles, config, start, existing, i));
        lemma_quiet_keeps_ledgers(roles, config, start, existing, i);
        assert(spec_drawn(start, roles[i], config, existing) is None);
        assert(!spec_exhausted(start, roles[i]));
    }
    if spec_ends_exhausted(roles, config, start, existing) {
        let k = choose|k: int|
            0 <= k < roles.len() && spec_quiet(roles, config, start, existing, k)
                && spec_exhausted(start, #[trigger] roles[k]);
        lemma_quiet_keeps_ledgers(roles, config, start, existing, k);
        if k < i {
            assert(!spec_exhausted(spec_ledgers_at(roles, config, start, existing, k), roles[k]));
        } else {
            assert(spec_quiet(roles, config, start, existing, i));
            lemma_quiet_keeps_ledgers(roles, config, start, existing, i);
            if k > i {
                assert(spec_drawn(start, roles[i], config, existing) is None);
                assert(!spec_exhausted(start, roles[i]));
            }
        }
    }
}

/// What a run that has gone through all its roles owes.
proof fn lemma_owed_at_end(
    roles: Seq<CertTypeView>,
    config: ConfigView,
    start: Ledgers,
    existing: Seq<Seq<char>>,
)
    requires
        forall|k: int|
            0 <= k < roles.len() ==> !spec_exhausted(
                #[trigger] spec_ledgers_at(roles, config, start, existing, k),
                roles[k],
            ),
    ensures
        !spec_ends_exhausted(roles, config, start, existing),
        spec_quiet(roles, config, start, existing, roles.len() as int) ==> spec_ledgers_after(
            roles,
            config,
            start,
            existing,
        ) == start,
{
    if spec_ends_exhausted(roles, config, start, existing) {
        let k = choose|k: int|
            0 <= k < roles.len() && spec_quiet(roles, config, start, existing, k)
                && spec_exhausted(start, #[trigger] roles[k]);
        lemma_quiet_keeps_ledgers(roles, config, start, existing, k);
        assert(!spec_exhausted(spec_ledgers_at(roles, config, start, existing, k), roles[k]));
    }
    if spec_quiet(roles, config, start, existing, roles.len() as int) {
        lemma_quiet_keeps_ledgers(roles, config, start, existing, roles.len() as int);
        assert(roles.take(roles.len() as int) =~= roles);
    }
}

/// Issues the certificates of `roles`, in order, and says how they are
/// filed and linked.
///
/// `ledgers` holds the ledgers of the three authorities, and `existing`
/// names the files that the authority directories hold. Each role takes the
/// next serial number of the authority that signs it. A role in whose way a
/// file stands, where overwriting is not asked for, is passed over: nothing
/// is drawn or signed for it, its files are reported, and the run goes on.
/// The run ends at the first role whose ledger is exhausted or whose
/// signing fails. The serial numbers drawn until then stay spent: no ledger
/// ever moves back.
pub fn issue_roles(
    ca: &CA,
    config: &Config,
    roles: &Vec<CertType>,
    ledgers: &mut Ledgers,
    existing: &Vec<String>,
) -> (r: Result<Issuance, CertError>)
    ensures
        spec_run_owed(
            cert_types(roles@),
            config@,
            *old(ledgers),
            *final(ledgers),
            texts(existing@),
            r,
        ),
        spec_quiet(
            cert_types(roles@),
            config@,
            *old(ledgers),
            texts(existing@),
            roles@.len() as int,
        ) ==> r is Ok,
        r matches Err(e) && !(e is SerialsExhausted) ==> spec_run_spent(
            cert_types(roles@),
            config@,
            *old(ledgers),
            *final(ledgers),
            texts(existing@),
        ),
        r matches Ok(out) ==> spec_run_done(
            cert_types(roles@),
            config@,
            ca@,
            *old(ledgers),
            *final(ledgers),
            texts(existing@),
            out,
        ),
{
    let ghost all = cert_types(roles@);
    let ghost start = *ledgers;
    let ghost files = texts(existing@);
    let mut bundles: Vec<Option<Box<Bundle>>> = Vec::new();
    let mut ops: Vec<StoreOp> = Vec::new();
    let mut conflicts: Vec<String> = Vec::new();
    let mut i: usize = 0;
    proof {
        assert(all.take(0) =~= Seq::<CertTypeView>::empty());
        assert(ops_view(ops@) =~= Seq::<OpView>::empty());
        assert(texts(conflicts@) =~= Seq::<Seq<char>>::empty());
    }
    while i < roles.len()
        invariant
            i <= roles.len(),
            all == cert_types(roles@),
            files == texts(existing@),
            start == *old(ledgers),
            bundles@.len() == i,
            *ledgers == spec_ledgers_at(all, config@, start, files, i as int),
            forall|authority: Authority| ledgers.value(authority) >= start.value(authority),
            forall|k: int|
                0 <= k < i ==> !spec_exhausted(
                    #[trigger] spec_ledgers_at(all, config@, start, files, k),
                    all[k],
                ),
            forall|k: int|
                0 <= k < i ==> match spec_drawn(
                    spec_ledgers_at(all, config@, start, files, k),
                    all[k],
                    config@,
                    files,
                ) {
                    Some(serial) => (#[trigger] bundles@[k]) matches Some(b) && spec_fresh_bundle(
                        b@,
                        serial,
                        Some(ca@.bundle(spec_authority(all[k]))),
                    ),
                    None => bundles@[k] is None,
                },
            ops_view(ops@) == spec_run_ops(all.take(i as int), config@, outcome_views(bundles@)),
            texts(conflicts@) == spec_run_conflicts(all.take(i as int), config@, start, files),
        decreases roles.len() - i,
    {
        let role = &roles[i];
        let place = placement(role, config);
        let mut ledger = ledgers.get(place.authority);
        let ghost now = *ledgers;
        proof {
            assert(all[i as int] == role@);
            lemma_ledgers_step(all, config@, start, files, i as int);
            lemma_owed_at_exit(all, config@, start, now, files, i as int);
            let longer = all.take(i + 1);
            assert(longer.drop_last() =~= all.take(i as int));
            assert(longer.last() == role@);
        }
        let next = match upcoming(&ledger, &place, config.out_dir.as_str()) {
            Some(next) => next,
            None => {
                return Err(CertError::SerialsExhausted);
            },
        };
        let crt_exists = has_name(existing, next.crt.as_str());
        let key_exists = has_name(existing, next.key.as_str());
        let dir = place.authority.dir(config.out_dir.as_str());
        let ghost old_views = outcome_views(bundles@);
        let ghost so_far = ops_view(ops@);
        let ghost reported = texts(conflicts@);
        match draw(&mut ledger, dir.as_str(), config.overwrite, crt_exists, key_exists) {
            Ok(drawn) => {
                ledgers.set(place.authority, ledger);
                let bundle = match gen_cert(ca, config, role, drawn.serial) {
                    Ok(bundle) => bundle,
                    Err(e) => {
                        proof {
                            assert(spec_drawn(
                                spec_ledgers_at(all, config@, start, files, i as int),
                                all[i as int],
                                config@,
                                files,
                            ) is Some);
                            assert(*ledgers == spec_ledgers_at(
                                all,
                                config@,
                                start,
                                files,
                                i as int + 1,
                            ));
                        }
                        return Err(e);
                    },
                };
                let mut plan = file_and_link(
                    &bundle,
                    drawn.serial,
                    &place,
                    config.out_dir.as_str(),
                    config.overwrite,
                    crt_exists,
                    key_exists,
                );
                let ghost filed = ops_view(plan.ops@);
                ops.append(&mut plan.ops);
                let ghost view = bundle@;
                bundles.push(Some(bundle));
                proof {
                    assert(ops_view(ops@) =~= so_far + filed);
                    let views = outcome_views(bundles@);
                    assert(views.drop_last() =~= old_views);
                    assert(views.last() == Some(view));
                    assert(texts(conflicts@) =~= reported + Seq::<Seq<char>>::empty());
                }
            },
            Err(_) => {
                if crt_exists {
                    conflicts.push(next.crt);
                }
                if key_exists {
                    conflicts.push(next.key);
                }
                bundles.push(None);
                proof {
                    let views = outcome_views(bundles@);
                    assert(views.drop_last() =~= old_views);
                    assert(views.last() is None);
                    assert(ops_view(ops@) =~= so_far + Seq::<OpView>::empty());
                    assert(texts(conflicts@) =~= reported + spec_role_conflicts(
                        now,
                        role@,
                        config@,
                        files,
                    ));
                }
            },
        }
        i = i + 1;
    }
    proof {
        assert(all.take(i as int) =~= all);
        lemma_owed_at_end(all, config@, start, files);
    }
    Ok(Issuance { bundles, ops, conflicts })
}

/// Issues the certificates of every role of the cluster `config`: the
/// control plane, the workers, the etcd hosts, the cluster users and the
/// etcd users; as `issue_roles` issues them.
pub fn issue_all(ca: &CA, config: &Config, ledgers: &mut Ledgers, existing: &Vec<String>) -> (r:
    Result<Issuance, CertError>)
    ensures
        spec_run_owed(
            spec_all_roles(config@),
            config@,
            *old(ledgers),
            *final(ledgers),
            texts(existing@),
            r,
        ),
        spec_quiet(
            spec_all_roles(config@),
            config@,
            *old(ledgers),
            texts(existing@),
            spec_all_roles(config@).len() as int,
        ) ==> r is Ok,
        r matches Err(e) && !(e is SerialsExhausted) ==> spec_run_spent(
            spec_all_roles(config@),
            config@,
            *old(ledgers),
            *final(ledgers),
            texts(existing@),
        ),
        r matches Ok(out) ==> spec_run_done(
            spec_all_roles(config@),
            config@,
            ca@,
            *old(ledgers),
            *final(ledgers),
            texts(existing@),
            out,
        ),
{
    let roles = all_roles(config);
    issue_roles(ca, config, &roles, ledgers, existing)
}

} // verus!
