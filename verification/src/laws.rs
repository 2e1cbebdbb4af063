//! What holds of the store as a whole: laws that relate the decisions of
//! `store`, `hierarchy` and `kubernetes_certs` to the disk they are carried
//! out on.

use vstd::prelude::*;
use crate::hierarchy::{spec_authority_ops, spec_bootstrap_ops, CAView};
use crate::config_parser::{ConfigView, InstanceView};
use crate::kubernetes_certs::{
    spec_authority, spec_dests, spec_filename, spec_links, CertTypeView,
};
use crate::decimal::{
    decimal_text, is_digit, lemma_decimal_text_digits, lemma_decimal_text_injective,
};
use crate::ledger::{lemma_draw_exact, spec_draw};
use crate::store::{
    apply_all, apply_op, spec_authority_dir, spec_authority_link_dir, spec_commit_ops,
    spec_crt_file, spec_directories, spec_host_dirs, spec_index_file, spec_key_file,
    spec_ledger_bytes, spec_stored_name, spec_symlinks, spec_write_ops, Authority, Node, OpView,
    StoreError,
};

verus! {

/// Where a link leads that is placed in a directory directly under
/// `out_dir` and points at `target`: a target that begins with `../` leads
/// to what follows it, under `out_dir`. Other targets are not followed here.
pub open spec fn spec_resolve(out_dir: Seq<char>, target: Seq<char>) -> Option<Seq<char>> {
    if target.len() >= 3 && target.take(3) == "../"@ {
        Some(out_dir + "/"@ + target.skip(3))
    } else {
        None
    }
}

/// Whether nothing lies at `path`, or a symbolic link.
pub open spec fn spec_free_or_link(disk: Map<Seq<char>, Node>, path: Seq<char>) -> bool {
    !disk.contains_key(path) || disk[path] is Link
}

/// Whether nothing lies at `path`, or a file.
pub open spec fn spec_free_or_file(disk: Map<Seq<char>, Node>, path: Seq<char>) -> bool {
    !disk.contains_key(path) || disk[path] is File
}

/// The certificate file, the key file and the ledger of an authority
/// directory are three different files.
pub proof fn lemma_files_differ(dir: Seq<char>, stored: Seq<char>)
    ensures
        spec_crt_file(dir, stored) != spec_key_file(dir, stored),
        spec_crt_file(dir, stored) != spec_index_file(dir),
        spec_key_file(dir, stored) != spec_index_file(dir),
{
    reveal_strlit("/certs/");
    reveal_strlit("/keys/");
    reveal_strlit("/index");
    reveal_strlit(".crt");
    reveal_strlit(".key");
    let n = dir.len() as int;
    let crt = spec_crt_file(dir, stored);
    let key = spec_key_file(dir, stored);
    let index = spec_index_file(dir);
    assert(crt[n + 1] == 'c');
    assert(key[n + 1] == 'k');
    assert(index[n + 1] == 'i');
}

/// The bundle of a role is never filed under the name `ca`, whatever its
/// stable name: the files of an authority's own bundle are no role's files.
pub proof fn lemma_stored_name_is_not_ca(filename: Seq<char>, serial: u32)
    ensures
        spec_stored_name(filename, serial) != "ca"@,
{
    reveal_strlit("-");
    reveal_strlit("ca");
    let s = spec_stored_name(filename, serial);
    let digits = decimal_text(serial as nat);
    lemma_decimal_text_digits(serial as nat);
    if s == "ca"@ {
        assert(s.len() == filename.len() + 1 + digits.len());
        assert(digits.len() == 1);
        assert(s[1] == digits[0]);
        assert(is_digit(digits[0]));
    }
}

/// Two bundles are filed under the same name only if they have the same
/// stable name and the same serial number.
///
/// Serial numbers are not handed out twice under one authority, so no two
/// certificates of an authority ever share a file.
pub proof fn lemma_stored_name_injective(a: Seq<char>, m: u32, b: Seq<char>, n: u32)
    requires
        spec_stored_name(a, m) == spec_stored_name(b, n),
    ensures
        a == b,
        m == n,
{
    reveal_strlit("-");
    let x = decimal_text(m as nat);
    let y = decimal_text(n as nat);
    let s = spec_stored_name(a, m);
    lemma_decimal_text_digits(m as nat);
    lemma_decimal_text_digits(n as nat);
    assert(s.len() == a.len() + 1 + x.len());
    assert(s.len() == b.len() + 1 + y.len());
    if x.len() < y.len() {
        let p = a.len() as int;
        assert(s[p] == '-');
        assert(s[p] == y[p - b.len() - 1]);
        assert(is_digit(y[p - b.len() - 1]));
    } else if y.len() < x.len() {
        let p = b.len() as int;
        assert(spec_stored_name(b, n)[p] == '-');
        assert(s[p] == x[p - a.len() - 1]);
        assert(is_digit(x[p - a.len() - 1]));
    } else {
        assert(a =~= s.take(a.len() as int));
        assert(b =~= s.take(b.len() as int));
        assert(x =~= s.skip(a.len() as int + 1));
        assert(y =~= s.skip(b.len() as int + 1));
        lemma_decimal_text_injective(m as nat, n as nat);
    }
}

/// Bundles filed under different names have different files.
pub proof fn lemma_files_of_names_differ(dir: Seq<char>, stored: Seq<char>, other: Seq<char>)
    requires
        stored != other,
    ensures
        spec_crt_file(dir, stored) != spec_crt_file(dir, other),
        spec_key_file(dir, stored) != spec_key_file(dir, other),
        spec_crt_file(dir, stored) != spec_key_file(dir, other),
{
    reveal_strlit("/certs/");
    reveal_strlit("/keys/");
    reveal_strlit(".crt");
    reveal_strlit(".key");
    let n = dir.len() as int;
    let crt = spec_crt_file(dir, stored);
    let crt2 = spec_crt_file(dir, other);
    let key = spec_key_file(dir, stored);
    let key2 = spec_key_file(dir, other);
    assert(crt.len() == n + 7 + stored.len() + 4);
    assert(crt2.len() == n + 7 + other.len() + 4);
    assert(key.len() == n + 6 + stored.len() + 4);
    assert(key2.len() == n + 6 + other.len() + 4);
    if crt == crt2 {
        assert(stored.len() == other.len());
        assert(stored =~= crt.subrange(n + 7, n + 7 + stored.len()));
        assert(other =~= crt2.subrange(n + 7, n + 7 + other.len()));
    }
    if key == key2 {
        assert(stored.len() == other.len());
        assert(stored =~= key.subrange(n + 6, n + 6 + stored.len()));
        assert(other =~= key2.subrange(n + 6, n + 6 + other.len()));
    }
    assert(crt[n + 1] == 'c');
    assert(key2[n + 1] == 'k');
}

/// The two links of a stable name lie at different places.
pub proof fn lemma_links_differ(dest: Seq<char>)
    ensures
        dest + ".key"@ != dest + ".crt"@,
{
    reveal_strlit(".crt");
    reveal_strlit(".key");
    let n = dest.len() as int;
    assert((dest + ".key"@)[n + 1] == 'k');
    assert((dest + ".crt"@)[n + 1] == 'c');
}

/// Filing a bundle writes exactly its two files and the ledger.
///
/// On a disk where the ledger of the authority exists and nothing but files
/// lies in the way, the operations of `write_bundle_to_file` end without a
/// fault. After them the certificate file holds the certificate, the key
/// file holds the key, the ledger holds the serial number, and everything
/// else on the disk is as it was.
pub proof fn lemma_commit_writes(
    disk: Map<Seq<char>, Node>,
    cert: Seq<u8>,
    key: Seq<u8>,
    serial: u32,
    dir: Seq<char>,
    filename: Seq<char>,
)
    requires
        disk.contains_key(spec_index_file(dir)),
        disk[spec_index_file(dir)] is File,
        spec_free_or_file(disk, spec_crt_file(dir, spec_stored_name(filename, serial))),
        spec_free_or_file(disk, spec_key_file(dir, spec_stored_name(filename, serial))),
    ensures
        ({
            let stored = spec_stored_name(filename, serial);
            let (after, fault) = apply_all(disk, spec_commit_ops(cert, key, serial, dir, filename));
            &&& fault is None
            &&& after == disk.insert(spec_crt_file(dir, stored), Node::File(cert)).insert(
                spec_key_file(dir, stored),
                Node::File(key),
            ).insert(spec_index_file(dir), Node::File(spec_ledger_bytes(serial)))
        }),
{
    let stored = spec_stored_name(filename, serial);
    let ops = spec_commit_ops(cert, key, serial, dir, filename);
    lemma_files_differ(dir, stored);
    let d1 = disk.insert(spec_crt_file(dir, stored), Node::File(cert));
    let d2 = d1.insert(spec_key_file(dir, stored), Node::File(key));
    let d3 = d2.insert(spec_index_file(dir), Node::File(spec_ledger_bytes(serial)));
    assert(apply_op(disk, ops[0]) == Ok::<Map<Seq<char>, Node>, StoreError>(d1));
    let ops1 = ops.drop_first();
    assert(ops1[0] == ops[1]);
    assert(apply_op(d1, ops1[0]) == Ok::<Map<Seq<char>, Node>, StoreError>(d2));
    let ops2 = ops1.drop_first();
    assert(ops2[0] == ops[2]);
    assert(apply_op(d2, ops2[0]) == Ok::<Map<Seq<char>, Node>, StoreError>(d3));
    let ops3 = ops2.drop_first();
    assert(ops3.len() == 0);
    assert(apply_all(d3, ops3) == (d3, None::<StoreError>));
    assert(apply_all(d2, ops2) == apply_all(d3, ops3));
    assert(apply_all(d1, ops1) == apply_all(d2, ops2));
    assert(apply_all(disk, ops) == apply_all(d1, ops1));
}

/// Filing a bundle leaves the files of every other bundle as they are.
///
/// On the disk of `lemma_commit_writes`, the certificate file and the key
/// file of a bundle filed under another name in the same authority
/// directory are after the filing what they were before it.
pub proof fn lemma_commit_spares_others(
    disk: Map<Seq<char>, Node>,
    cert: Seq<u8>,
    key: Seq<u8>,
    serial: u32,
    dir: Seq<char>,
    filename: Seq<char>,
    other: Seq<char>,
)
    requires
        disk.contains_key(spec_index_file(dir)),
        disk[spec_index_file(dir)] is File,
        spec_free_or_file(disk, spec_crt_file(dir, spec_stored_name(filename, serial))),
        spec_free_or_file(disk, spec_key_file(dir, spec_stored_name(filename, serial))),
        other != spec_stored_name(filename, serial),
    ensures
        ({
            let after = apply_all(disk, spec_commit_ops(cert, key, serial, dir, filename)).0;
            let crt_path = spec_crt_file(dir, other);
            let key_path = spec_key_file(dir, other);
            &&& after.contains_key(crt_path) == disk.contains_key(crt_path)
            &&& after.contains_key(key_path) == disk.contains_key(key_path)
            &&& disk.contains_key(crt_path) ==> after[crt_path] == disk[crt_path]
            &&& disk.contains_key(key_path) ==> after[key_path] == disk[key_path]
        }),
{
    let stored = spec_stored_name(filename, serial);
    lemma_commit_writes(disk, cert, key, serial, dir, filename);
    lemma_files_of_names_differ(dir, stored, other);
    lemma_files_of_names_differ(dir, other, stored);
    lemma_files_differ(dir, other);
}

/// Filing the bundle of a role leaves the authority's own certificate and
/// key as they are, whatever the role's stable name.
pub proof fn lemma_commit_spares_the_authority(
    disk: Map<Seq<char>, Node>,
    cert: Seq<u8>,
    key: Seq<u8>,
    serial: u32,
    dir: Seq<char>,
    filename: Seq<char>,
)
    requires
        disk.contains_key(spec_index_file(dir)),
        disk[spec_index_file(dir)] is File,
        spec_free_or_file(disk, spec_crt_file(dir, spec_stored_name(filename, serial))),
        spec_free_or_file(disk, spec_key_file(dir, spec_stored_name(filename, serial))),
        disk.contains_key(spec_crt_file(dir, "ca"@)),
        disk.contains_key(spec_key_file(dir, "ca"@)),
    ensures
        ({
            let after = apply_all(disk, spec_commit_ops(cert, key, serial, dir, filename)).0;
            &&& after.contains_key(spec_crt_file(dir, "ca"@))
            &&& after.contains_key(spec_key_file(dir, "ca"@))
            &&& after[spec_crt_file(dir, "ca"@)] == disk[spec_crt_file(dir, "ca"@)]
            &&& after[spec_key_file(dir, "ca"@)] == disk[spec_key_file(dir, "ca"@)]
        }),
{
    lemma_stored_name_is_not_ca(filename, serial);
    lemma_commit_spares_others(disk, cert, key, serial, dir, filename, "ca"@);
}

/// Issuing again without overwriting changes nothing.
///
/// Where overwriting is not asked for and one of the two files of a bundle
/// exists, carrying out what `write_bundle_to_file` decides leaves every
/// file, the ledger among them, exactly as it was.
pub proof fn lemma_conflict_changes_nothing(
    disk: Map<Seq<char>, Node>,
    cert: Seq<u8>,
    key: Seq<u8>,
    serial: u32,
    dir: Seq<char>,
    filename: Seq<char>,
)
    requires
        disk.contains_key(spec_crt_file(dir, spec_stored_name(filename, serial)))
            || disk.contains_key(spec_key_file(dir, spec_stored_name(filename, serial))),
    ensures
        ({
            let stored = spec_stored_name(filename, serial);
            apply_all(
                disk,
                spec_write_ops(
                    cert,
                    key,
                    serial,
                    dir,
                    filename,
                    false,
                    disk.contains_key(spec_crt_file(dir, stored)),
                    disk.contains_key(spec_key_file(dir, stored)),
                ),
            ) == (disk, None::<StoreError>)
        }),
{
}

/// Placing the links of a stable name points them at the bundle they are
/// placed for, whatever they pointed at before.
///
/// On a disk where at each of the two places lies nothing or a symbolic
/// link, the operations of `create_symlink` end without a fault, and after
/// them the two links point at the key file and at the certificate file of
/// `cert_name`. Everything else on the disk is as it was.
pub proof fn lemma_links_repointed(
    disk: Map<Seq<char>, Node>,
    ca_dir: Seq<char>,
    cert_name: Seq<char>,
    dest: Seq<char>,
)
    requires
        spec_free_or_link(disk, dest + ".key"@),
        spec_free_or_link(disk, dest + ".crt"@),
    ensures
        ({
            let (after, fault) = apply_all(disk, spec_symlinks(ca_dir, cert_name, dest));
            &&& fault is None
            &&& after == disk.insert(
                dest + ".key"@,
                Node::Link(spec_key_file(ca_dir, cert_name)),
            ).insert(dest + ".crt"@, Node::Link(spec_crt_file(ca_dir, cert_name)))
        }),
{
    lemma_links_differ(dest);
    let ops = spec_symlinks(ca_dir, cert_name, dest);
    let d1 = disk.insert(dest + ".key"@, Node::Link(spec_key_file(ca_dir, cert_name)));
    let d2 = d1.insert(dest + ".crt"@, Node::Link(spec_crt_file(ca_dir, cert_name)));
    assert(apply_op(disk, ops[0]) == Ok::<Map<Seq<char>, Node>, StoreError>(d1));
    let ops1 = ops.drop_first();
    assert(ops1[0] == ops[1]);
    assert(apply_op(d1, ops1[0]) == Ok::<Map<Seq<char>, Node>, StoreError>(d2));
    let ops2 = ops1.drop_first();
    assert(ops2.len() == 0);
    assert(apply_all(d2, ops2) == (d2, None::<StoreError>));
    assert(apply_all(d1, ops1) == apply_all(d2, ops2));
    assert(apply_all(disk, ops) == apply_all(d1, ops1));
}

/// Carrying out two lists of operations one after the other is carrying out
/// the one list that they make together.
pub proof fn lemma_apply_all_concat(disk: Map<Seq<char>, Node>, first: Seq<OpView>, second: Seq<OpView>)
    ensures
        apply_all(disk, first + second) == match apply_all(disk, first).1 {
            None => apply_all(apply_all(disk, first).0, second),
            Some(fault) => apply_all(disk, first),
        },
    decreases first.len(),
{
    if first.len() == 0 {
        assert(first + second =~= second);
    } else {
        let all = first + second;
        assert(all.first() == first.first());
        assert(all.drop_first() =~= first.drop_first() + second);
        match apply_op(disk, first.first()) {
            Ok(next) => {
                lemma_apply_all_concat(next, first.drop_first(), second);
            },
            Err(_) => {},
        }
    }
}

/// The link of a key and the link of a certificate never lie at the same place.
pub proof fn lemma_key_and_crt_links_differ(a: Seq<char>, b: Seq<char>)
    ensures
        a + ".key"@ != b + ".crt"@,
{
    reveal_strlit(".crt");
    reveal_strlit(".key");
    let x = a + ".key"@;
    let y = b + ".crt"@;
    if x == y {
        assert(x.len() == a.len() + 4);
        assert(y.len() == b.len() + 4);
        assert(x[a.len() as int + 1] == 'k');
        assert(y[b.len() as int + 1] == 'c');
    }
}

/// Placing the links of a bundle at all its stable names points every one
/// of them at the bundle.
///
/// On a disk where at each place of a link lies nothing or a symbolic link,
/// the operations of `links` end without a fault. After them the key link
/// and the certificate link at every one of the places `dests` point at the
/// key file and at the certificate file of `cert_name`, and wherever
/// nothing or a link lay before, nothing or a link lies still.
pub proof fn lemma_all_links_placed(
    disk: Map<Seq<char>, Node>,
    authority: Authority,
    cert_name: Seq<char>,
    dests: Seq<Seq<char>>,
)
    requires
        forall|i: int|
            0 <= i < dests.len() ==> spec_free_or_link(disk, #[trigger] dests[i] + ".key"@)
                && spec_free_or_link(disk, dests[i] + ".crt"@),
    ensures
        ({
            let link_dir = spec_authority_link_dir(authority);
            let (after, fault) = apply_all(disk, spec_links(authority, cert_name, dests));
            &&& fault is None
            &&& forall|i: int|
                0 <= i < dests.len() ==> after.contains_key(#[trigger] dests[i] + ".key"@)
                    && after[dests[i] + ".key"@] == Node::Link(spec_key_file(link_dir, cert_name))
                    && after.contains_key(dests[i] + ".crt"@) && after[dests[i] + ".crt"@]
                    == Node::Link(spec_crt_file(link_dir, cert_name))
            &&& forall|path: Seq<char>|
                spec_free_or_link(disk, path) ==> spec_free_or_link(after, path)
        }),
    decreases dests.len(),
{
    let link_dir = spec_authority_link_dir(authority);
    if dests.len() > 0 {
        let front = dests.drop_last();
        let last = dests.last();
        assert forall|i: int| 0 <= i < front.len() implies spec_free_or_link(
            disk,
            #[trigger] front[i] + ".key"@,
        ) && spec_free_or_link(disk, front[i] + ".crt"@) by {
            assert(front[i] == dests[i]);
        }
        lemma_all_links_placed(disk, authority, cert_name, front);
        let (middle, _) = apply_all(disk, spec_links(authority, cert_name, front));
        lemma_apply_all_concat(
            disk,
            spec_links(authority, cert_name, front),
            spec_symlinks(link_dir, cert_name, last),
        );
        assert(dests[dests.len() - 1] == last);
        assert(spec_free_or_link(disk, last + ".key"@));
        assert(spec_free_or_link(disk, last + ".crt"@));
        lemma_links_repointed(middle, link_dir, cert_name, last);
        let (after, fault) = apply_all(disk, spec_links(authority, cert_name, dests));
        assert forall|i: int| 0 <= i < dests.len() implies after.contains_key(
            #[trigger] dests[i] + ".key"@,
        ) && after[dests[i] + ".key"@] == Node::Link(spec_key_file(link_dir, cert_name))
            && after.contains_key(dests[i] + ".crt"@) && after[dests[i] + ".crt"@] == Node::Link(
            spec_crt_file(link_dir, cert_name),
        ) by {
            lemma_key_and_crt_links_differ(dests[i], last);
            lemma_key_and_crt_links_differ(last, dests[i]);
            if i < front.len() {
                assert(front[i] == dests[i]);
            }
        }
    }
}

/// A link never replaces a file or a directory.
///
/// Where a file or a directory lies at the place of the key link, placing
/// the links of a stable name ends in a fault at once, and the disk stays as
/// it was.
pub proof fn lemma_links_spare_files(
    disk: Map<Seq<char>, Node>,
    ca_dir: Seq<char>,
    cert_name: Seq<char>,
    dest: Seq<char>,
)
    requires
        disk.contains_key(dest + ".key"@),
        !(disk[dest + ".key"@] is Link),
    ensures
        apply_all(disk, spec_symlinks(ca_dir, cert_name, dest)) == (
            disk,
            Some(StoreError::NotASymlink),
        ),
{
}

/// The links of a role lead to the files that filing its bundle writes.
///
/// A bundle is filed under the authority's directory in the store, and
/// linked through the authority's directory as a place one level below the
/// store's directory names it. The two links of the bundle with the serial
/// number `serial` resolve to the two files written for it.
pub proof fn lemma_links_resolve(
    out_dir: Seq<char>,
    authority: Authority,
    filename: Seq<char>,
    serial: u32,
)
    ensures
        ({
            let name = spec_stored_name(filename, serial);
            let stored = spec_stored_name(filename, serial);
            let link_dir = spec_authority_link_dir(authority);
            let dir = spec_authority_dir(out_dir, authority);
            &&& spec_resolve(out_dir, spec_crt_file(link_dir, name)) == Some(
                spec_crt_file(dir, stored),
            )
            &&& spec_resolve(out_dir, spec_key_file(link_dir, name)) == Some(
                spec_key_file(dir, stored),
            )
        }),
{
    reveal_strlit("../");
    reveal_strlit("../CA/");
    reveal_strlit("/CA/");
    reveal_strlit("/");
    let name = spec_stored_name(filename, serial);
    let link_dir = spec_authority_link_dir(authority);
    let dir = spec_authority_dir(out_dir, authority);
    let crt = spec_crt_file(link_dir, name);
    let key = spec_key_file(link_dir, name);
    assert(crt.take(3) =~= "../"@);
    assert(key.take(3) =~= "../"@);
    assert(out_dir + "/"@ + crt.skip(3) =~= spec_crt_file(dir, name));
    assert(out_dir + "/"@ + key.skip(3) =~= spec_key_file(dir, name));
}

/// Issuing a role twice, with overwriting, moves its links to the second bundle.
///
/// The second issuance draws a greater serial number than the first. On a
/// disk where the first left links at the role's stable names, placing the
/// links for the second ends without a fault, and then the links at every
/// stable name of the role point at the files of the second bundle: the
/// files that filing the second bundle writes.
pub proof fn lemma_reissue_moves_links(
    disk: Map<Seq<char>, Node>,
    t: CertTypeView,
    config: ConfigView,
    ledger: u32,
)
    requires
        ledger + 2 <= u32::MAX,
        forall|i: int|
            0 <= i < spec_dests(t, config).len() ==> spec_free_or_link(
                disk,
                #[trigger] spec_dests(t, config)[i] + ".key"@,
            ) && spec_free_or_link(disk, spec_dests(t, config)[i] + ".crt"@),
    ensures
        ({
            let first = spec_draw(ledger, 2)[0];
            let second = spec_draw(ledger, 2)[1];
            let authority = spec_authority(t);
            let link_dir = spec_authority_link_dir(authority);
            let dir = spec_authority_dir(config.out_dir, authority);
            let name = spec_stored_name(spec_filename(t), second);
            let stored = spec_stored_name(spec_filename(t), second);
            let dests = spec_dests(t, config);
            let (after, fault) = apply_all(disk, spec_links(authority, name, dests));
            &&& first < second
            &&& fault is None
            &&& forall|i: int|
                0 <= i < dests.len() ==> after[#[trigger] dests[i] + ".crt"@] == Node::Link(
                    spec_crt_file(link_dir, name),
                ) && after[dests[i] + ".key"@] == Node::Link(spec_key_file(link_dir, name))
            &&& spec_resolve(config.out_dir, spec_crt_file(link_dir, name)) == Some(
                spec_crt_file(dir, stored),
            )
            &&& spec_resolve(config.out_dir, spec_key_file(link_dir, name)) == Some(
                spec_key_file(dir, stored),
            )
        }),
{
    lemma_draw_exact(ledger, 2);
    let second = spec_draw(ledger, 2)[1];
    let authority = spec_authority(t);
    let name = spec_stored_name(spec_filename(t), second);
    let dests = spec_dests(t, config);
    lemma_all_links_placed(disk, authority, name, dests);
    lemma_links_resolve(config.out_dir, authority, spec_filename(t), second);
    let after = apply_all(disk, spec_links(authority, name, dests)).0;
    assert forall|i: int| 0 <= i < dests.len() implies after[#[trigger] dests[i] + ".crt"@]
        == Node::Link(spec_crt_file(spec_authority_link_dir(authority), name)) && after[dests[i]
        + ".key"@] == Node::Link(spec_key_file(spec_authority_link_dir(authority), name)) by {
        assert(after.contains_key(dests[i] + ".key"@));
    }
}

/// Whether the hosts that a role names are hosts of the cluster.
pub open spec fn spec_configured(t: CertTypeView, config: ConfigView) -> bool {
    match t {
        CertTypeView::Kubelet(host) => config.worker.contains(host),
        CertTypeView::KubeletServer(host) => config.worker.contains(host),
        CertTypeView::EtcdServer(host) => config.etcd_server.contains(host),
        _ => true,
    }
}

/// Whether the path `place` lies under the directory `dir`.
pub open spec fn spec_lies_under(place: Seq<char>, dir: Seq<char>) -> bool {
    let prefix = dir + "/"@;
    prefix.len() <= place.len() && place.take(prefix.len() as int) == prefix
}

/// Whether making the directories `dirs` makes one that `place` lies under.
pub open spec fn spec_has_directory(dirs: Seq<OpView>, place: Seq<char>) -> bool {
    exists|k: int|
        0 <= k < dirs.len() && (#[trigger] dirs[k] matches OpView::MakeDir { path }
            && spec_lies_under(place, path))
}

/// The directory of every host of a list is among the directories of the store.
proof fn lemma_host_dir_is_made(config: ConfigView, hosts: Seq<InstanceView>, k: int, base: int)
    requires
        0 <= k < hosts.len(),
        base + hosts.len() <= spec_directories(config, config.out_dir).len(),
        forall|j: int|
            0 <= j < hosts.len() ==> spec_directories(config, config.out_dir)[base + j]
                == #[trigger] spec_host_dirs(config.out_dir, hosts)[j],
    ensures
        spec_directories(config, config.out_dir)[base + k] == (OpView::MakeDir {
            path: config.out_dir + "/"@ + hosts[k].dir_name(),
        }),
{
    assert(spec_host_dirs(config.out_dir, hosts)[k] == OpView::MakeDir {
        path: config.out_dir + "/"@ + hosts[k].dir_name(),
    });
}

/// The layout has a directory for every link.
///
/// The directories that `create_directory_struct` makes for a cluster
/// include, for each role that names hosts of the cluster only, a directory
/// under which each stable name of the role lies: `master`, `users`,
/// `etcd-users`, or the directory of the host.
pub proof fn lemma_links_lie_in_the_layout(t: CertTypeView, config: ConfigView, i: int)
    requires
        spec_configured(t, config),
        0 <= i < spec_dests(t, config).len(),
    ensures
        spec_has_directory(spec_directories(config, config.out_dir), spec_dests(t, config)[i]),
{
    reveal_strlit("/");
    reveal_strlit("/master");
    reveal_strlit("/master/");
    reveal_strlit("/users");
    reveal_strlit("/users/");
    reveal_strlit("/etcd-users");
    reveal_strlit("/etcd-users/");
    reveal_strlit("/etcd");
    reveal_strlit("/node");
    reveal_strlit("/node-kubeconfig");
    reveal_strlit("/kube-proxy");
    let out = config.out_dir;
    let dirs = spec_directories(config, out);
    let place = spec_dests(t, config)[i];
    let workers = config.worker;
    let etcd = config.etcd_server;
    assert(dirs.len() == 9 + workers.len() + etcd.len());
    assert(dirs[6] == OpView::MakeDir { path: out + "/master"@ });
    assert(dirs[7] == OpView::MakeDir { path: out + "/users"@ });
    assert(dirs[8] == OpView::MakeDir { path: out + "/etcd-users"@ });
    assert forall|j: int| 0 <= j < workers.len() implies dirs[9 + j] == #[trigger] spec_host_dirs(
        out,
        workers,
    )[j] by {}
    assert forall|j: int| 0 <= j < etcd.len() implies dirs[9 + workers.len() + j]
        == #[trigger] spec_host_dirs(out, etcd)[j] by {}
    match t {
        CertTypeView::EtcdServer(host) => {
            assert(place == out + "/"@ + host.dir_name() + "/etcd"@);
            let k = choose|k: int| 0 <= k < etcd.len() && etcd[k] == host;
            lemma_host_dir_is_made(config, etcd, k, 9 + workers.len() as int);
            let path = out + "/"@ + host.dir_name();
            assert(place.take((path + "/"@).len() as int) =~= path + "/"@);
            assert(spec_lies_under(place, path));
        },
        CertTypeView::Kubelet(host) => {
            assert(place == out + "/"@ + host.dir_name() + "/node-kubeconfig"@);
            let k = choose|k: int| 0 <= k < workers.len() && workers[k] == host;
            lemma_host_dir_is_made(config, workers, k, 9);
            let path = out + "/"@ + host.dir_name();
            assert(place.take((path + "/"@).len() as int) =~= path + "/"@);
            assert(spec_lies_under(place, path));
        },
        CertTypeView::KubeletServer(host) => {
            assert(place == out + "/"@ + host.dir_name() + "/node"@);
            let k = choose|k: int| 0 <= k < workers.len() && workers[k] == host;
            lemma_host_dir_is_made(config, workers, k, 9);
            let path = out + "/"@ + host.dir_name();
            assert(place.take((path + "/"@).len() as int) =~= path + "/"@);
            assert(spec_lies_under(place, path));
        },
        CertTypeView::EtcdUser(name) => {
            let path = out + "/etcd-users"@;
            assert(place.take((path + "/"@).len() as int) =~= path + "/"@);
            assert(spec_lies_under(place, path));
        },
        CertTypeView::User(user) => {
            let path = out + "/users"@;
            assert(place.take((path + "/"@).len() as int) =~= path + "/"@);
            assert(spec_lies_under(place, path));
        },
        CertTypeView::Proxy => {
            if i == 0 {
                let path = out + "/master"@;
                assert(place.take((path + "/"@).len() as int) =~= path + "/"@);
                assert(spec_lies_under(place, path));
            } else {
                let k = i - 1;
                lemma_host_dir_is_made(config, workers, k, 9);
                let path = out + "/"@ + workers[k].dir_name();
                assert(place == out + "/"@ + workers[k].dir_name() + "/kube-proxy"@);
                assert(place.take((path + "/"@).len() as int) =~= path + "/"@);
                assert(spec_lies_under(place, path));
            }
        },
        _ => {
            let path = out + "/master"@;
            assert(place == out + "/master/"@ + spec_filename(t));
            assert(place.take((path + "/"@).len() as int) =~= path + "/"@);
            assert(spec_lies_under(place, path));
        },
    }
}

/// A store is bootstrapped at most once.
///
/// On a disk that holds the ledger of the root authority, carrying out the
/// bootstrap of a hierarchy ends in a fault at its first operation, and the
/// disk stays as it was: no file of an authority is touched.
pub proof fn lemma_second_bootstrap_changes_nothing(
    disk: Map<Seq<char>, Node>,
    out_dir: Seq<char>,
    ca: CAView,
)
    requires
        disk.contains_key(spec_index_file(spec_authority_dir(out_dir, Authority::Root))),
    ensures
        apply_all(disk, spec_bootstrap_ops(out_dir, ca)) == (
            disk,
            Some(StoreError::AlreadyExists),
        ),
{
    let ops = spec_bootstrap_ops(out_dir, ca);
    let first = spec_authority_ops(out_dir, Authority::Root, ca.main_ca);
    assert(ops[0] == first[0]);
}

} // verus!
