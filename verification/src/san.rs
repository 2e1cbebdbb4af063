//! Classification of subject alternative names.
//!
//! A name is written into a certificate either as an IP address or as a DNS
//! name. It counts as an IP address when it consists of four numerals
//! separated by dots, each denoting a number from 0 to 255; every other text
//! is a DNS name.

use vstd::prelude::*;
use crate::decimal::{chars_of, is_digit, numeral_digits, parse_u32_in, spec_parse_u32};

verus! {

/// The position of the first dot of `s`, or the length of `s` where it has none.
pub open spec fn first_dot(s: Seq<char>) -> int
    decreases s.len(),
{
    if s.len() == 0 || s[0] == '.' {
        0
    } else {
        1 + first_dot(s.drop_first())
    }
}

/// The pieces of `s` between its dots, in order. A text without a dot is one
/// piece; the empty text is one empty piece.
pub open spec fn dot_fields(s: Seq<char>) -> Seq<Seq<char>>
    decreases s.len(),
{
    let k = first_dot(s);
    if 0 <= k < s.len() {
        seq![s.take(k)] + dot_fields(s.skip(k + 1))
    } else {
        seq![s]
    }
}

/// Whether `s` is a numeral that denotes a number from 0 to 255.
pub open spec fn is_octet(s: Seq<char>) -> bool {
    match spec_parse_u32(s) {
        Some(n) => n <= 255,
        None => false,
    }
}

/// Whether `s` is written as an IP address: exactly four dot-separated
/// fields, each of them an octet.
pub open spec fn spec_is_ip(s: Seq<char>) -> bool {
    let fields = dot_fields(s);
    fields.len() == 4 && forall|i: int| 0 <= i < 4 ==> is_octet(#[trigger] fields[i])
}

/// How a subject alternative name is encoded.
#[derive(Clone, Copy, Debug, PartialEq, Eq, Structural)]
pub enum SanKind {
    /// An `iPAddress` entry.
    Ip,
    /// A `dNSName` entry.
    Dns,
}

/// The encoding of the name `s`.
pub open spec fn spec_san_kind(s: Seq<char>) -> SanKind {
    if spec_is_ip(s) {
        SanKind::Ip
    } else {
        SanKind::Dns
    }
}

/// `first_dot` is the least position that holds a dot.
pub proof fn lemma_first_dot(s: Seq<char>)
    ensures
        0 <= first_dot(s) <= s.len(),
        forall|j: int| 0 <= j < first_dot(s) ==> s[j] != '.',
        first_dot(s) < s.len() ==> s[first_dot(s)] == '.',
    decreases s.len(),
{
    if s.len() == 0 || s[0] == '.' {
    } else {
        let t = s.drop_first();
        lemma_first_dot(t);
        assert forall|j: int| 0 <= j < first_dot(s) implies s[j] != '.' by {
            if j > 0 {
                assert(s[j] == t[j - 1]);
            }
        }
        if first_dot(s) < s.len() {
            assert(s[first_dot(s)] == t[first_dot(t)]);
        }
    }
}

/// A position that ends a dot-free prefix, at a dot or at the end, is `first_dot`.
pub proof fn lemma_first_dot_is(s: Seq<char>, k: int)
    requires
        0 <= k <= s.len(),
        forall|j: int| 0 <= j < k ==> s[j] != '.',
        k < s.len() ==> s[k] == '.',
    ensures
        first_dot(s) == k,
{
    lemma_first_dot(s);
    let f = first_dot(s);
    if f < k {
        assert(s[f] == '.');
    } else if k < f {
        assert(s[k] != '.');
    }
}

/// An octet holds no dot.
pub proof fn lemma_octet_has_no_dot(s: Seq<char>)
    requires
        is_octet(s),
    ensures
        forall|j: int| 0 <= j < s.len() ==> s[j] != '.',
{
    let digits = numeral_digits(s);
    assert forall|j: int| 0 <= j < s.len() implies s[j] != '.' by {
        if s[0] == '+' {
            if j > 0 {
                assert(s[j] == digits[j - 1]);
                assert(is_digit(digits[j - 1]));
            }
        } else {
            assert(is_digit(digits[j]));
        }
    }
}

/// Four octets joined by dots are an IP address.
pub proof fn lemma_joined_octets_are_ip(a: Seq<char>, b: Seq<char>, c: Seq<char>, d: Seq<char>)
    requires
        is_octet(a),
        is_octet(b),
        is_octet(c),
        is_octet(d),
    ensures
        spec_is_ip(a + seq!['.'] + b + seq!['.'] + c + seq!['.'] + d),
{
    let dot = seq!['.'];
    let s3 = d;
    let s2 = c + dot + d;
    let s1 = b + dot + c + dot + d;
    let s0 = a + dot + b + dot + c + dot + d;
    lemma_octet_has_no_dot(a);
    lemma_octet_has_no_dot(b);
    lemma_octet_has_no_dot(c);
    lemma_octet_has_no_dot(d);
    lemma_first_dot_is(s3, d.len() as int);
    assert(dot_fields(s3) =~= seq![d]);
    lemma_first_dot_is(s2, c.len() as int);
    assert(s2.take(c.len() as int) =~= c);
    assert(s2.skip(c.len() as int + 1) =~= s3);
    assert(dot_fields(s2) =~= seq![c, d]);
    lemma_first_dot_is(s1, b.len() as int);
    assert(s1.take(b.len() as int) =~= b);
    assert(s1.skip(b.len() as int + 1) =~= s2);
    assert(dot_fields(s1) =~= seq![b, c, d]);
    lemma_first_dot_is(s0, a.len() as int);
    assert(s0.take(a.len() as int) =~= a);
    assert(s0.skip(a.len() as int + 1) =~= s1);
    assert(dot_fields(s0) =~= seq![a, b, c, d]);
}

/// Every text has at least one field.
pub proof fn lemma_dot_fields_nonempty(s: Seq<char>)
    ensures
        dot_fields(s).len() >= 1,
    decreases s.len(),
{
    lemma_first_dot(s);
    let k = first_dot(s);
    if k < s.len() {
        lemma_dot_fields_nonempty(s.skip(k + 1));
    }
}

/// A text with a dot is its first field, the dot, and the rest.
pub proof fn lemma_split_at_first_dot(s: Seq<char>)
    requires
        first_dot(s) < s.len(),
    ensures
        s == s.take(first_dot(s)) + seq!['.'] + s.skip(first_dot(s) + 1),
        dot_fields(s) == seq![s.take(first_dot(s))] + dot_fields(s.skip(first_dot(s) + 1)),
{
    lemma_first_dot(s);
    let k = first_dot(s);
    assert(s =~= s.take(k) + seq!['.'] + s.skip(k + 1));
}

/// An IP address is its four fields joined by dots, and each field is an octet.
pub proof fn lemma_ip_is_joined_octets(s: Seq<char>)
    requires
        spec_is_ip(s),
    ensures
        ({
            let f = dot_fields(s);
            &&& f.len() == 4
            &&& is_octet(f[0]) && is_octet(f[1]) && is_octet(f[2]) && is_octet(f[3])
            &&& s == f[0] + seq!['.'] + f[1] + seq!['.'] + f[2] + seq!['.'] + f[3]
        }),
{
    let f = dot_fields(s);
    lemma_first_dot(s);
    let k0 = first_dot(s);
    assert(k0 < s.len());
    lemma_split_at_first_dot(s);
    let s1 = s.skip(k0 + 1);
    let f1 = dot_fields(s1);
    assert(f =~= seq![s.take(k0)] + f1);
    assert(f1.len() == 3);
    assert(f[1] == f1[0] && f[2] == f1[1] && f[3] == f1[2]);
    lemma_first_dot(s1);
    let k1 = first_dot(s1);
    assert(k1 < s1.len());
    lemma_split_at_first_dot(s1);
    let s2 = s1.skip(k1 + 1);
    let f2 = dot_fields(s2);
    assert(f1 =~= seq![s1.take(k1)] + f2);
    assert(f2.len() == 2);
    assert(f1[1] == f2[0] && f1[2] == f2[1]);
    lemma_first_dot(s2);
    let k2 = first_dot(s2);
    assert(k2 < s2.len());
    lemma_split_at_first_dot(s2);
    let s3 = s2.skip(k2 + 1);
    let f3 = dot_fields(s3);
    assert(f2 =~= seq![s2.take(k2)] + f3);
    assert(f3.len() == 1);
    lemma_first_dot(s3);
    if first_dot(s3) < s3.len() {
        lemma_dot_fields_nonempty(s3.skip(first_dot(s3) + 1));
    }
    assert(f3 =~= seq![s3]);
    assert(f2[1] == s3);
    assert(s =~= f[0] + seq!['.'] + f[1] + seq!['.'] + f[2] + seq!['.'] + f[3]);
}

/// Every name has exactly one encoding, and it is the IP encoding exactly
/// for the names written as IP addresses.
pub proof fn lemma_san_kind_total(s: Seq<char>)
    ensures
        spec_san_kind(s) == SanKind::Ip <==> spec_is_ip(s),
        spec_san_kind(s) == SanKind::Dns <==> !spec_is_ip(s),
{
}

/// Decides whether the subject alternative name `string` is an IP address.
pub fn is_ip(string: &str) -> (r: bool)
    ensures
        r == spec_is_ip(string@),
{
    let chars = chars_of(string);
    let n = chars.len();
    let mut start: usize = 0;
    let mut i: usize = 0;
    let mut count: usize = 0;
    let ghost done: Seq<Seq<char>> = Seq::empty();
    assert(chars@.skip(0) =~= chars@);
    while i < n
        invariant
            chars@ == string@,
            n == chars.len(),
            start <= i <= n,
            count == done.len(),
            count <= i,
            dot_fields(string@) == done + dot_fields(chars@.skip(start as int)),
            forall|j: int| 0 <= j < done.len() ==> is_octet(#[trigger] done[j]),
            forall|j: int| start <= j < i ==> chars@[j] != '.',
        decreases n - i,
    {
        if chars[i] == '.' {
            let ghost rest = chars@.skip(start as int);
            let ghost field = chars@.subrange(start as int, i as int);
            proof {
                assert forall|j: int| 0 <= j < i - start implies rest[j] != '.' by {
                    assert(rest[j] == chars@[start + j]);
                }
                lemma_first_dot_is(rest, i - start);
                assert(rest.take(i - start) =~= field);
                assert(rest.skip(i - start + 1) =~= chars@.skip(i + 1));
                assert(done + (seq![field] + dot_fields(chars@.skip(i + 1))) =~= done.push(field)
                    + dot_fields(chars@.skip(i + 1)));
            }
            let octet = parse_u32_in(&chars, start, i);
            let good = match octet {
                Some(v) => v <= 255,
                None => false,
            };
            if !good {
                proof {
                    let fields = dot_fields(string@);
                    assert(fields[count as int] == field);
                    assert(!is_octet(fields[count as int]));
                }
                return false;
            }
            proof {
                done = done.push(field);
            }
            count = count + 1;
            start = i + 1;
        }
        i = i + 1;
    }
    let ghost rest = chars@.skip(start as int);
    let ghost fields = dot_fields(string@);
    proof {
        assert forall|j: int| 0 <= j < n - start implies rest[j] != '.' by {
            assert(rest[j] == chars@[start + j]);
        }
        lemma_first_dot_is(rest, n - start);
        assert(rest =~= chars@.subrange(start as int, n as int));
        assert(fields =~= done.push(rest));
    }
    if count != 3 {
        return false;
    }
    let octet = parse_u32_in(&chars, start, n);
    let good = match octet {
        Some(v) => v <= 255,
        None => false,
    };
    proof {
        assert(fields[3] == rest);
        if good {
            assert forall|j: int| 0 <= j < 4 implies is_octet(#[trigger] fields[j]) by {
                if j < 3 {
                    assert(fields[j] == done[j]);
                }
            }
        }
    }
    good
}

/// The encoding under which the name `string` goes into a certificate.
pub fn san_kind(string: &str) -> (kind: SanKind)
    ensures
        kind == spec_san_kind(string@),
{
    if is_ip(string) {
        SanKind::Ip
    } else {
        SanKind::Dns
    }
}

} // verus!
