//! The serial ledger of a certificate authority.
//!
//! A ledger is one number: the highest serial number issued so far under the
//! authority. It is kept in a file as a decimal numeral. A fresh ledger holds
//! 0, so the first certificate gets the serial number 1. Each draw hands out
//! the number after the last one; no number is handed out twice, and none is
//! skipped.

use vstd::prelude::*;
use vstd::string::*;
use crate::decimal::{
    chars_of, decimal_string, decimal_text, is_digit, lemma_decimal_round_trip,
    lemma_decimal_text_digits, parse_u32_in, spec_parse_u32,
};

verus! {

/// Why a ledger cannot be used.
#[derive(Clone, Copy, Debug, PartialEq, Eq, Structural)]
pub enum LedgerError {
    /// The file does not hold a number from 0 to `u32::MAX`. The store was
    /// edited by hand or damaged; it is not repaired.
    Corrupt,
    /// The ledger stands at `u32::MAX`: no serial number is left.
    Exhausted,
}

/// Whether `c` is white space: a character with the Unicode property
/// `White_Space`.
pub open spec fn is_whitespace(c: char) -> bool {
    let u = c as u32;
    ||| 0x09 <= u <= 0x0d
    ||| u == 0x20
    ||| u == 0x85
    ||| u == 0xa0
    ||| u == 0x1680
    ||| 0x2000 <= u <= 0x200a
    ||| u == 0x2028
    ||| u == 0x2029
    ||| u == 0x202f
    ||| u == 0x205f
    ||| u == 0x3000
}

/// `s` without the white space it begins with.
pub open spec fn trim_start(s: Seq<char>) -> Seq<char>
    decreases s.len(),
{
    if s.len() > 0 && is_whitespace(s.first()) {
        trim_start(s.drop_first())
    } else {
        s
    }
}

/// `s` without the white space it ends with.
pub open spec fn trim_end(s: Seq<char>) -> Seq<char>
    decreases s.len(),
{
    if s.len() > 0 && is_whitespace(s.last()) {
        trim_end(s.drop_last())
    } else {
        s
    }
}

/// `s` without the white space around it.
pub open spec fn spec_trim(s: Seq<char>) -> Seq<char> {
    trim_end(trim_start(s))
}

/// The number that the contents of a ledger file denote: the numeral that is
/// left when the white space around it is taken away. `None` for contents
/// that hold anything else.
pub open spec fn spec_ledger_value(contents: Seq<char>) -> Option<u32> {
    spec_parse_u32(spec_trim(contents))
}

/// The serial number after the ledger value `value`, if one is left.
pub open spec fn spec_next_serial(value: u32) -> Option<u32> {
    if value < u32::MAX {
        Some((value + 1) as u32)
    } else {
        None
    }
}

/// The serial numbers that `n` draws in a row hand out, from a ledger that
/// stands at `value`. The row ends early where the ledger is exhausted.
pub open spec fn spec_draw(value: u32, n: nat) -> Seq<u32>
    decreases n,
{
    if n == 0 {
        Seq::empty()
    } else {
        match spec_next_serial(value) {
            Some(serial) => seq![serial] + spec_draw(serial, (n - 1) as nat),
            None => Seq::empty(),
        }
    }
}

/// Where the ledger stands after `n` draws from `value`.
pub open spec fn spec_after_draws(value: u32, n: nat) -> u32
    decreases n,
{
    if n == 0 {
        value
    } else {
        match spec_next_serial(value) {
            Some(serial) => spec_after_draws(serial, (n - 1) as nat),
            None => value,
        }
    }
}

/// Leading white space of known length is what `trim_start` takes away.
pub proof fn lemma_trim_start_is(s: Seq<char>, k: int)
    requires
        0 <= k <= s.len(),
        forall|j: int| 0 <= j < k ==> is_whitespace(s[j]),
        k < s.len() ==> !is_whitespace(s[k]),
    ensures
        trim_start(s) == s.skip(k),
    decreases k,
{
    if k == 0 {
        assert(s.skip(0) =~= s);
    } else {
        let t = s.drop_first();
        assert forall|j: int| 0 <= j < k - 1 implies is_whitespace(t[j]) by {
            assert(t[j] == s[j + 1]);
        }
        lemma_trim_start_is(t, k - 1);
        assert(t.skip(k - 1) =~= s.skip(k));
    }
}

/// Trailing white space of known length is what `trim_end` takes away.
pub proof fn lemma_trim_end_is(s: Seq<char>, k: int)
    requires
        0 <= k <= s.len(),
        forall|j: int| k <= j < s.len() ==> is_whitespace(s[j]),
        k > 0 ==> !is_whitespace(s[k - 1]),
    ensures
        trim_end(s) == s.take(k),
    decreases s.len() - k,
{
    if k == s.len() {
        assert(s.take(k) =~= s);
    } else {
        let t = s.drop_last();
        lemma_trim_end_is(t, k);
        assert(t.take(k) =~= s.take(k));
    }
}

/// What is written for a ledger value reads back as that value.
pub proof fn lemma_ledger_round_trip(value: u32)
    ensures
        spec_ledger_value(decimal_text(value as nat)) == Some(value),
{
    let s = decimal_text(value as nat);
    lemma_decimal_text_digits(value as nat);
    lemma_decimal_round_trip(value as nat);
    assert(is_digit(s[0]));
    assert(is_digit(s[s.len() - 1]));
    lemma_trim_start_is(s, 0);
    lemma_trim_end_is(s, s.len() as int);
    assert(s.skip(0) =~= s);
    assert(s.take(s.len() as int) =~= s);
}

/// From a ledger that stands at `value`, `n` draws hand out exactly the
/// numbers `value + 1` to `value + n`, in this order, and leave the ledger
/// at `value + n`.
pub proof fn lemma_draw_exact(value: u32, n: nat)
    requires
        value + n <= u32::MAX,
    ensures
        spec_draw(value, n).len() == n,
        forall|i: int| 0 <= i < n ==> #[trigger] spec_draw(value, n)[i] == value + 1 + i,
        spec_after_draws(value, n) == value + n,
    decreases n,
{
    if n > 0 {
        let serial = (value + 1) as u32;
        lemma_draw_exact(serial, (n - 1) as nat);
        let rest = spec_draw(serial, (n - 1) as nat);
        assert forall|i: int| 0 <= i < n implies #[trigger] spec_draw(value, n)[i] == value + 1
            + i by {
            if i > 0 {
                assert(spec_draw(value, n)[i] == rest[i - 1]);
            }
        }
    }
}

/// The serial numbers of a row of draws rise strictly, so none comes twice.
pub proof fn lemma_draw_increasing(value: u32, n: nat, i: int, j: int)
    requires
        value + n <= u32::MAX,
        0 <= i < j < n,
    ensures
        value < spec_draw(value, n)[i] < spec_draw(value, n)[j],
{
    lemma_draw_exact(value, n);
}

/// A row of `n` draws hands out the same numbers whether the process runs
/// through or stops after `k` draws, writes the ledger down, and another
/// process reads it and goes on: the ledger read back is the ledger left.
pub proof fn lemma_draw_across_restart(value: u32, k: nat, n: nat)
    requires
        k <= n,
        value + n <= u32::MAX,
    ensures
        spec_ledger_value(decimal_text(spec_after_draws(value, k) as nat)) matches Some(reloaded)
            && spec_draw(value, n) == spec_draw(value, k) + spec_draw(reloaded, (n - k) as nat),
{
    lemma_draw_exact(value, k);
    lemma_draw_exact(value, n);
    let left = spec_after_draws(value, k);
    lemma_ledger_round_trip(left);
    lemma_draw_exact(left, (n - k) as nat);
    assert(spec_draw(value, n) =~= spec_draw(value, k) + spec_draw(left, (n - k) as nat));
}

/// Whether `c` is white space.
pub fn char_is_whitespace(c: char) -> (r: bool)
    ensures
        r == is_whitespace(c),
{
    let u: u32 = c as u32;
    (0x09 <= u && u <= 0x0d) || u == 0x20 || u == 0x85 || u == 0xa0 || u == 0x1680 || (0x2000 <= u
        && u <= 0x200a) || u == 0x2028 || u == 0x2029 || u == 0x202f || u == 0x205f || u == 0x3000
}

/// The ledger of one authority: the highest serial number issued so far.
#[derive(Clone, Copy, Debug, PartialEq, Eq, Structural)]
pub struct SerialLedger {
    pub value: u32,
}

impl SerialLedger {
    /// The ledger of a new authority. It stands at 0.
    pub fn bootstrap() -> (ledger: SerialLedger)
        ensures
            ledger.value == 0,
    {
        SerialLedger { value: 0 }
    }

    /// Reads a ledger from the contents of its file.
    pub fn parse(contents: &str) -> (r: Result<SerialLedger, LedgerError>)
        ensures
            match spec_ledger_value(contents@) {
                Some(value) => r == Ok::<SerialLedger, LedgerError>(SerialLedger { value }),
                None => r == Err::<SerialLedger, LedgerError>(LedgerError::Corrupt),
            },
    {
        let chars = chars_of(contents);
        let n = chars.len();
        let mut start: usize = 0;
        while start < n && char_is_whitespace(chars[start])
            invariant
                start <= n,
                n == chars.len(),
                forall|j: int| 0 <= j < start ==> is_whitespace(chars@[j]),
            decreases n - start,
        {
            start = start + 1;
        }
        let mut end: usize = n;
        while end > start && char_is_whitespace(chars[end - 1])
            invariant
                start <= end <= n,
                n == chars.len(),
                forall|j: int| end <= j < n ==> is_whitespace(chars@[j]),
            decreases end,
        {
            end = end - 1;
        }
        proof {
            let s = chars@;
            lemma_trim_start_is(s, start as int);
            let t = s.skip(start as int);
            assert forall|j: int| end - start <= j < t.len() implies is_whitespace(t[j]) by {
                assert(t[j] == s[j + start]);
            }
            if end > start {
                assert(t[end - start - 1] == s[end - 1]);
            }
            lemma_trim_end_is(t, end - start);
            assert(t.take(end - start) =~= s.subrange(start as int, end as int));
        }
        match parse_u32_in(&chars, start, end) {
            Some(value) => Ok(SerialLedger { value }),
            None => Err(LedgerError::Corrupt),
        }
    }

    /// The contents of the ledger's file.
    pub fn render(&self) -> (contents: String)
        ensures
            contents@ == decimal_text(self.value as nat),
            spec_ledger_value(contents@) == Some(self.value),
    {
        proof {
            lemma_ledger_round_trip(self.value);
        }
        decimal_string(self.value)
    }

    /// Draws the next serial number. The number counts as spent from this
    /// moment on, whatever becomes of the certificate it was drawn for. An
    /// exhausted ledger is left as it is.
    pub fn next_serial(&mut self) -> (r: Result<u32, LedgerError>)
        ensures
            match spec_next_serial(old(self).value) {
                Some(serial) => r == Ok::<u32, LedgerError>(serial) && final(self).value == serial,
                None => r == Err::<u32, LedgerError>(LedgerError::Exhausted) && *final(self) == *old(
                    self,
                ),
            },
    {
        if self.value < u32::MAX {
            self.value = self.value + 1;
            Ok(self.value)
        } else {
            Err(LedgerError::Exhausted)
        }
    }
}

/// What reading a ledger file gave.
#[derive(Clone, Debug, PartialEq, Eq)]
pub struct LedgerRead {
    /// Where the ledger stands.
    pub ledger: SerialLedger,
    /// The contents to create the file with, where there was no file.
    pub create: Option<String>,
}

/// Reads the ledger of an authority from the contents of its file, or from
/// the fact that there is no file: then the ledger is a fresh one, and its
/// file is to be created.
pub fn get_sn(contents: Option<&str>) -> (r: Result<LedgerRead, LedgerError>)
    ensures
        match contents {
            None => r matches Ok(read) && read.ledger.value == 0 && (read.create matches Some(text)
                && text@ == decimal_text(0)),
            Some(text) => match spec_ledger_value(text@) {
                Some(value) => r matches Ok(read) && read.ledger.value == value && read.create
                    is None,
                None => r matches Err(e) && e == LedgerError::Corrupt,
            },
        },
{
    match contents {
        None => {
            let ledger = SerialLedger::bootstrap();
            Ok(LedgerRead { ledger, create: Some(ledger.render()) })
        },
        Some(text) => match SerialLedger::parse(text) {
            Ok(ledger) => Ok(LedgerRead { ledger, create: None }),
            Err(e) => Err(e),
        },
    }
}

} // verus!
