//! Small tools for owned text: views of lists and options of strings,
//! comparison, copying and joining.

use vstd::prelude::*;
use vstd::string::*;
use vstd::utf8::encode_utf8;
use crate::signer::MAX_INPUT_BYTES;

verus! {

/// The characters of an optional string.
pub open spec fn opt_text(o: Option<String>) -> Option<Seq<char>> {
    match o {
        Some(s) => Some(s@),
        None => None,
    }
}

/// The characters of each string of a list.
pub open spec fn texts(v: Seq<String>) -> Seq<Seq<char>> {
    Seq::new(v.len(), |i: int| v[i]@)
}

/// The characters of each string of an optional list.
pub open spec fn opt_texts(o: Option<Vec<String>>) -> Option<Seq<Seq<char>>> {
    match o {
        Some(v) => Some(texts(v@)),
        None => None,
    }
}

/// Whether the UTF-8 encoding of `s` is short enough to be handed to the
/// cryptographic library.
pub open spec fn text_fits(s: Seq<char>) -> bool {
    encode_utf8(s).len() <= MAX_INPUT_BYTES
}

/// Whether an optional text is absent or fits.
pub open spec fn opt_text_fits(o: Option<Seq<char>>) -> bool {
    match o {
        Some(s) => text_fits(s),
        None => true,
    }
}

/// Whether every text of a list fits.
pub open spec fn all_fit(list: Seq<Seq<char>>) -> bool {
    forall|i: int| 0 <= i < list.len() ==> text_fits(#[trigger] list[i])
}

/// The bytes of a text of ASCII characters.
pub open spec fn ascii_bytes(text: Seq<char>) -> Seq<u8> {
    Seq::new(text.len(), |i: int| text[i] as u8)
}

/// Whether `data` begins with the bytes of the ASCII text `text`.
pub open spec fn begins_with(data: Seq<u8>, text: Seq<char>) -> bool {
    text.len() <= data.len() && data.take(text.len() as int) == ascii_bytes(text)
}

/// Whether `a` and `b` hold the same characters.
pub fn same_text(a: &str, b: &str) -> (r: bool)
    ensures
        r == (a@ == b@),
{
    let x = a.to_owned();
    let y = b.to_owned();
    x == y
}

/// Whether `s` is short enough to be handed to the cryptographic library.
pub fn fits(s: &str) -> (r: bool)
    ensures
        r == text_fits(s@),
{
    s.as_bytes().len() <= MAX_INPUT_BYTES
}

/// Whether an optional string is absent or short enough.
pub fn opt_fits(o: &Option<String>) -> (r: bool)
    ensures
        r == opt_text_fits(opt_text(*o)),
{
    match o {
        Some(s) => fits(s.as_str()),
        None => true,
    }
}

/// Whether every string of `list` is short enough.
pub fn list_fits(list: &Vec<String>) -> (r: bool)
    ensures
        r == all_fit(texts(list@)),
{
    let mut i: usize = 0;
    while i < list.len()
        invariant
            i <= list.len(),
            forall|j: int| 0 <= j < i ==> text_fits(#[trigger] texts(list@)[j]),
        decreases list.len() - i,
    {
        if !fits(list[i].as_str()) {
            assert(!text_fits(texts(list@)[i as int]));
            return false;
        }
        i = i + 1;
    }
    true
}

/// A copy of an optional string.
pub fn clone_opt(o: &Option<String>) -> (r: Option<String>)
    ensures
        opt_text(r) == opt_text(*o),
{
    match o {
        Some(s) => Some(s.clone()),
        None => None,
    }
}

/// A copy of a list of strings.
pub fn clone_list(list: &Vec<String>) -> (r: Vec<String>)
    ensures
        texts(r@) == texts(list@),
{
    let mut r: Vec<String> = Vec::new();
    let mut i: usize = 0;
    while i < list.len()
        invariant
            i <= list.len(),
            r@.len() == i,
            forall|j: int| 0 <= j < i ==> r@[j]@ == list@[j]@,
        decreases list.len() - i,
    {
        r.push(list[i].clone());
        i = i + 1;
    }
    assert(texts(r@) =~= texts(list@));
    r
}

/// The text `a` followed by the text `b`.
pub fn concat2(a: &str, b: &str) -> (r: String)
    ensures
        r@ == a@ + b@,
{
    let mut r = String::from_str(a);
    r.append(b);
    r
}

/// The texts `a`, `b` and `c` in a row.
pub fn concat3(a: &str, b: &str, c: &str) -> (r: String)
    ensures
        r@ == a@ + b@ + c@,
{
    let mut r = String::from_str(a);
    r.append(b);
    r.append(c);
    r
}

} // verus!
