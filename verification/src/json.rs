//! JSON text of byte arrays: `[1,2,3]`, each byte in decimal, no white space.
//! The text determines the bytes: reading it back is the inverse.

use vstd::prelude::*;
use crate::text::{decimal, decimal_value, digit_value, lemma_decimal};

verus! {

/// The entries of the array: the bytes in decimal, with a comma between
/// neighbours.
pub open spec fn json_items(bytes: Seq<u8>) -> Seq<char>
    decreases bytes.len(),
{
    if bytes.len() == 0 {
        Seq::empty()
    } else if bytes.len() == 1 {
        decimal(bytes[0] as nat)
    } else {
        json_items(bytes.drop_last()) + seq![','] + decimal(bytes.last() as nat)
    }
}

/// The JSON array of `bytes`.
pub open spec fn json_array(bytes: Seq<u8>) -> Seq<char> {
    seq!['['] + json_items(bytes) + seq![']']
}

/// The position of the last comma of `text`, or -1 if it has none.
pub open spec fn last_comma(text: Seq<char>) -> int
    decreases text.len(),
{
    if text.len() == 0 {
        -1
    } else if text.last() == ',' {
        text.len() - 1
    } else {
        last_comma(text.drop_last())
    }
}

/// The byte that the decimal numeral `text` stands for, if it stands for a
/// number under 256.
pub open spec fn entry_value(text: Seq<char>) -> Option<u8> {
    match decimal_value(text) {
        Some(v) => if v < 256 {
            Some(v as u8)
        } else {
            None
        },
        None => None,
    }
}

/// The bytes that the entries `text` stand for: one or more decimal
/// numerals under 256 with a comma between neighbours.
pub open spec fn entries_value(text: Seq<char>) -> Option<Seq<u8>>
    decreases text.len(),
{
    let i = last_comma(text);
    if 0 <= i < text.len() {
        match (entries_value(text.take(i)), entry_value(text.skip(i + 1))) {
            (Some(head), Some(last)) => Some(head.push(last)),
            _ => None,
        }
    } else {
        match entry_value(text) {
            Some(only) => Some(seq![only]),
            None => None,
        }
    }
}

/// The bytes that the JSON array `text` holds: a bracket, nothing or the
/// entries, a bracket.
pub open spec fn json_decoded(text: Seq<char>) -> Option<Seq<u8>> {
    if text.len() < 2 || text[0] != '[' || text.last() != ']' {
        None
    } else if text.len() == 2 {
        Some(Seq::empty())
    } else {
        entries_value(text.subrange(1, text.len() - 1))
    }
}

/// Text without a comma has no last comma.
proof fn lemma_no_comma(text: Seq<char>)
    requires
        forall|i: int| 0 <= i < text.len() ==> text[i] != ',',
    ensures
        last_comma(text) == -1,
    decreases text.len(),
{
    if text.len() > 0 {
        lemma_no_comma(text.drop_last());
    }
}

/// The last comma of text that ends in a comma and a tail without commas is
/// that comma.
proof fn lemma_last_comma(head: Seq<char>, tail: Seq<char>)
    requires
        forall|i: int| 0 <= i < tail.len() ==> tail[i] != ',',
    ensures
        last_comma(head + seq![','] + tail) == head.len(),
    decreases tail.len(),
{
    let text = head + seq![','] + tail;
    if tail.len() > 0 {
        lemma_last_comma(head, tail.drop_last());
        assert(text.drop_last() =~= head + seq![','] + tail.drop_last());
        assert(text.last() == tail.last());
    } else {
        assert(text.last() == ',');
    }
}

/// The entries of an array that is not empty stand for its bytes.
proof fn lemma_entries_round_trip(bytes: Seq<u8>)
    requires
        bytes.len() >= 1,
    ensures
        json_items(bytes).len() >= 1,
        entries_value(json_items(bytes)) == Some(bytes),
    decreases bytes.len(),
{
    let last = decimal(bytes.last() as nat);
    lemma_decimal(bytes.last() as nat);
    assert forall|i: int| 0 <= i < last.len() implies last[i] != ',' by {
        assert(digit_value(last[i]) is Some);
    }
    if bytes.len() == 1 {
        lemma_no_comma(last);
        assert(seq![bytes[0]] =~= bytes);
    } else {
        let head = json_items(bytes.drop_last());
        let text = json_items(bytes);
        lemma_entries_round_trip(bytes.drop_last());
        lemma_last_comma(head, last);
        assert(text.take(head.len() as int) =~= head);
        assert(text.skip(head.len() as int + 1) =~= last);
        assert(bytes.drop_last().push(bytes.last()) =~= bytes);
    }
}

/// Reading the JSON array of a byte string gives the byte string back.
pub proof fn lemma_json_round_trip(bytes: Seq<u8>)
    ensures
        json_decoded(json_array(bytes)) == Some(bytes),
{
    let text = json_array(bytes);
    let items = json_items(bytes);
    assert(text.subrange(1, text.len() - 1) =~= items);
    if bytes.len() == 0 {
        assert(bytes =~= Seq::<u8>::empty());
    } else {
        lemma_entries_round_trip(bytes);
    }
}

/// Trusted: `serde_json::to_string` on a vector of bytes. The claim is that
/// the compact form is written: a bracket, the bytes in decimal separated by
/// commas, a bracket; and that writing it into memory does not fail.
#[verifier::external_body]
fn serde_json_to_string(bytes: &Vec<u8>) -> (text: String)
    ensures
        text@ == json_array(bytes@),
{
    serde_json::to_string(bytes).unwrap_or_default()
}

/// Writes `bytes` as a JSON array of integers.
pub fn to_json_array(bytes: &Vec<u8>) -> (text: String)
    ensures
        text@ == json_array(bytes@),
        json_decoded(text@) == Some(bytes@),
{
    proof {
        lemma_json_round_trip(bytes@);
    }
    serde_json_to_string(bytes)
}

} // verus!
