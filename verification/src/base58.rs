//! Base58 text of byte strings, in the Bitcoin alphabet.
//!
//! A byte string is read as a big-endian number and written in base 58, most
//! significant symbol first, with one leading `1` for every leading zero
//! byte. The text determines the byte string: decoding is the inverse.

use vstd::prelude::*;

verus! {

/// The symbol of the Base58 digit `d`: the alphabet
/// `123456789ABCDEFGHJKLMNPQRSTUVWXYZabcdefghijkmnopqrstuvwxyz`,
/// which has no `0`, `O`, `I` or `l`.
pub open spec fn symbol(d: nat) -> char
    recommends
        d < 58,
{
    if d < 9 {
        ((0x31 + d) as u8) as char
    } else if d < 17 {
        ((0x41 + (d - 9)) as u8) as char
    } else if d < 22 {
        ((0x4A + (d - 17)) as u8) as char
    } else if d < 33 {
        ((0x50 + (d - 22)) as u8) as char
    } else if d < 44 {
        ((0x61 + (d - 33)) as u8) as char
    } else {
        ((0x6D + (d - 44)) as u8) as char
    }
}

/// The digit that the symbol `c` stands for, if `c` is in the alphabet.
pub open spec fn symbol_value(c: char) -> Option<nat> {
    let u = c as u32;
    if 0x31 <= u <= 0x39 {
        Some((u - 0x31) as nat)
    } else if 0x41 <= u <= 0x48 {
        Some((u - 0x41 + 9) as nat)
    } else if 0x4A <= u <= 0x4E {
        Some((u - 0x4A + 17) as nat)
    } else if 0x50 <= u <= 0x5A {
        Some((u - 0x50 + 22) as nat)
    } else if 0x61 <= u <= 0x6B {
        Some((u - 0x61 + 33) as nat)
    } else if 0x6D <= u <= 0x7A {
        Some((u - 0x6D + 44) as nat)
    } else {
        None
    }
}

/// The number that `bytes` holds, most significant byte first.
pub open spec fn be_value(bytes: Seq<u8>) -> nat
    decreases bytes.len(),
{
    if bytes.len() == 0 {
        0
    } else {
        be_value(bytes.drop_last()) * 256 + bytes.last() as nat
    }
}

/// How many zero bytes `bytes` begins with.
pub open spec fn leading_zeros(bytes: Seq<u8>) -> nat
    decreases bytes.len(),
{
    if bytes.len() == 0 || bytes[0] != 0 {
        0
    } else {
        1 + leading_zeros(bytes.drop_first())
    }
}

/// The base-58 numeral of `n`, most significant symbol first; empty for 0.
pub open spec fn numeral(n: nat) -> Seq<char>
    decreases n,
{
    if n == 0 {
        Seq::empty()
    } else {
        numeral(n / 58).push(symbol(n % 58))
    }
}

/// The Base58 text of `bytes`.
pub open spec fn base58(bytes: Seq<u8>) -> Seq<char> {
    Seq::new(leading_zeros(bytes), |i: int| '1') + numeral(be_value(bytes))
}

/// Whether every character of `text` is in the alphabet.
pub open spec fn is_base58(text: Seq<char>) -> bool {
    forall|i: int| 0 <= i < text.len() ==> (#[trigger] symbol_value(text[i])) is Some
}

/// The number that the base-58 numeral `text` stands for.
pub open spec fn numeral_value(text: Seq<char>) -> nat
    decreases text.len(),
{
    if text.len() == 0 {
        0
    } else {
        numeral_value(text.drop_last()) * 58 + symbol_value(text.last()).unwrap()
    }
}

/// How many `1` symbols `text` begins with.
pub open spec fn leading_ones(text: Seq<char>) -> nat
    decreases text.len(),
{
    if text.len() == 0 || text[0] != '1' {
        0
    } else {
        1 + leading_ones(text.drop_first())
    }
}

/// The bytes of `n`, most significant first, without leading zero bytes.
pub open spec fn be_bytes(n: nat) -> Seq<u8>
    decreases n,
{
    if n == 0 {
        Seq::empty()
    } else {
        be_bytes(n / 256).push((n % 256) as u8)
    }
}

/// The byte string that `text` is the Base58 text of, if `text` is made of
/// symbols of the alphabet.
pub open spec fn base58_decoded(text: Seq<char>) -> Option<Seq<u8>> {
    if is_base58(text) {
        Some(Seq::new(leading_ones(text), |i: int| 0u8) + be_bytes(numeral_value(text)))
    } else {
        None
    }
}

/// Every digit has a symbol of the alphabet, which stands for that digit,
/// and only the digit 0 has the symbol `1`.
pub proof fn lemma_symbol_value(d: nat)
    requires
        d < 58,
    ensures
        symbol_value(symbol(d)) == Some(d),
        symbol(d) == '1' <==> d == 0,
{
}

/// The symbols of the 58 digits, in order, spell the alphabet.
pub proof fn lemma_alphabet()
    ensures
        Seq::new(58, |d: int| symbol(d as nat))
            == "123456789ABCDEFGHJKLMNPQRSTUVWXYZabcdefghijkmnopqrstuvwxyz"@,
{
    reveal_strlit("123456789ABCDEFGHJKLMNPQRSTUVWXYZabcdefghijkmnopqrstuvwxyz");
    assert(Seq::new(58, |d: int| symbol(d as nat))
        =~= "123456789ABCDEFGHJKLMNPQRSTUVWXYZabcdefghijkmnopqrstuvwxyz"@);
}

/// `leading_zeros` counts exactly the zero bytes before the first byte that
/// is not zero.
proof fn lemma_leading_zeros(bytes: Seq<u8>)
    ensures
        leading_zeros(bytes) <= bytes.len(),
        forall|i: int| 0 <= i < leading_zeros(bytes) ==> bytes[i] == 0,
        leading_zeros(bytes) < bytes.len() ==> bytes[leading_zeros(bytes) as int] != 0,
    decreases bytes.len(),
{
    if bytes.len() == 0 || bytes[0] != 0 {
    } else {
        let rest = bytes.drop_first();
        lemma_leading_zeros(rest);
        assert forall|i: int| 0 <= i < leading_zeros(bytes) implies bytes[i] == 0 by {
            if i > 0 {
                assert(bytes[i] == rest[i - 1]);
            }
        }
        if leading_zeros(bytes) < bytes.len() {
            assert(bytes[leading_zeros(bytes) as int] == rest[leading_zeros(rest) as int]);
        }
    }
}

/// A count of zero bytes followed by a byte that is not zero, or by the end,
/// is the number of leading zeros.
proof fn lemma_leading_zeros_is(bytes: Seq<u8>, k: nat)
    requires
        k <= bytes.len(),
        forall|i: int| 0 <= i < k ==> bytes[i] == 0,
        k < bytes.len() ==> bytes[k as int] != 0,
    ensures
        leading_zeros(bytes) == k,
{
    lemma_leading_zeros(bytes);
    let z = leading_zeros(bytes);
    if z < k {
        assert(bytes[z as int] == 0);
    } else if k < z {
        assert(bytes[k as int] == 0);
    }
}

/// `leading_ones` counts exactly the `1` symbols before the first other
/// character.
proof fn lemma_leading_ones(text: Seq<char>)
    ensures
        leading_ones(text) <= text.len(),
        forall|i: int| 0 <= i < leading_ones(text) ==> text[i] == '1',
        leading_ones(text) < text.len() ==> text[leading_ones(text) as int] != '1',
    decreases text.len(),
{
    if text.len() == 0 || text[0] != '1' {
    } else {
        let rest = text.drop_first();
        lemma_leading_ones(rest);
        assert forall|i: int| 0 <= i < leading_ones(text) implies text[i] == '1' by {
            if i > 0 {
                assert(text[i] == rest[i - 1]);
            }
        }
        if leading_ones(text) < text.len() {
            assert(text[leading_ones(text) as int] == rest[leading_ones(rest) as int]);
        }
    }
}

/// A count of `1` symbols followed by another character, or by the end, is
/// the number of leading ones.
proof fn lemma_leading_ones_is(text: Seq<char>, k: nat)
    requires
        k <= text.len(),
        forall|i: int| 0 <= i < k ==> text[i] == '1',
        k < text.len() ==> text[k as int] != '1',
    ensures
        leading_ones(text) == k,
{
    lemma_leading_ones(text);
    let z = leading_ones(text);
    if z < k {
        assert(text[z as int] == '1');
    } else if k < z {
        assert(text[k as int] == '1');
    }
}

/// The numeral of `n` is made of symbols of the alphabet, stands for `n`,
/// and does not begin with the symbol of zero.
proof fn lemma_numeral(n: nat)
    ensures
        is_base58(numeral(n)),
        numeral_value(numeral(n)) == n,
        n > 0 ==> numeral(n).len() > 0 && numeral(n)[0] != '1',
        n == 0 ==> numeral(n).len() == 0,
    decreases n,
{
    if n > 0 {
        let head = numeral(n / 58);
        let text = numeral(n);
        lemma_numeral(n / 58);
        lemma_symbol_value(n % 58);
        assert(text == head.push(symbol(n % 58)));
        assert(text.drop_last() =~= head);
        assert(text.last() == symbol(n % 58));
        assert forall|i: int| 0 <= i < text.len() implies (#[trigger] symbol_value(text[i]))
            is Some by {
            if i < head.len() {
                assert(text[i] == head[i]);
            }
        }
        if n / 58 > 0 {
            assert(text[0] == head[0]);
        } else {
            assert(text[0] == symbol(n % 58));
        }
    }
}

/// Leading symbols of zero add nothing to the number a numeral stands for.
proof fn lemma_numeral_value_ones(k: nat, tail: Seq<char>)
    ensures
        numeral_value(Seq::new(k, |i: int| '1') + tail) == numeral_value(tail),
    decreases tail.len(), k,
{
    let ones = Seq::new(k, |i: int| '1');
    let text = ones + tail;
    if tail.len() > 0 {
        lemma_numeral_value_ones(k, tail.drop_last());
        assert(text.drop_last() =~= ones + tail.drop_last());
        assert(text.last() == tail.last());
    } else if k > 0 {
        let fewer = Seq::new((k - 1) as nat, |i: int| '1');
        lemma_numeral_value_ones((k - 1) as nat, tail);
        assert(text.drop_last() =~= fewer + tail);
        assert(text.last() == '1');
    } else {
        assert(text =~= tail);
    }
}

/// A byte string stands for zero exactly when all its bytes are zero.
proof fn lemma_be_value_zero(bytes: Seq<u8>)
    ensures
        be_value(bytes) == 0 <==> leading_zeros(bytes) == bytes.len(),
    decreases bytes.len(),
{
    lemma_leading_zeros(bytes);
    if bytes.len() > 0 {
        let init = bytes.drop_last();
        lemma_be_value_zero(init);
        lemma_leading_zeros(init);
        if be_value(bytes) == 0 {
            assert(be_value(init) == 0 && bytes.last() == 0);
            assert forall|i: int| 0 <= i < bytes.len() implies bytes[i] == 0 by {
                if i < init.len() {
                    assert(bytes[i] == init[i]);
                }
            }
            lemma_leading_zeros_is(bytes, bytes.len());
        }
        if leading_zeros(bytes) == bytes.len() {
            assert forall|i: int| 0 <= i < init.len() implies init[i] == 0 by {
                assert(init[i] == bytes[i]);
            }
            lemma_leading_zeros_is(init, init.len());
            assert(bytes.last() == bytes[bytes.len() - 1]);
        }
    }
}

/// The bytes of the number that `bytes` holds are `bytes` without its
/// leading zeros.
proof fn lemma_be_bytes_of_value(bytes: Seq<u8>)
    ensures
        leading_zeros(bytes) <= bytes.len(),
        be_bytes(be_value(bytes)) == bytes.skip(leading_zeros(bytes) as int),
    decreases bytes.len(),
{
    lemma_leading_zeros(bytes);
    lemma_be_value_zero(bytes);
    let n = be_value(bytes);
    if n == 0 {
        assert(bytes.skip(leading_zeros(bytes) as int) =~= Seq::<u8>::empty());
    } else {
        let init = bytes.drop_last();
        let z = leading_zeros(init);
        lemma_be_bytes_of_value(init);
        lemma_leading_zeros(init);
        assert(n / 256 == be_value(init) && n % 256 == bytes.last());
        assert forall|i: int| 0 <= i < z implies bytes[i] == 0 by {
            assert(bytes[i] == init[i]);
        }
        if z < init.len() {
            assert(bytes[z as int] == init[z as int]);
        } else {
            lemma_be_value_zero(init);
            assert(bytes[z as int] == bytes.last());
        }
        lemma_leading_zeros_is(bytes, z);
        assert(init.skip(z as int).push(bytes.last()) =~= bytes.skip(z as int));
    }
}

/// Decoding the Base58 text of a byte string gives the byte string back.
pub proof fn lemma_base58_round_trip(bytes: Seq<u8>)
    ensures
        is_base58(base58(bytes)),
        base58_decoded(base58(bytes)) == Some(bytes),
{
    let z = leading_zeros(bytes);
    let n = be_value(bytes);
    let ones = Seq::new(z, |i: int| '1');
    let text = base58(bytes);
    lemma_numeral(n);
    lemma_symbol_value(0);
    assert forall|i: int| 0 <= i < text.len() implies (#[trigger] symbol_value(text[i]))
        is Some by {
        if i >= z {
            assert(text[i] == numeral(n)[i - z]);
        }
    }
    if n > 0 {
        assert(text[z as int] == numeral(n)[0]);
    }
    lemma_leading_ones_is(text, z);
    lemma_numeral_value_ones(z, numeral(n));
    lemma_be_bytes_of_value(bytes);
    lemma_leading_zeros(bytes);
    assert(Seq::new(z, |i: int| 0u8) + bytes.skip(z as int) =~= bytes);
}

/// Trusted: `bs58::encode(bytes).into_string()` with the default (Bitcoin)
/// alphabet. The claim is that the crate writes the big-endian number in
/// base 58, most significant symbol first, after one `1` for each leading
/// zero byte.
#[verifier::external_body]
fn bs58_encode(bytes: &[u8]) -> (text: String)
    ensures
        text@ == base58(bytes@),
{
    bs58::encode(bytes).into_string()
}

/// Writes `bytes` as Base58 text.
pub fn to_base58(bytes: &[u8]) -> (text: String)
    ensures
        text@ == base58(bytes@),
        base58_decoded(text@) == Some(bytes@),
{
    proof {
        lemma_base58_round_trip(bytes@);
    }
    bs58_encode(bytes)
}

} // verus!
