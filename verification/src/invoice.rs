//! Reading the payment hash out of a BOLT11 invoice.
//!
//! An invoice is a human-readable part that begins with `ln`, the separator
//! `1`, and a data part in which every character stands for five bits. The
//! data part holds a timestamp of 7 characters, then tagged fields, then a
//! signature of 104 characters and a checksum of 6. A tagged field is one
//! character for its type, two for the length of its data, and the data.
//! The payment hash is the field of type 1 whose data is 52 characters long.
//!
//! Neither the checksum nor the signature is held against the text here:
//! that is the work of the wallet that pays. A hash read from a damaged
//! invoice is a hash that no preimage of the wallet opens, so that it can
//! only make a payment go unproved.

use vstd::prelude::*;
use crate::preimage::{hex_encode, hex_encoded};
use crate::text::chars_of;

verus! {

/// Characters of the timestamp at the start of the data part.
pub const TIMESTAMP_CHARS: usize = 7;

/// Characters of the signature and the checksum at the end of the data part.
pub const TRAILER_CHARS: usize = 110;

/// Characters that write a payment hash: 256 bits, and 4 bits of padding.
pub const HASH_CHARS: usize = 52;

/// The type of the field that holds the payment hash.
pub const PAYMENT_HASH_TYPE: u8 = 1;

/// The five bits that a character of the data part stands for, in either
/// case; `None` for a character that stands for none.
pub open spec fn bech32_value(c: char) -> Option<u8> {
    if c == 'q' || c == 'Q' {
        Some(0u8)
    } else if c == 'p' || c == 'P' {
        Some(1u8)
    } else if c == 'z' || c == 'Z' {
        Some(2u8)
    } else if c == 'r' || c == 'R' {
        Some(3u8)
    } else if c == 'y' || c == 'Y' {
        Some(4u8)
    } else if c == '9' {
        Some(5u8)
    } else if c == 'x' || c == 'X' {
        Some(6u8)
    } else if c == '8' {
        Some(7u8)
    } else if c == 'g' || c == 'G' {
        Some(8u8)
    } else if c == 'f' || c == 'F' {
        Some(9u8)
    } else if c == '2' {
        Some(10u8)
    } else if c == 't' || c == 'T' {
        Some(11u8)
    } else if c == 'v' || c == 'V' {
        Some(12u8)
    } else if c == 'd' || c == 'D' {
        Some(13u8)
    } else if c == 'w' || c == 'W' {
        Some(14u8)
    } else if c == '0' {
        Some(15u8)
    } else if c == 's' || c == 'S' {
        Some(16u8)
    } else if c == '3' {
        Some(17u8)
    } else if c == 'j' || c == 'J' {
        Some(18u8)
    } else if c == 'n' || c == 'N' {
        Some(19u8)
    } else if c == '5' {
        Some(20u8)
    } else if c == '4' {
        Some(21u8)
    } else if c == 'k' || c == 'K' {
        Some(22u8)
    } else if c == 'h' || c == 'H' {
        Some(23u8)
    } else if c == 'c' || c == 'C' {
        Some(24u8)
    } else if c == 'e' || c == 'E' {
        Some(25u8)
    } else if c == '6' {
        Some(26u8)
    } else if c == 'm' || c == 'M' {
        Some(27u8)
    } else if c == 'u' || c == 'U' {
        Some(28u8)
    } else if c == 'a' || c == 'A' {
        Some(29u8)
    } else if c == '7' {
        Some(30u8)
    } else if c == 'l' || c == 'L' {
        Some(31u8)
    } else {
        None
    }
}

/// The last position of `c` in `s`, or -1 where `c` does not occur.
pub open spec fn last_index_of(s: Seq<char>, c: char) -> int
    decreases s.len(),
{
    if s.len() == 0 {
        -1
    } else if s.last() == c {
        s.len() - 1
    } else {
        last_index_of(s.drop_last(), c)
    }
}

/// `last_index_of` is the last occurrence: it holds `c`, and nothing after
/// it does.
pub proof fn lemma_last_index_of(s: Seq<char>, c: char)
    ensures
        -1 <= last_index_of(s, c) < s.len(),
        last_index_of(s, c) >= 0 ==> s[last_index_of(s, c)] == c,
        forall|j: int| last_index_of(s, c) < j < s.len() ==> s[j] != c,
    decreases s.len(),
{
    if s.len() > 0 && s.last() != c {
        lemma_last_index_of(s.drop_last(), c);
        assert forall|j: int| last_index_of(s, c) < j < s.len() implies s[j] != c by {
            if j < s.len() - 1 {
                assert(s.drop_last()[j] == s[j]);
            }
        }
    }
}

/// Whether every character of `s` stands for five bits.
pub open spec fn is_data_part(s: Seq<char>) -> bool {
    forall|i: int| 0 <= i < s.len() ==> (#[trigger] bech32_value(s[i])) is Some
}

/// The five-bit values that the characters of a data part stand for.
pub open spec fn data_values(s: Seq<char>) -> Option<Seq<u8>> {
    if is_data_part(s) {
        Some(Seq::new(s.len(), |i: int| bech32_value(s[i]).unwrap()))
    } else {
        None
    }
}

/// Where the data of the payment hash begins among the tagged fields that
/// stand in `data` from `from` up to `end`: the data of the first field of
/// type 1 and length 52. `None` where there is no such field, or where a
/// field runs over `end`.
pub open spec fn hash_field_at(data: Seq<u8>, from: int, end: int) -> Option<int>
    decreases end - from,
{
    if from < 0 || from + 3 > end || end > data.len() {
        None
    } else {
        let length = data[from + 1] as int * 32 + data[from + 2] as int;
        if from + 3 + length > end {
            None
        } else if data[from] == PAYMENT_HASH_TYPE && length == HASH_CHARS {
            Some(from + 3)
        } else {
            hash_field_at(data, from + 3 + length, end)
        }
    }
}

/// Bit number `j` of the bits that five-bit values write, the highest bit
/// of each value first.
pub open spec fn bit_at(groups: Seq<u8>, j: int) -> int {
    let g = groups[j / 5] as int;
    let place = j % 5;
    if place == 0 {
        g / 16 % 2
    } else if place == 1 {
        g / 8 % 2
    } else if place == 2 {
        g / 4 % 2
    } else if place == 3 {
        g / 2 % 2
    } else {
        g % 2
    }
}

/// Byte number `k` of the bits that five-bit values write.
pub open spec fn byte_at(groups: Seq<u8>, k: int) -> int {
    bit_at(groups, 8 * k) * 128 + bit_at(groups, 8 * k + 1) * 64 + bit_at(groups, 8 * k + 2) * 32
        + bit_at(groups, 8 * k + 3) * 16 + bit_at(groups, 8 * k + 4) * 8 + bit_at(
        groups,
        8 * k + 5,
    ) * 4 + bit_at(groups, 8 * k + 6) * 2 + bit_at(groups, 8 * k + 7)
}

/// The 32 bytes that 52 five-bit values write; the 4 bits left over are
/// padding.
pub open spec fn hash_bytes(groups: Seq<u8>) -> Seq<u8> {
    Seq::new(32, |k: int| byte_at(groups, k) as u8)
}

/// The payment hash that an invoice names, or `None` where the text has not
/// the form of an invoice or names no payment hash.
pub open spec fn invoice_hash(bolt11: Seq<char>) -> Option<Seq<u8>> {
    let separator = last_index_of(bolt11, '1');
    if separator < 2 || !(bolt11[0] == 'l' || bolt11[0] == 'L') || !(bolt11[1] == 'n' || bolt11[1]
        == 'N') {
        None
    } else {
        match data_values(bolt11.skip(separator + 1)) {
            None => None,
            Some(data) => if data.len() < TIMESTAMP_CHARS + TRAILER_CHARS {
                None
            } else {
                match hash_field_at(data, TIMESTAMP_CHARS as int, data.len() - TRAILER_CHARS) {
                    None => None,
                    Some(at) => Some(hash_bytes(data.subrange(at, at + HASH_CHARS))),
                }
            },
        }
    }
}

fn value_of(c: char) -> (r: Option<u8>)
    ensures
        r == bech32_value(c),
{
    if c == 'q' || c == 'Q' {
        Some(0)
    } else if c == 'p' || c == 'P' {
        Some(1)
    } else if c == 'z' || c == 'Z' {
        Some(2)
    } else if c == 'r' || c == 'R' {
        Some(3)
    } else if c == 'y' || c == 'Y' {
        Some(4)
    } else if c == '9' {
        Some(5)
    } else if c == 'x' || c == 'X' {
        Some(6)
    } else if c == '8' {
        Some(7)
    } else if c == 'g' || c == 'G' {
        Some(8)
    } else if c == 'f' || c == 'F' {
        Some(9)
    } else if c == '2' {
        Some(10)
    } else if c == 't' || c == 'T' {
        Some(11)
    } else if c == 'v' || c == 'V' {
        Some(12)
    } else if c == 'd' || c == 'D' {
        Some(13)
    } else if c == 'w' || c == 'W' {
        Some(14)
    } else if c == '0' {
        Some(15)
    } else if c == 's' || c == 'S' {
        Some(16)
    } else if c == '3' {
        Some(17)
    } else if c == 'j' || c == 'J' {
        Some(18)
    } else if c == 'n' || c == 'N' {
        Some(19)
    } else if c == '5' {
        Some(20)
    } else if c == '4' {
        Some(21)
    } else if c == 'k' || c == 'K' {
        Some(22)
    } else if c == 'h' || c == 'H' {
        Some(23)
    } else if c == 'c' || c == 'C' {
        Some(24)
    } else if c == 'e' || c == 'E' {
        Some(25)
    } else if c == '6' {
        Some(26)
    } else if c == 'm' || c == 'M' {
        Some(27)
    } else if c == 'u' || c == 'U' {
        Some(28)
    } else if c == 'a' || c == 'A' {
        Some(29)
    } else if c == '7' {
        Some(30)
    } else if c == 'l' || c == 'L' {
        Some(31)
    } else {
        None
    }
}

/// The last position of `c` in `v`, if it occurs.
fn find_last(v: &Vec<char>, c: char) -> (r: Option<usize>)
    ensures
        match r {
            Some(i) => i == last_index_of(v@, c),
            None => last_index_of(v@, c) == -1,
        },
{
    let mut i: usize = v.len();
    assert(v@.take(i as int) =~= v@);
    while i > 0
        invariant
            i <= v.len(),
            last_index_of(v@, c) == last_index_of(v@.take(i as int), c),
        decreases i,
    {
        proof {
            assert(v@.take(i as int).drop_last() =~= v@.take(i - 1));
            assert(v@.take(i as int).last() == v@[i - 1]);
        }
        if v[i - 1] == c {
            return Some(i - 1);
        }
        i = i - 1;
    }
    None
}

/// The five-bit values of the characters of `v` from `from` on.
fn values_from(v: &Vec<char>, from: usize) -> (r: Option<Vec<u8>>)
    requires
        from <= v.len(),
    ensures
        match r {
            Some(data) => data_values(v@.skip(from as int)) == Some(data@),
            None => data_values(v@.skip(from as int)) is None,
        },
{
    let ghost part = v@.skip(from as int);
    let mut data: Vec<u8> = Vec::new();
    let mut i: usize = from;
    while i < v.len()
        invariant
            from <= i <= v.len(),
            part == v@.skip(from as int),
            data@.len() == i - from,
            forall|k: int| 0 <= k < i - from ==> bech32_value(#[trigger] part[k]) == Some(data@[k]),
        decreases v.len() - i,
    {
        assert(part[i - from] == v@[i as int]);
        match value_of(v[i]) {
            Some(value) => {
                data.push(value);
            },
            None => {
                assert(bech32_value(part[i - from]) is None);
                return None;
            },
        }
        i = i + 1;
    }
    assert(is_data_part(part));
    assert(data@ =~= Seq::new(part.len(), |k: int| bech32_value(part[k]).unwrap()));
    Some(data)
}

/// Where the data of the payment hash begins among the tagged fields.
fn find_hash_field(data: &Vec<u8>, from: usize, end: usize) -> (r: Option<usize>)
    requires
        from <= end <= data.len(),
        forall|k: int| 0 <= k < data.len() ==> (#[trigger] data@[k]) < 32,
    ensures
        match r {
            Some(at) => hash_field_at(data@, from as int, end as int) == Some(at as int) && at
                + HASH_CHARS <= end,
            None => hash_field_at(data@, from as int, end as int) is None,
        },
{
    let mut at: usize = from;
    while end - at >= 3
        invariant
            from <= at <= end <= data.len(),
            forall|k: int| 0 <= k < data.len() ==> (#[trigger] data@[k]) < 32,
            hash_field_at(data@, from as int, end as int) == hash_field_at(
                data@,
                at as int,
                end as int,
            ),
        decreases end - at,
    {
        assert(data@[at + 1] < 32 && data@[at + 2] < 32);
        let length: usize = (data[at + 1] as usize) * 32 + (data[at + 2] as usize);
        if length > end - at - 3 {
            return None;
        }
        if data[at] == PAYMENT_HASH_TYPE && length == HASH_CHARS {
            return Some(at + 3);
        }
        at = at + 3 + length;
    }
    None
}

/// Bit number `j` of the 52 values that begin at `at`.
fn bit_of(data: &Vec<u8>, at: usize, j: usize) -> (bit: u8)
    requires
        at + HASH_CHARS <= data.len(),
        j < 256,
    ensures
        bit == bit_at(data@.subrange(at as int, at + HASH_CHARS), j as int),
        bit <= 1,
{
    assert(data@.subrange(at as int, at + HASH_CHARS)[(j / 5) as int] == data@[at + j / 5]);
    let g: u8 = data[at + j / 5];
    let place: usize = j % 5;
    if place == 0 {
        g / 16 % 2
    } else if place == 1 {
        g / 8 % 2
    } else if place == 2 {
        g / 4 % 2
    } else if place == 3 {
        g / 2 % 2
    } else {
        g % 2
    }
}

/// The 32 bytes that the 52 values from `at` on write.
fn read_hash(data: &Vec<u8>, at: usize) -> (bytes: Vec<u8>)
    requires
        at + HASH_CHARS <= data.len(),
    ensures
        bytes@ == hash_bytes(data@.subrange(at as int, at + HASH_CHARS)),
{
    let ghost groups = data@.subrange(at as int, at + HASH_CHARS);
    let mut bytes: Vec<u8> = Vec::new();
    let mut k: usize = 0;
    while k < 32
        invariant
            k <= 32,
            at + HASH_CHARS <= data.len(),
            groups == data@.subrange(at as int, at + HASH_CHARS),
            bytes@.len() == k,
            forall|i: int| 0 <= i < k ==> #[trigger] bytes@[i] == byte_at(groups, i) as u8,
        decreases 32 - k,
    {
        let b0: u8 = bit_of(data, at, 8 * k);
        let b1: u8 = bit_of(data, at, 8 * k + 1);
        let b2: u8 = bit_of(data, at, 8 * k + 2);
        let b3: u8 = bit_of(data, at, 8 * k + 3);
        let b4: u8 = bit_of(data, at, 8 * k + 4);
        let b5: u8 = bit_of(data, at, 8 * k + 5);
        let b6: u8 = bit_of(data, at, 8 * k + 6);
        let b7: u8 = bit_of(data, at, 8 * k + 7);
        let byte: u8 = b0 * 128 + b1 * 64 + b2 * 32 + b3 * 16 + b4 * 8 + b5 * 4 + b6 * 2 + b7;
        bytes.push(byte);
        k = k + 1;
    }
    assert(bytes@ =~= hash_bytes(groups));
    bytes
}

/// Reads the payment hash that an invoice names.
pub fn payment_hash_bytes(bolt11: &str) -> (r: Option<Vec<u8>>)
    ensures
        match r {
            Some(bytes) => invoice_hash(bolt11@) == Some(bytes@) && bytes@.len() == 32,
            None => invoice_hash(bolt11@) is None,
        },
{
    let text = chars_of(bolt11);
    let separator: usize = match find_last(&text, '1') {
        Some(i) => i,
        None => {
            return None;
        },
    };
    proof {
        lemma_last_index_of(text@, '1');
    }
    if separator < 2 {
        return None;
    }
    if !(text[0] == 'l' || text[0] == 'L') || !(text[1] == 'n' || text[1] == 'N') {
        return None;
    }
    let data = match values_from(&text, separator + 1) {
        Some(data) => data,
        None => {
            return None;
        },
    };
    if data.len() < TIMESTAMP_CHARS + TRAILER_CHARS {
        return None;
    }
    assert forall|k: int| 0 <= k < data.len() implies (#[trigger] data@[k]) < 32 by {
        assert(bech32_value(bolt11@.skip(separator + 1)[k]) == Some(data@[k]));
    }
    match find_hash_field(&data, TIMESTAMP_CHARS, data.len() - TRAILER_CHARS) {
        Some(at) => Some(read_hash(&data, at)),
        None => None,
    }
}

/// Reads the payment hash that an invoice names, in lower-case hexadecimal.
pub fn invoice_payment_hash(bolt11: &str) -> (r: Option<String>)
    ensures
        match r {
            Some(hash) => invoice_hash(bolt11@) matches Some(bytes) && hash@ == hex_encoded(bytes),
            None => invoice_hash(bolt11@) is None,
        },
{
    match payment_hash_bytes(bolt11) {
        Some(bytes) => Some(hex_encode(&bytes)),
        None => None,
    }
}

} // verus!
