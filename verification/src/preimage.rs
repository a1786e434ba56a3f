//! Proof of payment: a preimage, written in hexadecimal, opens a payment
//! hash when its SHA-256 digest is that hash.

use vstd::prelude::*;
use crate::text::chars_of;

verus! {

/// Number of bytes in a payment preimage and in a payment hash.
pub const PREIMAGE_BYTES: usize = 32;

/// The SHA-256 digest of `data`.
pub uninterp spec fn sha256_digest(data: Seq<u8>) -> Seq<u8>;

/// Calls `bitcoin_hashes::Hash::hash` for `sha256::Hash` and takes the digest
/// out with `to_byte_array`. Trusted: the 32 bytes returned are the SHA-256 digest of
/// `data`, which depends on `data` alone. Inputs of 2^61 bytes or more, whose
/// length in bits the padding cannot hold, are left out.
#[verifier::external_body]
fn sha256(data: &Vec<u8>) -> (digest: Vec<u8>)
    requires
        data@.len() < 0x2000_0000_0000_0000,
    ensures
        digest@ == sha256_digest(data@),
        digest@.len() == 32,
{
    let hash: bitcoin_hashes::sha256::Hash = bitcoin_hashes::Hash::hash(data.as_slice());
    bitcoin_hashes::Hash::to_byte_array(hash).to_vec()
}

/// The value of a hexadecimal digit, in either case.
pub open spec fn hex_value(c: char) -> Option<u8> {
    if '0' <= c <= '9' {
        Some((c as u8 - '0' as u8) as u8)
    } else if 'a' <= c <= 'f' {
        Some((c as u8 - 'a' as u8 + 10) as u8)
    } else if 'A' <= c <= 'F' {
        Some((c as u8 - 'A' as u8 + 10) as u8)
    } else {
        None
    }
}

/// The lower-case hexadecimal digit of a value below 16.
pub open spec fn hex_digit(v: int) -> char {
    if v < 10 {
        ('0' as u8 + v) as u8 as char
    } else {
        ('a' as u8 + v - 10) as u8 as char
    }
}

/// Text made of an even number of hexadecimal digits.
pub open spec fn is_hex_text(s: Seq<char>) -> bool {
    s.len() % 2 == 0 && forall|i: int| 0 <= i < s.len() ==> (#[trigger] hex_value(s[i])) is Some
}

/// The byte that the digit pair at position `i` of `s` writes.
pub open spec fn hex_byte_at(s: Seq<char>, i: int) -> u8 {
    (hex_value(s[2 * i]).unwrap() * 16 + hex_value(s[2 * i + 1]).unwrap()) as u8
}

/// The bytes that hexadecimal text writes, two digits to a byte; `None` for
/// text that is not hexadecimal.
pub open spec fn hex_decoded(s: Seq<char>) -> Option<Seq<u8>> {
    if is_hex_text(s) {
        Some(Seq::new(s.len() / 2, |i: int| hex_byte_at(s, i)))
    } else {
        None
    }
}

/// Bytes written as lower-case hexadecimal text.
pub open spec fn hex_encoded(bytes: Seq<u8>) -> Seq<char> {
    Seq::new(
        2 * bytes.len(),
        |i: int|
            if i % 2 == 0 {
                hex_digit(bytes[i / 2] as int / 16)
            } else {
                hex_digit(bytes[i / 2] as int % 16)
            },
    )
}

/// A preimage opens a payment hash when both are hexadecimal, the preimage
/// has 32 bytes, and its SHA-256 digest is the hash.
pub open spec fn preimage_opens(preimage: Seq<char>, payment_hash: Seq<char>) -> bool {
    &&& hex_decoded(preimage) matches Some(p)
    &&& p.len() == PREIMAGE_BYTES
    &&& hex_decoded(payment_hash) == Some(sha256_digest(p))
}

fn hex_value_of(c: char) -> (r: Option<u8>)
    ensures
        r == hex_value(c),
{
    if '0' <= c && c <= '9' {
        Some(c as u8 - '0' as u8)
    } else if 'a' <= c && c <= 'f' {
        Some(c as u8 - 'a' as u8 + 10)
    } else if 'A' <= c && c <= 'F' {
        Some(c as u8 - 'A' as u8 + 10)
    } else {
        None
    }
}

fn hex_digit_str(v: u8) -> (r: &'static str)
    requires
        v < 16,
    ensures
        r@ == seq![hex_digit(v as int)],
{
    proof {
        reveal_strlit("0");
        reveal_strlit("1");
        reveal_strlit("2");
        reveal_strlit("3");
        reveal_strlit("4");
        reveal_strlit("5");
        reveal_strlit("6");
        reveal_strlit("7");
        reveal_strlit("8");
        reveal_strlit("9");
        reveal_strlit("a");
        reveal_strlit("b");
        reveal_strlit("c");
        reveal_strlit("d");
        reveal_strlit("e");
        reveal_strlit("f");
    }
    let r = if v == 0 {
        "0"
    } else if v == 1 {
        "1"
    } else if v == 2 {
        "2"
    } else if v == 3 {
        "3"
    } else if v == 4 {
        "4"
    } else if v == 5 {
        "5"
    } else if v == 6 {
        "6"
    } else if v == 7 {
        "7"
    } else if v == 8 {
        "8"
    } else if v == 9 {
        "9"
    } else if v == 10 {
        "a"
    } else if v == 11 {
        "b"
    } else if v == 12 {
        "c"
    } else if v == 13 {
        "d"
    } else if v == 14 {
        "e"
    } else {
        "f"
    };
    assert(r@ =~= seq![hex_digit(v as int)]);
    r
}

/// Reads hexadecimal text into bytes.
pub fn hex_decode(s: &str) -> (r: Option<Vec<u8>>)
    ensures
        match r {
            Some(bytes) => hex_decoded(s@) == Some(bytes@),
            None => hex_decoded(s@) is None,
        },
{
    let v = chars_of(s);
    let n = v.len();
    if n % 2 != 0 {
        return None;
    }
    let mut out: Vec<u8> = Vec::new();
    let mut i: usize = 0;
    while i < n / 2
        invariant
            v@ == s@,
            n == v.len(),
            n % 2 == 0,
            i <= n / 2,
            out.len() == i,
            forall|k: int| 0 <= k < 2 * i ==> (#[trigger] hex_value(v@[k])) is Some,
            forall|k: int| 0 <= k < i ==> out@[k] == hex_byte_at(v@, k),
        decreases n / 2 - i,
    {
        let hi = hex_value_of(v[2 * i]);
        let lo = hex_value_of(v[2 * i + 1]);
        match (hi, lo) {
            (Some(h), Some(l)) => {
                out.push(h * 16 + l);
            },
            _ => {
                assert(hex_value(s@[2 * i as int]) is None || hex_value(s@[2 * i + 1]) is None);
                return None;
            },
        }
        i = i + 1;
    }
    assert(out@ =~= Seq::new(s@.len() / 2, |k: int| hex_byte_at(s@, k)));
    Some(out)
}

/// Writes bytes as lower-case hexadecimal text.
pub fn hex_encode(bytes: &Vec<u8>) -> (r: String)
    ensures
        r@ == hex_encoded(bytes@),
{
    let mut out = String::new();
    let mut i: usize = 0;
    while i < bytes.len()
        invariant
            i <= bytes.len(),
            out@ =~= hex_encoded(bytes@).take(2 * i),
        decreases bytes.len() - i,
    {
        let b = bytes[i];
        out.append(hex_digit_str(b / 16));
        out.append(hex_digit_str(b % 16));
        i = i + 1;
    }
    assert(hex_encoded(bytes@).take(2 * i) =~= hex_encoded(bytes@));
    out
}

/// Decoding what `hex_encoded` wrote gives the bytes back.
pub proof fn lemma_hex_round_trip(bytes: Seq<u8>)
    ensures
        hex_decoded(hex_encoded(bytes)) == Some(bytes),
{
    let s = hex_encoded(bytes);
    assert forall|i: int| 0 <= i < s.len() implies (#[trigger] hex_value(s[i])) is Some by {
        let b = bytes[i / 2] as int;
        assert(0 <= b / 16 < 16 && 0 <= b % 16 < 16);
    }
    assert(is_hex_text(s));
    let back = Seq::new(s.len() / 2, |i: int| hex_byte_at(s, i));
    assert forall|i: int| 0 <= i < bytes.len() implies back[i] == bytes[i] by {
        let b = bytes[i] as int;
        assert(0 <= b / 16 < 16 && 0 <= b % 16 < 16);
        assert((2 * i) % 2 == 0 && (2 * i) / 2 == i);
        assert((2 * i + 1) % 2 == 1 && (2 * i + 1) / 2 == i);
        assert(s[2 * i] == hex_digit(b / 16));
        assert(s[2 * i + 1] == hex_digit(b % 16));
        assert(hex_value(hex_digit(b / 16)) == Some((b / 16) as u8));
        assert(hex_value(hex_digit(b % 16)) == Some((b % 16) as u8));
        assert((b / 16) * 16 + b % 16 == b);
    }
    assert(back =~= bytes);
}

/// Whether `preimage` opens `payment_hash`.
pub fn verify_preimage(preimage: &str, payment_hash: &str) -> (r: bool)
    ensures
        r == preimage_opens(preimage@, payment_hash@),
{
    match hex_decode(preimage) {
        None => false,
        Some(p) => {
            if p.len() != PREIMAGE_BYTES {
                return false;
            }
            match hex_decode(payment_hash) {
                None => false,
                Some(h) => {
                    let digest = sha256(&p);
                    bytes_eq(&h, &digest)
                },
            }
        },
    }
}

fn bytes_eq(a: &Vec<u8>, b: &Vec<u8>) -> (r: bool)
    ensures
        r == (a@ == b@),
{
    if a.len() != b.len() {
        return false;
    }
    let mut i: usize = 0;
    while i < a.len()
        invariant
            a.len() == b.len(),
            i <= a.len(),
            forall|k: int| 0 <= k < i ==> a@[k] == b@[k],
        decreases a.len() - i,
    {
        if a[i] != b[i] {
            return false;
        }
        i = i + 1;
    }
    assert(a@ =~= b@);
    true
}

/// The payment hash that `preimage` opens, in lower-case hexadecimal; `None`
/// when `preimage` is not 32 bytes of hexadecimal.
pub fn payment_hash_of(preimage: &str) -> (r: Option<String>)
    ensures
        match r {
            Some(hash) => {
                &&& hex_decoded(preimage@) matches Some(p)
                &&& p.len() == PREIMAGE_BYTES
                &&& hash@ == hex_encoded(sha256_digest(p))
                &&& preimage_opens(preimage@, hash@)
            },
            None => !(hex_decoded(preimage@) matches Some(p) && p.len() == PREIMAGE_BYTES),
        },
{
    match hex_decode(preimage) {
        None => None,
        Some(p) => {
            if p.len() != PREIMAGE_BYTES {
                return None;
            }
            let digest = sha256(&p);
            proof {
                lemma_hex_round_trip(digest@);
            }
            Some(hex_encode(&digest))
        },
    }
}

} // verus!
