use vstd::prelude::*;
use vstd::string::StringExecFns;
use crate::error::TokenError;
use crate::text::{push_char, same_text};

verus! {

/// Length in bytes of a raw public key.
pub const KEY_LEN: usize = 32;

/// Number of characters in an address's checksum segment.
pub const CHECKSUM_LEN: usize = 4;

/// Number of characters in the `pay:sov:` qualifier.
pub const PREFIX_LEN: usize = 8;

/// The modulus of the checksum value: four base58 digits.
pub const CHECKSUM_MOD: u64 = 11316496;

/// Largest submitter identity length accepted.
pub const MAX_DID_LEN: usize = 64;

/// Bitcoin-alphabet base58 text of a byte string, as the `bs58` crate writes it.
pub uninterp spec fn b58_of(b: Seq<u8>) -> Seq<char>;

/// The qualifier that every payment address starts with.
pub open spec fn address_prefix() -> Seq<char> {
    "pay:sov:"@
}

/// The base58 digit with value `d < 58`.
pub open spec fn b58_char(d: nat) -> char {
    "123456789ABCDEFGHJKLMNPQRSTUVWXYZabcdefghijkmnopqrstuvwxyz"@[d as int]
}

/// Polynomial hash of the encoded key, reduced to four base58 digits.
pub open spec fn checksum_value(m: Seq<char>) -> nat
    decreases m.len(),
{
    if m.len() == 0 {
        0
    } else {
        (checksum_value(m.drop_last()) * 31 + (m.last() as u32) as nat) % (CHECKSUM_MOD as nat)
    }
}

/// The checksum segment for the encoded key `m`, most significant digit first.
pub open spec fn checksum_chars(m: Seq<char>) -> Seq<char> {
    let v = checksum_value(m);
    seq![
        b58_char((v / 195112) % 58),
        b58_char((v / 3364) % 58),
        b58_char((v / 58) % 58),
        b58_char(v % 58),
    ]
}

/// The payment address of the raw public key `k`.
pub open spec fn address_of(k: Seq<u8>) -> Seq<char> {
    address_prefix() + b58_of(k) + checksum_chars(b58_of(k))
}

/// The encoded-key segment of an address text.
pub open spec fn address_body(s: Seq<char>) -> Seq<char> {
    s.subrange(PREFIX_LEN as int, s.len() - CHECKSUM_LEN as int)
}

/// The checksum segment of an address text.
pub open spec fn address_checksum(s: Seq<char>) -> Seq<char> {
    s.subrange(s.len() - CHECKSUM_LEN as int, s.len() as int)
}

/// The text has the qualifier, room for a checksum, and a checksum that verifies.
pub open spec fn framed(s: Seq<char>) -> bool {
    &&& s.len() >= PREFIX_LEN + CHECKSUM_LEN
    &&& s.subrange(0, PREFIX_LEN as int) == address_prefix()
    &&& address_checksum(s) == checksum_chars(address_body(s))
}

/// The text is the payment address of some raw public key.
pub open spec fn is_valid_address(s: Seq<char>) -> bool {
    &&& framed(s)
    &&& exists|k: Seq<u8>| k.len() == KEY_LEN && #[trigger] b58_of(k) == address_body(s)
}

/// A decoding result, with the key as a sequence of bytes.
pub open spec fn key_result(r: Result<Vec<u8>, TokenError>) -> Result<Seq<u8>, TokenError> {
    match r {
        Ok(v) => Ok(v@),
        Err(e) => Err(e),
    }
}

/// What decoding the text `s` may return: the key exactly when `s` is a
/// valid address, and `InvalidAddress` otherwise.
pub open spec fn decode_outcome(s: Seq<char>, r: Result<Seq<u8>, TokenError>) -> bool {
    &&& (r is Ok <==> is_valid_address(s))
    &&& (r matches Ok(k) ==> k.len() == KEY_LEN && address_of(k) == s)
    &&& (r matches Err(e) ==> e == TokenError::InvalidAddress)
    &&& forall|k: Seq<u8>|
        k.len() == KEY_LEN && #[trigger] address_of(k) == s ==> r == Ok::<Seq<u8>, TokenError>(k)
}

/// Relies on bs58::encode(..).into_string(): the Bitcoin-alphabet base58 text of the bytes.
#[verifier::external_body]
fn base58_encode(b: &[u8]) -> (r: String)
    ensures
        r@ == b58_of(b@),
{
    bs58::encode(b).into_string()
}

/// Relies on bs58::decode(..).into_vec(): it accepts exactly the texts that
/// bs58 writes, and returns the bytes that they encode.
#[verifier::external_body]
fn base58_decode(s: &str) -> (r: Option<Vec<u8>>)
    ensures
        r matches Some(v) ==> b58_of(v@) == s@,
        forall|b: Seq<u8>| #[trigger] b58_of(b) == s@ ==> r is Some && r.unwrap()@ == b,
{
    bs58::decode(s).into_vec().ok()
}

fn b58_digit(d: u64) -> (c: char)
    requires
        d < 58,
    ensures
        c == b58_char(d as nat),
{
    let alphabet = "123456789ABCDEFGHJKLMNPQRSTUVWXYZabcdefghijkmnopqrstuvwxyz";
    proof {
        reveal_strlit("123456789ABCDEFGHJKLMNPQRSTUVWXYZabcdefghijkmnopqrstuvwxyz");
    }
    alphabet.get_char(d as usize)
}

/// The checksum segment for the encoded key `body`.
pub fn checksum_text(body: &str) -> (r: String)
    ensures
        r@ == checksum_chars(body@),
{
    let n = body.unicode_len();
    let mut h: u64 = 0;
    let mut i: usize = 0;
    while i < n
        invariant
            n == body@.len(),
            i <= n,
            h as nat == checksum_value(body@.subrange(0, i as int)),
            h < CHECKSUM_MOD,
        decreases n - i,
    {
        let c = body.get_char(i);
        proof {
            let t = body@.subrange(0, i as int + 1);
            assert(t.drop_last() =~= body@.subrange(0, i as int));
            assert(t.last() == c);
            assert((c as u32) <= 0x10FFFF);
        }
        h = (h * 31 + (c as u32) as u64) % CHECKSUM_MOD;
        i = i + 1;
    }
    assert(body@.subrange(0, n as int) =~= body@);
    let mut r = String::new();
    push_char(&mut r, b58_digit((h / 195112) % 58));
    push_char(&mut r, b58_digit((h / 3364) % 58));
    push_char(&mut r, b58_digit((h / 58) % 58));
    push_char(&mut r, b58_digit(h % 58));
    assert(r@ =~= checksum_chars(body@));
    r
}

/// The payment address of a raw public key: the qualifier, the key in
/// base58, and the checksum of that text.
pub fn create_payment_address(key: &Vec<u8>) -> (r: String)
    ensures
        r@ == address_of(key@),
{
    let body = base58_encode(key.as_slice());
    let cs = checksum_text(body.as_str());
    let r = String::from_str("pay:sov:");
    let r = r.concat(body.as_str());
    let r = r.concat(cs.as_str());
    r
}

/// Decodes a payment address back to its raw public key. Fails with
/// `InvalidAddress` unless the text has the qualifier, its checksum verifies,
/// and its body is the base58 text of a key of `KEY_LEN` bytes.
pub fn decode_payment_address(address: &str) -> (r: Result<Vec<u8>, TokenError>)
    ensures
        decode_outcome(address@, key_result(r)),
{
    proof {
        reveal_strlit("pay:sov:");
    }
    let ghost s = address@;
    let n = address.unicode_len();
    if n < PREFIX_LEN + CHECKSUM_LEN {
        return Err(TokenError::InvalidAddress);
    }
    let head = address.substring_char(0, PREFIX_LEN);
    if !same_text(head, "pay:sov:") {
        assert forall|k: Seq<u8>| k.len() == KEY_LEN implies address_of(k) != s by {
            if address_of(k) == s {
                assert(address_of(k).subrange(0, 8) =~= address_prefix());
            }
        }
        return Err(TokenError::InvalidAddress);
    }
    let body = address.substring_char(PREFIX_LEN, n - CHECKSUM_LEN);
    let tail = address.substring_char(n - CHECKSUM_LEN, n);
    let expected = checksum_text(body);
    if !same_text(tail, expected.as_str()) {
        assert forall|k: Seq<u8>| k.len() == KEY_LEN implies address_of(k) != s by {
            if address_of(k) == s {
                lemma_address_parts(k);
            }
        }
        return Err(TokenError::InvalidAddress);
    }
    match base58_decode(body) {
        Some(v) => {
            if v.len() == KEY_LEN {
                proof {
                    assert(address_of(v@) =~= s);
                    assert forall|k: Seq<u8>| k.len() == KEY_LEN && address_of(k) == s implies k == v@ by {
                        lemma_address_parts(k);
                    }
                }
                Ok(v)
            } else {
                proof {
                    assert forall|k: Seq<u8>| k.len() == KEY_LEN implies b58_of(k) != address_body(s) by {}
                    assert forall|k: Seq<u8>| k.len() == KEY_LEN implies address_of(k) != s by {
                        if address_of(k) == s {
                            lemma_address_parts(k);
                        }
                    }
                }
                Err(TokenError::InvalidAddress)
            }
        },
        None => {
            proof {
                assert forall|k: Seq<u8>| k.len() == KEY_LEN implies address_of(k) != s by {
                    if address_of(k) == s {
                        lemma_address_parts(k);
                    }
                }
            }
            Err(TokenError::InvalidAddress)
        },
    }
}

/// An address splits back into its qualifier, the key's base58 text and its checksum.
pub proof fn lemma_address_parts(k: Seq<u8>)
    ensures
        framed(address_of(k)),
        address_body(address_of(k)) == b58_of(k),
{
    reveal_strlit("pay:sov:");
    let a = address_of(k);
    assert(a.subrange(0, 8) =~= address_prefix());
    assert(address_body(a) =~= b58_of(k));
    assert(address_checksum(a) =~= checksum_chars(b58_of(k)));
}

/// Decoding the address created from a key gives that key back.
pub proof fn lemma_address_round_trip(k: Seq<u8>, r: Result<Seq<u8>, TokenError>)
    requires
        k.len() == KEY_LEN,
        decode_outcome(address_of(k), r),
    ensures
        r == Ok::<Seq<u8>, TokenError>(k),
{
}

/// Changing any one character of a valid address's checksum segment makes
/// decoding fail with `InvalidAddress`.
pub proof fn lemma_checksum_sensitivity(
    k: Seq<u8>,
    i: int,
    c: char,
    r: Result<Seq<u8>, TokenError>,
)
    requires
        k.len() == KEY_LEN,
        address_of(k).len() - CHECKSUM_LEN <= i < address_of(k).len(),
        c != address_of(k)[i],
        decode_outcome(address_of(k).update(i, c), r),
    ensures
        r == Err::<Seq<u8>, TokenError>(TokenError::InvalidAddress),
{
    lemma_address_parts(k);
    let a = address_of(k);
    let b = a.update(i, c);
    assert(address_body(b) =~= address_body(a));
    let j = i - (a.len() - CHECKSUM_LEN);
    assert(address_checksum(b)[j] == c);
    assert(address_checksum(a)[j] == a[i]);
    assert(!framed(b));
}

/// Whether a submitter identity has a usable length: non-empty and at most
/// `MAX_DID_LEN` characters.
pub fn validate_did_len(did: &str) -> (r: bool)
    ensures
        r == (1 <= did@.len() <= MAX_DID_LEN),
{
    let n = did.unicode_len();
    n >= 1 && n <= MAX_DID_LEN
}

/// A cheap guard before a full decode: whether the text has exactly `expected_len` characters.
pub fn validate_length(text: &str, expected_len: usize) -> (r: bool)
    ensures
        r == (text@.len() == expected_len),
{
    text.unicode_len() == expected_len
}

} // verus!
