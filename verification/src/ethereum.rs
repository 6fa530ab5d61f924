//! Ethereum values as plain bytes (20-byte addresses, 32-byte words), their
//! textual renderings, and the calls into `ethers` that compute them.
//!
//! A `[u8; 20]` stands for an `ethers` `Address`/`H160`, a `[u8; 32]` for an
//! `H256` or a big-endian `U256`.

use vstd::prelude::*;
use vstd::arithmetic::power2::pow2;
use vstd::utf8::*;
use ethers::abi::AbiDecode;
use std::str::FromStr;

verus! {

// ---------------------------------------------------------------- numbers

/// The unsigned number that big-endian bytes denote.
pub open spec fn be_value(b: Seq<u8>) -> nat
    decreases b.len(),
{
    if b.len() == 0 {
        0
    } else {
        be_value(b.drop_last()) * 256 + b.last() as nat
    }
}

/// `c` is a hexadecimal digit, in either case.
pub open spec fn is_hex_digit(c: char) -> bool {
    ('0' <= c && c <= '9') || ('a' <= c && c <= 'f') || ('A' <= c && c <= 'F')
}

/// The value of a hexadecimal digit character.
pub open spec fn hex_digit_value(c: char) -> nat {
    if '0' <= c && c <= '9' {
        (c as int - '0' as int) as nat
    } else if 'a' <= c && c <= 'f' {
        (c as int - 'a' as int + 10) as nat
    } else {
        (c as int - 'A' as int + 10) as nat
    }
}

/// The lowercase hexadecimal digit of `d` (`0..=15`).
pub open spec fn hex_digit_char(d: nat) -> char {
    if d == 0 { '0' } else if d == 1 { '1' } else if d == 2 { '2' } else if d == 3 { '3' }
    else if d == 4 { '4' } else if d == 5 { '5' } else if d == 6 { '6' } else if d == 7 { '7' }
    else if d == 8 { '8' } else if d == 9 { '9' } else if d == 10 { 'a' } else if d == 11 { 'b' }
    else if d == 12 { 'c' } else if d == 13 { 'd' } else if d == 14 { 'e' } else { 'f' }
}

/// ASCII upper-casing of a lowercase hexadecimal digit (digits stay as they are).
pub open spec fn hex_upper(c: char) -> char {
    if c == 'a' { 'A' } else if c == 'b' { 'B' } else if c == 'c' { 'C' } else if c == 'd' { 'D' }
    else if c == 'e' { 'E' } else if c == 'f' { 'F' } else { c }
}

/// Every character of `s` is a hexadecimal digit.
pub open spec fn all_hex_digits(s: Seq<char>) -> bool {
    forall|i: int| 0 <= i < s.len() ==> is_hex_digit(#[trigger] s[i])
}

/// The `i`-th hexadecimal digit (nibble) of `b`, most significant first.
pub open spec fn nibble(b: Seq<u8>, i: int) -> nat {
    if i % 2 == 0 {
        (b[i / 2] / 16) as nat
    } else {
        (b[i / 2] % 16) as nat
    }
}

/// Lowercase hexadecimal rendering of bytes, two digits per byte, no prefix.
pub open spec fn lower_hex_text(b: Seq<u8>) -> Seq<char> {
    Seq::new(2 * b.len(), |i: int| hex_digit_char(nibble(b, i)))
}

/// The bytes that an even-length string of hexadecimal digits spells, two digits per byte.
pub open spec fn hex_bytes(d: Seq<char>) -> Seq<u8> {
    Seq::new(
        d.len() / 2,
        |i: int| (hex_digit_value(d[2 * i]) * 16 + hex_digit_value(d[2 * i + 1])) as u8,
    )
}

/// `s` without a leading `"0x"`, as `str::strip_prefix("0x")` leaves it.
pub open spec fn strip_0x(s: Seq<char>) -> Seq<char> {
    if s.len() >= 2 && s[0] == '0' && s[1] == 'x' {
        s.skip(2)
    } else {
        s
    }
}

/// The characters that the hex decoder of fixed-size hashes skips.
pub open spec fn is_hex_blank(c: char) -> bool {
    c == ' ' || c == '\r' || c == '\n' || c == '\t'
}

// ---------------------------------------------------------------- outside results

/// The Keccak-256 digest of `data`, as `ethers::utils::keccak256` computes it.
pub uninterp spec fn keccak256_of(data: Seq<u8>) -> Seq<u8>;

/// Keccak-256 of `data`, by `ethers::utils::keccak256`. The contract only names the
/// digest (`keccak256_of`, a function of the bytes alone); nothing about its value is claimed.
#[verifier::external_body]
pub(crate) fn keccak256(data: &[u8]) -> (h: [u8; 32])
    ensures
        h@ == keccak256_of(data@),
{
    ethers::utils::keccak256(data)
}

/// The EIP-55 checksummed rendering of an address: `"0x"`, then the 40 lowercase
/// hex digits of the address, each upper-cased where the matching hex digit of the
/// Keccak-256 hash of the lowercase rendering is 8 or more.
pub open spec fn checksum_text(addr: Seq<u8>) -> Seq<char> {
    let lower = lower_hex_text(addr);
    let hash = keccak256_of(encode_utf8(lower));
    seq!['0', 'x'] + Seq::new(
        40,
        |i: int|
            if nibble(hash, i) >= 8 {
                hex_upper(lower[i])
            } else {
                lower[i]
            },
    )
}

/// EIP-55 checksummed text of an address, by `ethers::utils::to_checksum(addr, None)`.
/// The contract restates the function's source: `"0x"` and the lowercase hex of the
/// address, each digit upper-cased where the digit of `keccak256` of that hex is 8 or more.
#[verifier::external_body]
pub(crate) fn to_checksum(addr: &[u8; 20]) -> (s: String)
    ensures
        s@ == checksum_text(addr@),
{
    ethers::utils::to_checksum(&ethers::types::H160(*addr), None)
}

/// The `Display` rendering of a 32-byte hash: `"0x"`, the first two bytes in hex,
/// an ellipsis, the last two bytes in hex.
pub open spec fn hash_display_text(w: Seq<u8>) -> Seq<char> {
    seq!['0', 'x'] + lower_hex_text(w.subrange(0, 2)) + seq!['…'] + lower_hex_text(
        w.subrange(30, 32),
    )
}

/// `H256::to_string()` (fixed-hash's `Display`). The contract restates its source: the
/// first and last two bytes in lowercase hex around an ellipsis.
#[verifier::external_body]
pub(crate) fn hash_display(w: &[u8; 32]) -> (s: String)
    ensures
        s@ == hash_display_text(w@),
{
    ethers::types::H256(*w).to_string()
}

/// The `Display` rendering of a 20-byte address: `"0x"`, the first two bytes in
/// hex, an ellipsis, the last two bytes in hex.
pub open spec fn address_display_text(a: Seq<u8>) -> Seq<char> {
    seq!['0', 'x'] + lower_hex_text(a.subrange(0, 2)) + seq!['…'] + lower_hex_text(
        a.subrange(18, 20),
    )
}

/// `H160::to_string()` (fixed-hash's `Display`). The contract restates its source: the
/// first and last two bytes in lowercase hex around an ellipsis.
#[verifier::external_body]
pub(crate) fn address_display(a: &[u8; 20]) -> (s: String)
    ensures
        s@ == address_display_text(a@),
{
    ethers::types::H160(*a).to_string()
}

/// Whether two words hold the same bytes.
pub fn words_equal(a: &[u8; 32], b: &[u8; 32]) -> (r: bool)
    ensures
        r == (a@ == b@),
{
    let mut i: usize = 0;
    while i < 32
        invariant
            i <= 32,
            a@.len() == 32,
            b@.len() == 32,
            forall|j: int| 0 <= j < i ==> a@[j] == b@[j],
        decreases 32 - i,
    {
        if a[i] != b[i] {
            return false;
        }
        i = i + 1;
    }
    assert(a@ =~= b@);
    true
}

/// Big-endian bytes denote zero exactly when they are all zero.
pub proof fn lemma_be_value_zero(b: Seq<u8>)
    ensures
        (be_value(b) == 0) <==> (forall|i: int| 0 <= i < b.len() ==> b[i] == 0),
    decreases b.len(),
{
    if b.len() > 0 {
        lemma_be_value_zero(b.drop_last());
        if be_value(b) == 0 {
            assert forall|i: int| 0 <= i < b.len() implies b[i] == 0 by {
                if i < b.len() - 1 {
                    assert(b.drop_last()[i] == b[i]);
                }
            }
        }
        if forall|i: int| 0 <= i < b.len() ==> b[i] == 0 {
            assert forall|i: int| 0 <= i < b.drop_last().len() implies b.drop_last()[i] == 0 by {
                assert(b[i] == 0);
            }
        }
    }
}

/// Whether a word, read as a big-endian number, is one (`U256 == U256::one()`).
pub fn word_is_one(w: &[u8; 32]) -> (r: bool)
    ensures
        r == (be_value(w@) == 1),
{
    let mut i: usize = 0;
    while i < 31
        invariant
            i <= 31,
            w@.len() == 32,
            forall|j: int| 0 <= j < i ==> w@[j] == 0,
        decreases 31 - i,
    {
        if w[i] != 0 {
            proof {
                lemma_be_value_zero(w@.drop_last());
                assert(w@.drop_last()[i as int] != 0);
                assert(be_value(w@) == be_value(w@.drop_last()) * 256 + w@[31] as nat);
            }
            return false;
        }
        i = i + 1;
    }
    proof {
        lemma_be_value_zero(w@.drop_last());
        assert(forall|j: int| 0 <= j < w@.drop_last().len() ==> w@.drop_last()[j] == w@[j]);
        assert(be_value(w@) == be_value(w@.drop_last()) * 256 + w@[31] as nat);
    }
    w[31] == 1
}

/// Whether a word, read as a big-endian number, is below 2^128 (its first 16 bytes are zero).
pub fn word_below_2_128(w: &[u8; 32]) -> (r: bool)
    ensures
        r == (be_value(w@) < pow2(128)),
{
    proof {
        lemma_be_value_split(w@, 16);
        lemma_be_value_zero(w@.subrange(0, 16));
        lemma_be_value_bound(w@.subrange(16, 32));
    }
    let mut i: usize = 0;
    while i < 16
        invariant
            i <= 16,
            w@.len() == 32,
            forall|j: int| 0 <= j < i ==> w@[j] == 0,
        decreases 16 - i,
    {
        if w[i] != 0 {
            proof {
                lemma_be_value_split(w@, 16);
                lemma_be_value_zero(w@.subrange(0, 16));
                assert(w@.subrange(0, 16)[i as int] != 0);
                let hi = be_value(w@.subrange(0, 16));
                let lo = be_value(w@.subrange(16, 32));
                vstd::arithmetic::power2::lemma_pow2_pos(128);
                assert(hi * pow2(128) + lo >= pow2(128)) by (nonlinear_arith)
                    requires
                        hi >= 1,
                        pow2(128) > 0,
                ;
            }
            return false;
        }
        i = i + 1;
    }
    proof {
        assert(forall|j: int| 0 <= j < 16 ==> w@.subrange(0, 16)[j] == w@[j]);
    }
    true
}

/// Splitting big-endian bytes at `k`: the high part weighs 2^(8 * (len - k)).
pub proof fn lemma_be_value_split(b: Seq<u8>, k: int)
    requires
        0 <= k <= b.len(),
    ensures
        be_value(b) == be_value(b.subrange(0, k)) * pow2(8 * (b.len() - k) as nat) + be_value(
            b.subrange(k, b.len() as int),
        ),
    decreases b.len() - k,
{
    vstd::arithmetic::power2::lemma2_to64();
    if k == b.len() {
        assert(b.subrange(0, k) =~= b);
        assert(b.subrange(k, b.len() as int) =~= Seq::<u8>::empty());
        assert(be_value(Seq::<u8>::empty()) == 0);
        assert(pow2(0) == 1);
        assert(be_value(b) * 1 == be_value(b));
    } else {
        lemma_be_value_split(b.drop_last(), k);
        let d = b.drop_last();
        assert(d.subrange(0, k) =~= b.subrange(0, k));
        let tail = b.subrange(k, b.len() as int);
        assert(tail.drop_last() =~= d.subrange(k, d.len() as int));
        assert(tail.last() == b.last());
        let hi = be_value(b.subrange(0, k));
        let p = pow2(8 * (d.len() - k) as nat);
        vstd::arithmetic::power2::lemma_pow2_adds(8 * (d.len() - k) as nat, 8);
        assert(8 * (d.len() - k) as nat + 8 == 8 * (b.len() - k) as nat);
        let lo = be_value(d.subrange(k, d.len() as int));
        assert(be_value(tail) == lo * 256 + b.last());
        assert(pow2(8 * (b.len() - k) as nat) == p * 256);
        assert(be_value(b) == (hi * p + lo) * 256 + b.last());
        assert((hi * p + lo) * 256 + b.last() == hi * (p * 256) + (lo * 256 + b.last())) by (nonlinear_arith);
    }
}

/// `Address::from(H256)` (fixed-hash's conversion). The contract claims the result is
/// the last 20 bytes of the word, as the source copies them.
#[verifier::external_body]
pub(crate) fn address_from_word(w: &[u8; 32]) -> (a: [u8; 20])
    ensures
        a@ == w@.subrange(12, 32),
{
    ethers::types::Address::from(ethers::types::H256(*w)).0
}

/// The 32-byte word of ABI-encoded `data` that starts at `off`, where there is one.
pub open spec fn abi_word(data: Seq<u8>, off: int) -> Option<Seq<u8>> {
    if 0 <= off && off + 32 <= data.len() {
        Some(data.subrange(off, off + 32))
    } else {
        None
    }
}

/// ethabi's reading of a word as an offset or a length: the upper 28 bytes must be zero.
pub open spec fn abi_usize(w: Seq<u8>) -> Option<nat> {
    if forall|i: int| 0 <= i < 28 ==> w[i] == 0 {
        Some(be_value(w.subrange(28, 32)))
    } else {
        None
    }
}

/// ethabi's decoding of a dynamic `uint256[]` whose head word is at `head`.
pub open spec fn abi_uint_array(data: Seq<u8>, head: int) -> Option<Seq<Seq<u8>>> {
    match abi_word(data, head) {
        None => None,
        Some(hw) => match abi_usize(hw) {
            None => None,
            Some(lo) => match abi_word(data, lo as int) {
                None => None,
                Some(lw) => match abi_usize(lw) {
                    None => None,
                    Some(n) => if lo + 32 + 32 * n <= data.len() {
                        Some(
                            Seq::new(
                                n,
                                |i: int| data.subrange(lo + 32 + 32 * i, lo + 64 + 32 * i),
                            ),
                        )
                    } else {
                        None
                    },
                },
            },
        },
    }
}

/// ethabi's decoding of `(uint256[], uint256[])`.
pub open spec fn abi_uint_array_pair(data: Seq<u8>) -> Option<(Seq<Seq<u8>>, Seq<Seq<u8>>)> {
    match (abi_uint_array(data, 0), abi_uint_array(data, 32)) {
        (Some(a), Some(b)) => Some((a, b)),
        _ => None,
    }
}

/// The `len` big-endian bytes of `n` (its low `8 * len` bits).
pub open spec fn be_bytes(n: nat, len: nat) -> Seq<u8>
    decreases len,
{
    if len == 0 {
        Seq::empty()
    } else {
        be_bytes(n / 256, (len - 1) as nat).push((n % 256) as u8)
    }
}

/// The standard ABI encoding of `(uint256[], uint256[])`: two head words holding the
/// offsets of the arrays, then each array as its length word and its words.
pub open spec fn abi_encode_uint_array_pair(a: Seq<Seq<u8>>, b: Seq<Seq<u8>>) -> Seq<u8> {
    be_bytes(64, 32) + be_bytes(96 + 32 * a.len(), 32) + be_bytes(a.len(), 32) + a.flatten()
        + be_bytes(b.len(), 32) + b.flatten()
}

/// `be_bytes` gives `len` bytes denoting `n`, for `n` below 2^(8 * len).
pub proof fn lemma_be_bytes(n: nat, len: nat)
    requires
        n < pow2(8 * len),
    ensures
        be_bytes(n, len).len() == len,
        be_value(be_bytes(n, len)) == n,
    decreases len,
{
    vstd::arithmetic::power2::lemma2_to64();
    if len > 0 {
        let p = pow2(8 * (len - 1) as nat);
        vstd::arithmetic::power2::lemma_pow2_adds(8 * (len - 1) as nat, 8);
        assert(8 * (len - 1) as nat + 8 == 8 * len);
        assert(n / 256 < p) by (nonlinear_arith)
            requires
                n < p * 256,
        ;
        lemma_be_bytes(n / 256, (len - 1) as nat);
        let b = be_bytes(n, len);
        assert(b.drop_last() =~= be_bytes(n / 256, (len - 1) as nat));
        assert(b.last() == n % 256);
        assert(be_value(b) == be_value(b.drop_last()) * 256 + b.last() as nat);
        assert((n / 256) * 256 + n % 256 == n) by (nonlinear_arith);
    }
}

/// ethabi reads the word of a number below 2^32 back as that number.
pub proof fn lemma_abi_usize_of_word(n: nat)
    requires
        n < pow2(32),
    ensures
        abi_usize(be_bytes(n, 32)) == Some(n),
{
    let w = be_bytes(n, 32);
    vstd::arithmetic::power2::lemma_pow2_strictly_increases(32, 256);
    lemma_be_bytes(n, 32);
    lemma_be_value_split(w, 28);
    let hi = be_value(w.subrange(0, 28));
    let lo = be_value(w.subrange(28, 32));
    lemma_be_value_bound(w.subrange(28, 32));
    assert(8 * (w.len() - 28) as nat == 32);
    assert(hi == 0) by (nonlinear_arith)
        requires
            hi * pow2(32) + lo == n,
            n < pow2(32),
            pow2(32) > 0,
    {
        if hi >= 1 {
            assert(hi * pow2(32) >= pow2(32));
        }
    }
    lemma_be_value_zero(w.subrange(0, 28));
    assert forall|i: int| 0 <= i < 28 implies w[i] == 0 by {
        assert(w.subrange(0, 28)[i] == w[i]);
    }
}

/// The `i`-th word of a flattened list of 32-byte words is the list's `i`-th word.
pub proof fn lemma_flatten_words(ws: Seq<Seq<u8>>, i: int)
    requires
        forall|k: int| 0 <= k < ws.len() ==> (#[trigger] ws[k]).len() == 32,
        0 <= i < ws.len(),
    ensures
        ws.flatten().len() == 32 * ws.len(),
        ws.flatten().subrange(32 * i, 32 * i + 32) == ws[i],
    decreases ws.len(),
{
    lemma_flatten_len(ws);
    let rest = ws.drop_first();
    assert(ws.flatten() == ws.first() + rest.flatten());
    if i == 0 {
        assert(ws.flatten().subrange(0, 32) =~= ws[0]);
    } else {
        assert forall|k: int| 0 <= k < rest.len() implies (#[trigger] rest[k]).len() == 32 by {
            assert(rest[k] == ws[k + 1]);
        }
        lemma_flatten_words(rest, i - 1);
        assert(rest[i - 1] == ws[i]);
        assert(ws.flatten().subrange(32 * i, 32 * i + 32) =~= rest.flatten().subrange(
            32 * (i - 1),
            32 * (i - 1) + 32,
        ));
    }
}

/// A flattened list of 32-byte words has 32 bytes per word.
pub proof fn lemma_flatten_len(ws: Seq<Seq<u8>>)
    requires
        forall|k: int| 0 <= k < ws.len() ==> (#[trigger] ws[k]).len() == 32,
    ensures
        ws.flatten().len() == 32 * ws.len(),
    decreases ws.len(),
{
    if ws.len() > 0 {
        let rest = ws.drop_first();
        assert forall|k: int| 0 <= k < rest.len() implies (#[trigger] rest[k]).len() == 32 by {
            assert(rest[k] == ws[k + 1]);
        }
        lemma_flatten_len(rest);
    }
}

/// ethabi's decoding of `(uint256[], uint256[])` inverts the standard encoding: it
/// reads back both arrays of 32-byte words, where the offsets and lengths fit in the
/// 32 bits that ethabi reads of them.
pub proof fn lemma_abi_pair_decoding_inverts_encoding(a: Seq<Seq<u8>>, b: Seq<Seq<u8>>)
    requires
        forall|k: int| 0 <= k < a.len() ==> (#[trigger] a[k]).len() == 32,
        forall|k: int| 0 <= k < b.len() ==> (#[trigger] b[k]).len() == 32,
        96 + 32 * a.len() < pow2(32),
        b.len() < pow2(32),
    ensures
        abi_uint_array_pair(abi_encode_uint_array_pair(a, b)) == Some((a, b)),
{
    vstd::arithmetic::power2::lemma_pow2_strictly_increases(32, 256);
    vstd::arithmetic::power2::lemma2_to64();
    let lo2: nat = 96 + 32 * a.len();
    lemma_be_bytes(64, 32);
    lemma_be_bytes(lo2, 32);
    lemma_be_bytes(a.len(), 32);
    lemma_be_bytes(b.len(), 32);
    lemma_abi_usize_of_word(64);
    lemma_abi_usize_of_word(lo2);
    lemma_abi_usize_of_word(a.len());
    lemma_abi_usize_of_word(b.len());
    lemma_flatten_len(a);
    lemma_flatten_len(b);
    let fa = a.flatten();
    let fb = b.flatten();
    let data = abi_encode_uint_array_pair(a, b);
    assert(data.len() == lo2 + 32 + 32 * b.len());
    assert(data.subrange(0, 32) =~= be_bytes(64, 32));
    assert(data.subrange(32, 64) =~= be_bytes(lo2, 32));
    assert(data.subrange(64, 96) =~= be_bytes(a.len(), 32));
    assert(data.subrange(lo2 as int, lo2 + 32int) =~= be_bytes(b.len(), 32));
    let first = abi_uint_array(data, 0);
    assert(first is Some);
    let got_a = first.unwrap();
    assert forall|i: int| 0 <= i < a.len() implies got_a[i] == a[i] by {
        lemma_flatten_words(a, i);
        assert(data.subrange(96 + 32 * i, 128 + 32 * i) =~= fa.subrange(32 * i, 32 * i + 32));
    }
    assert(got_a =~= a);
    let second = abi_uint_array(data, 32);
    assert(second is Some);
    let got_b = second.unwrap();
    assert forall|i: int| 0 <= i < b.len() implies got_b[i] == b[i] by {
        lemma_flatten_words(b, i);
        assert(data.subrange(lo2 + 32 + 32 * i, lo2 + 64 + 32 * i) =~= fb.subrange(
            32 * i,
            32 * i + 32,
        ));
    }
    assert(got_b =~= b);
}

/// The bytes of each word of a list.
pub open spec fn words_view(ws: Seq<[u8; 32]>) -> Seq<Seq<u8>> {
    ws.map_values(|w: [u8; 32]| w@)
}

/// `U256::decode(data)` (ethers' `AbiDecode`, through ethabi's decoder). The contract
/// claims success exactly when there are 32 bytes or more, giving the first word.
#[verifier::external_body]
pub(crate) fn u256_abi_decode(data: &[u8]) -> (r: Option<[u8; 32]>)
    ensures
        r is Some <==> data@.len() >= 32,
        r matches Some(w) ==> w@ == data@.subrange(0, 32),
{
    ethers::types::U256::decode(data).ok().map(|v| <[u8; 32]>::from(v))
}

/// `<(U256, U256)>::decode(data)` (ethers' `AbiDecode`, through ethabi's decoder). The
/// contract claims success exactly when there are 64 bytes or more, giving the first two words.
#[verifier::external_body]
pub(crate) fn u256_pair_abi_decode(data: &[u8]) -> (r: Option<([u8; 32], [u8; 32])>)
    ensures
        r is Some <==> data@.len() >= 64,
        r matches Some(p) ==> p.0@ == data@.subrange(0, 32) && p.1@ == data@.subrange(32, 64),
{
    <(ethers::types::U256, ethers::types::U256)>::decode(data).ok().map(
        |(a, b)| (<[u8; 32]>::from(a), <[u8; 32]>::from(b)),
    )
}

/// `<(Vec<U256>, Vec<U256>)>::decode(data)` (ethers' `AbiDecode`), which ethabi decodes
/// as two dynamic arrays. The contract restates ethabi's decoder for that case
/// (`abi_uint_array_pair`): success exactly where it succeeds, with the words it reads.
#[verifier::external_body]
pub(crate) fn u256_array_pair_abi_decode(data: &[u8]) -> (r: Option<(Vec<[u8; 32]>, Vec<[u8; 32]>)>)
    ensures
        r is Some <==> abi_uint_array_pair(data@) is Some,
        r matches Some(p) ==> abi_uint_array_pair(data@) == Some(
            (words_view(p.0@), words_view(p.1@)),
        ),
{
    <(Vec<ethers::types::U256>, Vec<ethers::types::U256>)>::decode(data).ok().map(
        |(a, b)| (
            a.into_iter().map(|v| <[u8; 32]>::from(v)).collect(),
            b.into_iter().map(|v| <[u8; 32]>::from(v)).collect(),
        ),
    )
}

/// `U256::to_string()` (uint's `Display`). The contract claims the decimal rendering of
/// the big-endian number, without leading zeros.
#[verifier::external_body]
pub(crate) fn u256_decimal(w: &[u8; 32]) -> (s: String)
    ensures
        s@ == crate::text::decimal_text(be_value(w@)),
{
    ethers::types::U256::from_big_endian(w).to_string()
}

/// `U256::from_dec_str(s)` (uint). The contract restates its source: success exactly on
/// strings of decimal digits (the empty string included, as zero) whose value is below
/// 2^256, giving that value.
#[verifier::external_body]
pub(crate) fn u256_from_dec_str(s: &str) -> (r: Option<[u8; 32]>)
    ensures
        r is Some <==> (crate::text::all_decimal_digits(s@) && crate::text::decimal_value(s@)
            < pow2(256)),
        r matches Some(w) ==> be_value(w@) == crate::text::decimal_value(s@),
{
    ethers::types::U256::from_dec_str(s).ok().map(|v| <[u8; 32]>::from(v))
}

/// What `H160::from_str` accepts: after an optional `"0x"`, and ignoring spaces,
/// tabs and line breaks, exactly 40 hexadecimal digits; they spell the address.
pub open spec fn parse_address_text(s: Seq<char>) -> Option<Seq<u8>> {
    let d = strip_0x(s).filter(|c: char| !is_hex_blank(c));
    if d.len() == 40 && all_hex_digits(d) {
        Some(hex_bytes(d))
    } else {
        None
    }
}

/// `H160::from_str(s)` (fixed-hash's `FromStr`). The contract restates its source: success
/// exactly on the texts `parse_address_text` accepts, giving the bytes they spell.
#[verifier::external_body]
pub(crate) fn address_from_str(s: &str) -> (r: Option<[u8; 20]>)
    ensures
        r is Some <==> parse_address_text(s@) is Some,
        r matches Some(a) ==> parse_address_text(s@) == Some(a@),
{
    ethers::types::H160::from_str(s).ok().map(|h| h.0)
}

/// `U256::as_u128()` (uint), which panics above `u128::MAX`; the contract excludes those
/// values and claims the same number.
#[verifier::external_body]
pub(crate) fn u256_as_u128(w: &[u8; 32]) -> (v: u128)
    requires
        be_value(w@) < pow2(128),
    ensures
        v == be_value(w@),
{
    ethers::types::U256::from_big_endian(w).as_u128()
}

/// `String::from_utf8(bytes)` (std). The contract claims what std documents: success
/// exactly on valid UTF-8, giving the decoded text.
#[verifier::external_body]
pub(crate) fn string_from_utf8(bytes: Vec<u8>) -> (r: Option<String>)
    ensures
        r is Some <==> valid_utf8(bytes@),
        r matches Some(s) ==> s@ == decode_utf8(bytes@),
{
    String::from_utf8(bytes).ok()
}

/// The `Debug` rendering of a string: quoted, with std's escapes.
pub uninterp spec fn debug_text_of(s: Seq<char>) -> Seq<char>;

/// `format!("{:?}", s)` (std's `Debug` for `str`). The contract only names the result
/// (`debug_text_of`); std's quoting and escaping are not restated.
#[verifier::external_body]
pub(crate) fn debug_text(s: &str) -> (r: String)
    ensures
        r@ == debug_text_of(s@),
{
    format!("{:?}", s)
}

// ---------------------------------------------------------------- laws of the renderings

/// A lowercase hex digit, and its upper-cased form, are hex digits worth `d`.
pub proof fn lemma_hex_digit_char(d: nat)
    requires
        d < 16,
    ensures
        is_hex_digit(hex_digit_char(d)),
        hex_digit_value(hex_digit_char(d)) == d,
        is_hex_digit(hex_upper(hex_digit_char(d))),
        hex_digit_value(hex_upper(hex_digit_char(d))) == d,
        !is_hex_blank(hex_digit_char(d)),
        !is_hex_blank(hex_upper(hex_digit_char(d))),
{
}

/// Filtering a sequence by a predicate that all its elements meet leaves it as it is.
pub proof fn lemma_filter_keeps_all(s: Seq<char>, pred: spec_fn(char) -> bool)
    requires
        forall|i: int| 0 <= i < s.len() ==> pred(#[trigger] s[i]),
    ensures
        s.filter(pred) == s,
    decreases s.len(),
{
    reveal_with_fuel(Seq::<char>::filter, 1);
    if s.len() > 0 {
        assert forall|i: int| 0 <= i < s.drop_last().len() implies pred(#[trigger] s.drop_last()[i]) by {
            assert(s.drop_last()[i] == s[i]);
        }
        lemma_filter_keeps_all(s.drop_last(), pred);
        assert(pred(s[s.len() - 1]));
        assert(s.drop_last().push(s.last()) =~= s);
    }
}

/// A checksummed address text parses back to the address (`H160::from_str` of
/// `to_checksum(a)` gives `a`).
pub proof fn lemma_checksum_parses(a: Seq<u8>)
    requires
        a.len() == 20,
    ensures
        parse_address_text(checksum_text(a)) == Some(a),
{
    let lower = lower_hex_text(a);
    let hash = keccak256_of(encode_utf8(lower));
    let t = checksum_text(a);
    let body = Seq::new(
        40,
        |i: int|
            if nibble(hash, i) >= 8 {
                hex_upper(lower[i])
            } else {
                lower[i]
            },
    );
    assert(t =~= seq!['0', 'x'] + body);
    assert(strip_0x(t) =~= body);
    assert forall|i: int| 0 <= i < 40 implies {
        &&& is_hex_digit(#[trigger] body[i])
        &&& !is_hex_blank(body[i])
        &&& hex_digit_value(body[i]) == nibble(a, i)
    } by {
        assert(nibble(a, i) < 16);
        lemma_hex_digit_char(nibble(a, i));
    }
    let blank_free = |c: char| !is_hex_blank(c);
    lemma_filter_keeps_all(body, blank_free);
    assert(body.filter(blank_free) == body);
    assert(hex_bytes(body) =~= a) by {
        assert forall|i: int| 0 <= i < 20 implies #[trigger] hex_bytes(body)[i] == a[i] by {
            assert(hex_digit_value(body[2 * i]) == nibble(a, 2 * i));
            assert(hex_digit_value(body[2 * i + 1]) == nibble(a, 2 * i + 1));
            assert((2 * i) / 2 == i);
            assert((2 * i + 1) / 2 == i);
            assert((2 * i) % 2 == 0);
            assert((2 * i + 1) % 2 == 1);
            let b = a[i];
            assert((b / 16) * 16 + b % 16 == b) by (nonlinear_arith);
        }
    }
}

/// A 32-byte big-endian number is below 2^256.
pub proof fn lemma_be_value_bound(b: Seq<u8>)
    ensures
        be_value(b) < pow2(8 * b.len()),
    decreases b.len(),
{
    vstd::arithmetic::power2::lemma_pow2_pos(8 * b.len());
    if b.len() > 0 {
        lemma_be_value_bound(b.drop_last());
        let p = pow2(8 * (b.len() - 1) as nat);
        vstd::arithmetic::power2::lemma_pow2_adds(8 * (b.len() - 1) as nat, 8);
        vstd::arithmetic::power2::lemma2_to64();
        assert(8 * (b.len() - 1) as nat + 8 == 8 * b.len());
        let v = be_value(b.drop_last());
        assert(v < p);
        assert(v * 256 + b.last() < p * 256) by (nonlinear_arith)
            requires
                v < p,
                b.last() < 256,
        ;
    }
}

} // verus!
