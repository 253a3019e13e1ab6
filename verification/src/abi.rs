//! The fragments of contract ABI encoding that the deployment and event
//! logic depend on: 32-byte words for 64-bit integers and addresses, and the
//! calldata of the proxy's `initialize(address)` call.

use vstd::prelude::*;
use crate::hashing::{keccak256, keccak256_of};
use crate::types::Address;

verus! {

/// `n` zero bytes.
pub open spec fn zeros(n: int) -> Seq<u8> {
    Seq::new(n as nat, |i: int| 0u8)
}

/// The big-endian bytes of a 64-bit value, most significant first.
pub open spec fn be_bytes_u64(v: u64) -> Seq<u8> {
    seq![
        (v >> 56) as u8,
        (v >> 48) as u8,
        (v >> 40) as u8,
        (v >> 32) as u8,
        (v >> 24) as u8,
        (v >> 16) as u8,
        (v >> 8) as u8,
        v as u8,
    ]
}

/// The 64-bit value read back from 8 big-endian bytes.
pub open spec fn u64_from_be(b: Seq<u8>) -> u64
    recommends
        b.len() == 8,
{
    ((b[0] as u64) << 56) | ((b[1] as u64) << 48) | ((b[2] as u64) << 40) | ((b[3] as u64) << 32)
        | ((b[4] as u64) << 24) | ((b[5] as u64) << 16) | ((b[6] as u64) << 8) | (b[7] as u64)
}

/// A 64-bit value occupies one ABI word: 24 zero bytes, then its big-endian bytes.
pub open spec fn word_u64(v: u64) -> Seq<u8> {
    zeros(24) + be_bytes_u64(v)
}

/// An address occupies one ABI word: 12 zero bytes, then its 20 bytes.
pub open spec fn word_address(a: Seq<u8>) -> Seq<u8>
    recommends
        a.len() == 20,
{
    zeros(12) + a
}

/// Reading the big-endian bytes of a value back gives the value.
pub proof fn lemma_be_round_trip(v: u64)
    ensures
        u64_from_be(be_bytes_u64(v)) == v,
{
    let b = be_bytes_u64(v);
    assert(b[0] == (v >> 56) as u8);
    assert(b[1] == (v >> 48) as u8);
    assert(b[2] == (v >> 40) as u8);
    assert(b[3] == (v >> 32) as u8);
    assert(b[4] == (v >> 24) as u8);
    assert(b[5] == (v >> 16) as u8);
    assert(b[6] == (v >> 8) as u8);
    assert(b[7] == v as u8);
    assert(((((v >> 56) as u8) as u64) << 56) | ((((v >> 48) as u8) as u64) << 48)
        | ((((v >> 40) as u8) as u64) << 40) | ((((v >> 32) as u8) as u64) << 32)
        | ((((v >> 24) as u8) as u64) << 24) | ((((v >> 16) as u8) as u64) << 16)
        | ((((v >> 8) as u8) as u64) << 8) | ((v as u8) as u64) == v) by (bit_vector);
}

/// Writing the value read from 8 bytes gives those bytes back.
pub proof fn lemma_be_bytes_of_read(b: Seq<u8>)
    requires
        b.len() == 8,
    ensures
        be_bytes_u64(u64_from_be(b)) =~= b,
{
    let b0 = b[0];
    let b1 = b[1];
    let b2 = b[2];
    let b3 = b[3];
    let b4 = b[4];
    let b5 = b[5];
    let b6 = b[6];
    let b7 = b[7];
    let v = u64_from_be(b);
    assert(v == ((b0 as u64) << 56) | ((b1 as u64) << 48) | ((b2 as u64) << 40)
        | ((b3 as u64) << 32) | ((b4 as u64) << 24) | ((b5 as u64) << 16) | ((b6 as u64) << 8)
        | (b7 as u64));
    assert({
        let x = ((b0 as u64) << 56) | ((b1 as u64) << 48) | ((b2 as u64) << 40)
            | ((b3 as u64) << 32) | ((b4 as u64) << 24) | ((b5 as u64) << 16)
            | ((b6 as u64) << 8) | (b7 as u64);
        (x >> 56) as u8 == b0 && (x >> 48) as u8 == b1 && (x >> 40) as u8 == b2
            && (x >> 32) as u8 == b3 && (x >> 24) as u8 == b4 && (x >> 16) as u8 == b5
            && (x >> 8) as u8 == b6 && x as u8 == b7
    }) by (bit_vector);
}

/// Distinct values have distinct words.
pub proof fn lemma_word_u64_injective(x: u64, y: u64)
    requires
        word_u64(x) == word_u64(y),
    ensures
        x == y,
{
    assert(be_bytes_u64(x) =~= be_bytes_u64(y)) by {
        assert(forall|i: int| 0 <= i < 8 ==> word_u64(x)[24 + i] == be_bytes_u64(x)[i]);
        assert(forall|i: int| 0 <= i < 8 ==> word_u64(y)[24 + i] == be_bytes_u64(y)[i]);
    }
    lemma_be_round_trip(x);
    lemma_be_round_trip(y);
}

/// Append `n` zero bytes.
pub fn push_zeros(out: &mut Vec<u8>, n: usize)
    ensures
        final(out)@ =~= old(out)@ + zeros(n as int),
{
    let mut i: usize = 0;
    while i < n
        invariant
            i <= n,
            out@ =~= old(out)@ + zeros(i as int),
        decreases n - i,
    {
        out.push(0u8);
        i += 1;
    }
}

/// Append a copy of `b`.
pub fn push_bytes(out: &mut Vec<u8>, b: &Vec<u8>)
    ensures
        final(out)@ =~= old(out)@ + b@,
{
    let mut i: usize = 0;
    while i < b.len()
        invariant
            i <= b.len(),
            out@ =~= old(out)@ + b@.take(i as int),
        decreases b.len() - i,
    {
        out.push(b[i]);
        i += 1;
    }
}

/// Append the 8 big-endian bytes of `v`.
pub fn push_be_u64(out: &mut Vec<u8>, v: u64)
    ensures
        final(out)@ =~= old(out)@ + be_bytes_u64(v),
{
    out.push(#[verifier::truncate] ((v >> 56) as u8));
    out.push(#[verifier::truncate] ((v >> 48) as u8));
    out.push(#[verifier::truncate] ((v >> 40) as u8));
    out.push(#[verifier::truncate] ((v >> 32) as u8));
    out.push(#[verifier::truncate] ((v >> 24) as u8));
    out.push(#[verifier::truncate] ((v >> 16) as u8));
    out.push(#[verifier::truncate] ((v >> 8) as u8));
    out.push(#[verifier::truncate] (v as u8));
    proof {
        assert(out@ =~= old(out)@ + be_bytes_u64(v));
    }
}

/// Encode a 64-bit value as one ABI word.
pub fn encode_word_u64(v: u64) -> (r: Vec<u8>)
    ensures
        r@ == word_u64(v),
        r@.len() == 32,
{
    let mut out: Vec<u8> = Vec::new();
    push_zeros(&mut out, 24);
    push_be_u64(&mut out, v);
    proof {
        assert(out@ =~= word_u64(v));
    }
    out
}

/// Encode an address as one ABI word.
pub fn encode_word_address(a: &Address) -> (r: Vec<u8>)
    requires
        a.wf(),
    ensures
        r@ == word_address(a@),
        r@.len() == 32,
{
    let mut out: Vec<u8> = Vec::new();
    push_zeros(&mut out, 12);
    push_bytes(&mut out, &a.bytes);
    proof {
        assert(out@ =~= word_address(a@));
    }
    out
}

/// Read a 64-bit value out of one ABI word, checking the 24 padding bytes.
/// Returns the value exactly when the bytes are the word of some value.
pub fn decode_word_u64(data: &Vec<u8>) -> (r: Option<u64>)
    ensures
        match r {
            Some(v) => data@ == word_u64(v),
            None => forall|v: u64| data@ != #[trigger] word_u64(v),
        },
{
    if data.len() != 32 {
        proof {
            assert(forall|v: u64| (#[trigger] word_u64(v)).len() == 32);
        }
        return None;
    }
    let mut i: usize = 0;
    while i < 24
        invariant
            i <= 24,
            data@.len() == 32,
            forall|j: int| 0 <= j < i ==> data@[j] == 0u8,
        decreases 24 - i,
    {
        if data[i] != 0 {
            proof {
                assert(forall|v: u64| (#[trigger] word_u64(v))[i as int] == 0u8);
            }
            return None;
        }
        i += 1;
    }
    let v: u64 = ((data[24] as u64) << 56) | ((data[25] as u64) << 48)
        | ((data[26] as u64) << 40) | ((data[27] as u64) << 32) | ((data[28] as u64) << 24)
        | ((data[29] as u64) << 16) | ((data[30] as u64) << 8) | (data[31] as u64);
    proof {
        let tail = data@.subrange(24, 32);
        assert(v == u64_from_be(tail));
        lemma_be_bytes_of_read(tail);
        assert(data@ =~= word_u64(v));
    }
    Some(v)
}

/// The ASCII bytes of the Solidity signature `initialize(address)`.
pub open spec fn initialize_sig_bytes() -> Seq<u8> {
    seq![
        105u8, 110u8, 105u8, 116u8, 105u8, 97u8, 108u8, 105u8, 122u8, 101u8, 40u8, 97u8,
        100u8, 100u8, 114u8, 101u8, 115u8, 115u8, 41u8,
    ]
}

/// A function selector: the first 4 bytes of the Keccak-256 digest of the
/// function's signature.
pub open spec fn selector_of(sig: Seq<u8>) -> Seq<u8> {
    keccak256_of(sig).take(4)
}

/// Calldata of `initialize(manager)`: the selector, then the manager address
/// as one ABI word.
pub open spec fn initialize_calldata_bytes(manager: Seq<u8>) -> Seq<u8> {
    selector_of(initialize_sig_bytes()) + word_address(manager)
}

fn initialize_sig() -> (r: Vec<u8>)
    ensures
        r@ == initialize_sig_bytes(),
{
    let mut v: Vec<u8> = Vec::new();
    v.push(105u8);
    v.push(110u8);
    v.push(105u8);
    v.push(116u8);
    v.push(105u8);
    v.push(97u8);
    v.push(108u8);
    v.push(105u8);
    v.push(122u8);
    v.push(101u8);
    v.push(40u8);
    v.push(97u8);
    v.push(100u8);
    v.push(100u8);
    v.push(114u8);
    v.push(101u8);
    v.push(115u8);
    v.push(115u8);
    v.push(41u8);
    proof {
        assert(v@ =~= initialize_sig_bytes());
    }
    v
}

/// The 4-byte selector of `initialize(address)`.
pub fn initialize_selector() -> (r: Vec<u8>)
    ensures
        r@ == selector_of(initialize_sig_bytes()),
        r@.len() == 4,
{
    let sig = initialize_sig();
    let digest = keccak256(sig.as_slice());
    let mut out: Vec<u8> = Vec::new();
    out.push(digest[0]);
    out.push(digest[1]);
    out.push(digest[2]);
    out.push(digest[3]);
    proof {
        assert(out@ =~= keccak256_of(initialize_sig_bytes()).take(4));
    }
    out
}

/// Build the calldata that initializes the proxy with `manager`.
pub fn initialize_calldata(manager: &Address) -> (r: Vec<u8>)
    requires
        manager.wf(),
    ensures
        r@ == initialize_calldata_bytes(manager@),
        r@.len() == 36,
        r@.subrange(4, 16) =~= zeros(12),
        r@.subrange(16, 36) =~= manager@,
{
    let mut out = initialize_selector();
    push_zeros(&mut out, 12);
    push_bytes(&mut out, &manager.bytes);
    proof {
        assert(out@ =~= initialize_calldata_bytes(manager@));
        assert(out@.subrange(4, 16) =~= zeros(12));
        assert(out@.subrange(16, 36) =~= manager@);
    }
    out
}

/// The zero bytes that pad `n` bytes up to a 32-byte boundary.
pub open spec fn pad_len(n: int) -> int {
    if n % 32 == 0 {
        0
    } else {
        32 - (n % 32)
    }
}

/// The ABI encoding of the proxy's constructor arguments `(address, bytes)`:
/// the implementation address word, the offset of the dynamic part (one word
/// past the two-word head), then the initializer's length word and bytes,
/// zero-padded to a word boundary.
pub open spec fn proxy_constructor_args_bytes(implementation: Seq<u8>, init_data: Seq<u8>) -> Seq<
    u8,
> {
    word_address(implementation) + word_u64(64) + word_u64(init_data.len() as u64) + init_data
        + zeros(pad_len(init_data.len() as int))
}

/// Encode the proxy's constructor arguments: the implementation address and
/// the initializer calldata it will be called with.
pub fn proxy_constructor_args(implementation: &Address, init_data: &Vec<u8>) -> (r: Vec<u8>)
    requires
        implementation.wf(),
    ensures
        r@ == proxy_constructor_args_bytes(implementation@, init_data@),
        r@.len() == 96 + init_data@.len() + pad_len(init_data@.len() as int),
        r@.len() % 32 == 0,
{
    let mut out = encode_word_address(implementation);
    let offset_word = encode_word_u64(64);
    push_bytes(&mut out, &offset_word);
    let length_word = encode_word_u64(init_data.len() as u64);
    push_bytes(&mut out, &length_word);
    push_bytes(&mut out, init_data);
    let pad: usize = if init_data.len() % 32 == 0 {
        0
    } else {
        32 - init_data.len() % 32
    };
    push_zeros(&mut out, pad);
    proof {
        assert(pad as int == pad_len(init_data@.len() as int));
        assert(out@ =~= proxy_constructor_args_bytes(implementation@, init_data@));
    }
    out
}

/// Read the manager address back out of `initialize(address)` calldata.
/// Accepts exactly a 4-byte selector followed by a zero-padded address word;
/// the selector bytes themselves are not inspected.
pub fn decode_initialize_manager(data: &Vec<u8>) -> (r: Option<Address>)
    ensures
        match r {
            Some(a) => {
                &&& a.wf()
                &&& data@.len() == 36
                &&& data@.subrange(4, 16) =~= zeros(12)
                &&& a@ == data@.subrange(16, 36)
            },
            None => !(data@.len() == 36 && data@.subrange(4, 16) =~= zeros(12)),
        },
{
    if data.len() != 36 {
        return None;
    }
    let mut i: usize = 4;
    while i < 16
        invariant
            4 <= i <= 16,
            data@.len() == 36,
            forall|j: int| 4 <= j < i ==> data@[j] == 0u8,
        decreases 16 - i,
    {
        if data[i] != 0 {
            proof {
                assert(data@.subrange(4, 16)[i - 4] == data@[i as int]);
                assert(zeros(12)[i - 4] == 0u8);
            }
            return None;
        }
        i += 1;
    }
    let mut bytes: Vec<u8> = Vec::new();
    let mut k: usize = 16;
    while k < 36
        invariant
            16 <= k <= 36,
            data@.len() == 36,
            bytes@ =~= data@.subrange(16, k as int),
        decreases 36 - k,
    {
        bytes.push(data[k]);
        k += 1;
    }
    proof {
        assert(data@.subrange(4, 16) =~= zeros(12));
        assert(bytes@ =~= data@.subrange(16, 36));
    }
    Some(Address { bytes })
}

} // verus!
