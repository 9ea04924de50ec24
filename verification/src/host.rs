//! What the ledger's host computes.

use vstd::prelude::*;

verus! {

/// A number as eight bytes, the most significant first.
pub open spec fn be_bytes(n: u64) -> Seq<u8> {
    seq![
        (n / 0x100_0000_0000_0000) as u8,
        (n / 0x1_0000_0000_0000 % 256) as u8,
        (n / 0x100_0000_0000 % 256) as u8,
        (n / 0x1_0000_0000 % 256) as u8,
        (n / 0x100_0000 % 256) as u8,
        (n / 0x1_0000 % 256) as u8,
        (n / 0x100 % 256) as u8,
        (n % 256) as u8,
    ]
}

/// The serialized form of an unsigned 64-bit value: the four bytes that mark its type,
/// then the number.
pub open spec fn u64_xdr(n: u64) -> Seq<u8> {
    seq![0u8, 0u8, 0u8, 5u8] + be_bytes(n)
}

/// The SHA-256 digest of a byte string.
pub uninterp spec fn sha256_digest(data: Seq<u8>) -> Seq<u8>;

/// Calls `ToXdr::to_xdr` of `soroban_sdk` on a `u64`. Claimed: the value goes out in the
/// XDR form of a host value, the discriminant of `SCV_U64` (5) in four bytes and then the
/// number in eight, both with the most significant byte first.
#[verifier::external_body]
pub(crate) fn u64_to_xdr(n: u64) -> (bytes: Vec<u8>)
    ensures
        bytes@ == u64_xdr(n),
{
    let env = soroban_sdk::Env::default();
    soroban_sdk::xdr::ToXdr::to_xdr(n, &env).iter().collect()
}

/// Calls `Crypto::sha256` of `soroban_sdk`. Claimed: the digest depends on the bytes alone.
/// The host meters the work, and a fresh one has means for far more than the 4096 bytes
/// admitted here; inside a contract it charges the work to the call, like any other step.
#[verifier::external_body]
pub(crate) fn sha256(data: &Vec<u8>) -> (digest: [u8; 32])
    requires
        data@.len() <= 4096,
    ensures
        digest@ == sha256_digest(data@),
{
    let env = soroban_sdk::Env::default();
    env.crypto().sha256(&soroban_sdk::Bytes::from_slice(&env, data)).to_array()
}

} // verus!
