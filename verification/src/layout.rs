//! The stored form of a vault: a record of 112 bytes.
//!
//! | bytes      | field                                                  |
//! |------------|--------------------------------------------------------|
//! | 0 ..  32   | `authority`                                            |
//! | 32 ..  64  | `fee_recipient`                                        |
//! | 64 ..  72  | `entry_fee`                                            |
//! | 72 ..  75  | `max_participants`: 1 and the bound, or three zeros    |
//! | 75 ..  77  | `current_participants`                                 |
//! | 77 ..  85  | `opens_at`                                             |
//! | 85 ..  93  | `closes_at`                                            |
//! | 93         | `active`: 0 or 1                                       |
//! | 94 .. 102  | `total_pot`                                            |
//! | 102        | `distributed`: 0 or 1                                  |
//! | 103 .. 111 | `created_at`                                           |
//! | 111        | `bump`                                                 |
//!
//! Integers are little-endian, signed ones in two's complement. A record is
//! read back only if it is the stored form of a well-formed vault.

use vstd::bytes::{
    lemma_auto_spec_u16_to_from_le_bytes, lemma_auto_spec_u64_to_from_le_bytes,
    spec_u16_from_le_bytes, spec_u16_to_le_bytes, spec_u64_from_le_bytes, spec_u64_to_le_bytes,
    u16_from_le_bytes, u16_to_le_bytes, u64_from_le_bytes, u64_to_le_bytes,
};
use vstd::prelude::*;
use vstd::slice::slice_subrange;
use crate::identity::Identity;
use crate::vault::Vault;

verus! {

/// The length of a stored vault.
pub const VAULT_LEN: usize = 112;

/// The unsigned integer with the bits of `x` in two's complement.
pub open spec fn signed_bits(x: i64) -> u64 {
    if x >= 0 {
        x as u64
    } else {
        (x + 0x1_0000_0000_0000_0000) as u64
    }
}

/// The signed integer whose bits in two's complement are those of `bits`.
pub open spec fn signed_value(bits: u64) -> i64 {
    if bits < 0x8000_0000_0000_0000 {
        bits as i64
    } else {
        (bits - 0x1_0000_0000_0000_0000) as i64
    }
}

/// The byte that stores a flag.
pub open spec fn flag_byte(flag: bool) -> u8 {
    if flag {
        1
    } else {
        0
    }
}

/// The three bytes that store the bound on the participants.
pub open spec fn bound_bytes(bound: Option<u16>) -> Seq<u8> {
    match bound {
        Some(max) => seq![1u8] + spec_u16_to_le_bytes(max),
        None => seq![0u8, 0u8, 0u8],
    }
}

/// The stored form of a vault.
pub open spec fn encoding(vault: Vault) -> Seq<u8> {
    vault.authority.bytes@ + vault.fee_recipient.bytes@ + spec_u64_to_le_bytes(vault.entry_fee)
        + bound_bytes(vault.max_participants) + spec_u16_to_le_bytes(vault.current_participants)
        + spec_u64_to_le_bytes(signed_bits(vault.opens_at)) + spec_u64_to_le_bytes(
        signed_bits(vault.closes_at),
    ) + seq![flag_byte(vault.active)] + spec_u64_to_le_bytes(vault.total_pot) + seq![
        flag_byte(vault.distributed),
    ] + spec_u64_to_le_bytes(signed_bits(vault.created_at)) + seq![vault.bump]
}

/// The well-formed vault that `bytes` is the stored form of, if there is
/// one.
pub open spec fn decoding(bytes: Seq<u8>) -> Option<Vault> {
    if exists|vault: Vault| vault.wf() && #[trigger] encoding(vault) == bytes {
        Some(choose|vault: Vault| vault.wf() && #[trigger] encoding(vault) == bytes)
    } else {
        None
    }
}

/// Where each field of a vault stands in its stored form.
pub proof fn lemma_encoding_fields(vault: Vault)
    ensures
        encoding(vault).len() == VAULT_LEN,
        encoding(vault).subrange(0, 32) == vault.authority.bytes@,
        encoding(vault).subrange(32, 64) == vault.fee_recipient.bytes@,
        encoding(vault).subrange(64, 72) == spec_u64_to_le_bytes(vault.entry_fee),
        encoding(vault).subrange(72, 75) == bound_bytes(vault.max_participants),
        encoding(vault).subrange(75, 77) == spec_u16_to_le_bytes(vault.current_participants),
        encoding(vault).subrange(77, 85) == spec_u64_to_le_bytes(signed_bits(vault.opens_at)),
        encoding(vault).subrange(85, 93) == spec_u64_to_le_bytes(signed_bits(vault.closes_at)),
        encoding(vault)[93] == flag_byte(vault.active),
        encoding(vault).subrange(94, 102) == spec_u64_to_le_bytes(vault.total_pot),
        encoding(vault)[102] == flag_byte(vault.distributed),
        encoding(vault).subrange(103, 111) == spec_u64_to_le_bytes(signed_bits(vault.created_at)),
        encoding(vault)[111] == vault.bump,
{
    lemma_auto_spec_u16_to_from_le_bytes();
    lemma_auto_spec_u64_to_from_le_bytes();
    let e = encoding(vault);
    assert(bound_bytes(vault.max_participants).len() == 3);
    assert(e.subrange(0, 32) =~= vault.authority.bytes@);
    assert(e.subrange(32, 64) =~= vault.fee_recipient.bytes@);
    assert(e.subrange(64, 72) =~= spec_u64_to_le_bytes(vault.entry_fee));
    assert(e.subrange(72, 75) =~= bound_bytes(vault.max_participants));
    assert(e.subrange(75, 77) =~= spec_u16_to_le_bytes(vault.current_participants));
    assert(e.subrange(77, 85) =~= spec_u64_to_le_bytes(signed_bits(vault.opens_at)));
    assert(e.subrange(85, 93) =~= spec_u64_to_le_bytes(signed_bits(vault.closes_at)));
    assert(e.subrange(94, 102) =~= spec_u64_to_le_bytes(vault.total_pot));
    assert(e.subrange(103, 111) =~= spec_u64_to_le_bytes(signed_bits(vault.created_at)));
}

/// Two vaults with the same stored form are the same vault.
pub proof fn lemma_encoding_is_injective(a: Vault, b: Vault)
    requires
        encoding(a) == encoding(b),
    ensures
        a == b,
{
    lemma_auto_spec_u16_to_from_le_bytes();
    lemma_auto_spec_u64_to_from_le_bytes();
    lemma_encoding_fields(a);
    lemma_encoding_fields(b);
    assert(a.authority.bytes =~= b.authority.bytes);
    assert(a.fee_recipient.bytes =~= b.fee_recipient.bytes);
    assert(a.entry_fee == spec_u64_from_le_bytes(spec_u64_to_le_bytes(a.entry_fee)));
    assert(a.total_pot == spec_u64_from_le_bytes(spec_u64_to_le_bytes(a.total_pot)));
    assert(a.current_participants == spec_u16_from_le_bytes(
        spec_u16_to_le_bytes(a.current_participants),
    ));
    assert(signed_bits(a.opens_at) == spec_u64_from_le_bytes(
        spec_u64_to_le_bytes(signed_bits(a.opens_at)),
    ));
    assert(signed_bits(a.closes_at) == spec_u64_from_le_bytes(
        spec_u64_to_le_bytes(signed_bits(a.closes_at)),
    ));
    assert(signed_bits(a.created_at) == spec_u64_from_le_bytes(
        spec_u64_to_le_bytes(signed_bits(a.created_at)),
    ));
    assert(a.max_participants == b.max_participants) by {
        let ba = bound_bytes(a.max_participants);
        let bb = bound_bytes(b.max_participants);
        assert(ba[0] == bb[0]);
        if let Some(max) = a.max_participants {
            let other = b.max_participants->0;
            assert(ba.subrange(1, 3) =~= spec_u16_to_le_bytes(max));
            assert(bb.subrange(1, 3) =~= spec_u16_to_le_bytes(other));
            assert(max == spec_u16_from_le_bytes(spec_u16_to_le_bytes(max)));
        }
    }
}

/// A well-formed vault is read back from its stored form as it was.
pub proof fn lemma_round_trip(vault: Vault)
    requires
        vault.wf(),
    ensures
        decoding(encoding(vault)) == Some(vault),
{
    let found = choose|other: Vault| other.wf() && #[trigger] encoding(other) == encoding(vault);
    lemma_encoding_is_injective(found, vault);
}

/// What is read back from a record is well-formed and has that record as
/// its stored form; a record of any other length than 112 is not read back.
pub proof fn lemma_decoding(bytes: Seq<u8>)
    ensures
        decoding(bytes) matches Some(vault) ==> vault.wf() && encoding(vault) == bytes,
        bytes.len() != VAULT_LEN ==> decoding(bytes) is None,
{
    if bytes.len() != VAULT_LEN {
        assert forall|vault: Vault| vault.wf() implies #[trigger] encoding(vault) != bytes by {
            lemma_encoding_fields(vault);
        }
    }
}

/// The bits of a signed integer.
fn bits_of(x: i64) -> (bits: u64)
    ensures
        bits == signed_bits(x),
{
    if x >= 0 {
        x as u64
    } else {
        ((x - i64::MIN) as u64) + 0x8000_0000_0000_0000
    }
}

/// The signed integer with the given bits.
fn signed_of(bits: u64) -> (x: i64)
    ensures
        x == signed_value(bits),
        signed_bits(x) == bits,
{
    if bits < 0x8000_0000_0000_0000 {
        bits as i64
    } else {
        ((bits - 0x8000_0000_0000_0000) as i64) + i64::MIN
    }
}

/// Appends `part` to `out`.
fn put(out: &mut Vec<u8>, part: &[u8])
    ensures
        final(out)@ == old(out)@ + part@,
{
    let n = part.len();
    let mut i: usize = 0;
    while i < n
        invariant
            i <= n,
            n == part@.len(),
            out@ == old(out)@ + part@.take(i as int),
        decreases n - i,
    {
        out.push(part[i]);
        assert(part@.take(i + 1) =~= part@.take(i as int).push(part@[i as int]));
        i = i + 1;
    }
    assert(part@.take(n as int) =~= part@);
}

/// The identity that stands in the 32 bytes from `start` on.
fn identity_at(bytes: &[u8], start: usize) -> (id: Identity)
    requires
        start + 32 <= bytes@.len(),
    ensures
        id.bytes@ == bytes@.subrange(start as int, start + 32),
{
    let n = bytes.len();
    let mut found = [0u8;32];
    let mut i: usize = 0;
    while i < 32
        invariant
            i <= 32,
            n == bytes@.len(),
            start + 32 <= n,
            forall|k: int| 0 <= k < i ==> found@[k] == bytes@[start + k],
        decreases 32 - i,
    {
        found[i] = bytes[start + i];
        i = i + 1;
    }
    assert(found@ =~= bytes@.subrange(start as int, start + 32));
    Identity { bytes: found }
}

/// The stored form of a vault.
pub fn encode(vault: &Vault) -> (bytes: Vec<u8>)
    ensures
        bytes@ == encoding(*vault),
        bytes@.len() == VAULT_LEN,
{
    let mut bytes: Vec<u8> = Vec::with_capacity(VAULT_LEN);
    put(&mut bytes, vault.authority.bytes.as_slice());
    put(&mut bytes, vault.fee_recipient.bytes.as_slice());
    put(&mut bytes, u64_to_le_bytes(vault.entry_fee).as_slice());
    match vault.max_participants {
        Some(max) => {
            bytes.push(1);
            put(&mut bytes, u16_to_le_bytes(max).as_slice());
        },
        None => {
            bytes.push(0);
            bytes.push(0);
            bytes.push(0);
        },
    }
    assert(bytes@ =~= vault.authority.bytes@ + vault.fee_recipient.bytes@ + spec_u64_to_le_bytes(
        vault.entry_fee,
    ) + bound_bytes(vault.max_participants));
    put(&mut bytes, u16_to_le_bytes(vault.current_participants).as_slice());
    put(&mut bytes, u64_to_le_bytes(bits_of(vault.opens_at)).as_slice());
    put(&mut bytes, u64_to_le_bytes(bits_of(vault.closes_at)).as_slice());
    bytes.push(if vault.active { 1 } else { 0 });
    put(&mut bytes, u64_to_le_bytes(vault.total_pot).as_slice());
    bytes.push(if vault.distributed { 1 } else { 0 });
    put(&mut bytes, u64_to_le_bytes(bits_of(vault.created_at)).as_slice());
    bytes.push(vault.bump);
    proof {
        assert(bytes@ =~= encoding(*vault));
        lemma_encoding_fields(*vault);
    }
    bytes
}

/// Reads a vault back from its stored form.
///
/// The result is the well-formed vault of which `bytes` is the stored
/// form; there is at most one. Every other record is refused: one of
/// another length than 112, one with a flag that is neither 0 nor 1 or a
/// bound that is not stored as this layout stores it, and one of a vault
/// that is not well-formed.
pub fn decode(bytes: &[u8]) -> (result: Option<Vault>)
    ensures
        result == decoding(bytes@),
        result matches Some(vault) ==> vault.wf() && encoding(vault) == bytes@,
        bytes@.len() != VAULT_LEN ==> result is None,
{
    proof {
        lemma_decoding(bytes@);
        lemma_auto_spec_u16_to_from_le_bytes();
        lemma_auto_spec_u64_to_from_le_bytes();
    }
    if bytes.len() != VAULT_LEN {
        return None;
    }
    let tag = bytes[72];
    let active = bytes[93];
    let distributed = bytes[102];
    if active > 1 || distributed > 1 || tag > 1 || (tag == 0 && (bytes[73] != 0 || bytes[74]
        != 0)) {
        proof {
            assert forall|vault: Vault| vault.wf() implies #[trigger] encoding(vault)
                != bytes@ by {
                lemma_encoding_fields(vault);
                if encoding(vault) == bytes@ {
                    let stored = bound_bytes(vault.max_participants);
                    assert(stored[0] == bytes@[72]);
                    assert(stored[1] == bytes@[73]);
                    assert(stored[2] == bytes@[74]);
                }
            }
        }
        return None;
    }
    let max_participants = if tag == 1 {
        Some(u16_from_le_bytes(slice_subrange(bytes, 73, 75)))
    } else {
        None
    };
    let vault = Vault {
        authority: identity_at(bytes, 0),
        fee_recipient: identity_at(bytes, 32),
        entry_fee: u64_from_le_bytes(slice_subrange(bytes, 64, 72)),
        max_participants,
        current_participants: u16_from_le_bytes(slice_subrange(bytes, 75, 77)),
        opens_at: signed_of(u64_from_le_bytes(slice_subrange(bytes, 77, 85))),
        closes_at: signed_of(u64_from_le_bytes(slice_subrange(bytes, 85, 93))),
        active: active == 1,
        total_pot: u64_from_le_bytes(slice_subrange(bytes, 94, 102)),
        distributed: distributed == 1,
        created_at: signed_of(u64_from_le_bytes(slice_subrange(bytes, 103, 111))),
        bump: bytes[111],
    };
    proof {
        assert(bound_bytes(vault.max_participants) =~= bytes@.subrange(72, 75));
        assert(encoding(vault) =~= bytes@);
    }
    if vault.is_well_formed() {
        proof {
            lemma_round_trip(vault);
        }
        Some(vault)
    } else {
        proof {
            assert forall|other: Vault| other.wf() implies #[trigger] encoding(other)
                != bytes@ by {
                if encoding(other) == bytes@ {
                    lemma_encoding_is_injective(other, vault);
                }
            }
        }
        None
    }
}

} // verus!
