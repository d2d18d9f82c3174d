//! The breeding engine: derivation of an asset's genetic payload.
//!
//! A payload is a fixed sequence of sixteen bytes. A directly created asset
//! mixes a caller-supplied seed with host entropy, the creator and the newly
//! allocated identifier, so two creations diverge whenever any of those
//! differ. A bred asset takes every byte from one of its two parents; one bit
//! of a per-call selector decides which parent contributes each position.

use vstd::prelude::*;

verus! {

/// An asset: an immutable genetic payload of sixteen bytes, fixed at
/// creation or breeding time and never mutated afterward.
#[derive(Clone, Copy, PartialEq, Eq, Debug)]
pub struct Kitty {
    pub dna: [u8; 16],
}

impl View for Kitty {
    type V = Seq<u8>;

    open spec fn view(&self) -> Seq<u8> {
        self.dna@
    }
}

/// Byte `k` (little-endian) of a 64-bit word.
pub open spec fn u64_byte(w: u64, k: u64) -> u8 {
    ((w >> ((8 * k) as u64)) & 0xff) as u8
}

/// Byte `k` (little-endian) of a 32-bit word.
pub open spec fn u32_byte(w: u32, k: u32) -> u8 {
    ((w >> ((8 * k) as u32)) & 0xff) as u8
}

/// The payload of a directly created asset: every byte mixes the seed, the
/// host entropy, the creator and the allocated identifier.
pub open spec fn created_dna(seed: Seq<u8>, entropy: Seq<u8>, who: u64, id: u32) -> Seq<u8> {
    Seq::new(
        16,
        |i: int|
            (((seed[i % 8] ^ entropy[i]) ^ u64_byte(who, (i % 8) as u64)) ^ u32_byte(
                id,
                (i % 4) as u32,
            )),
    )
}

/// The selector for one breeding call: host entropy made attributable to the
/// exact call by mixing in the seed, the caller, both parents and the child
/// identifier, so repeated breeding of the same pair never reuses a selector.
pub open spec fn breed_selector(
    seed: Seq<u8>,
    entropy: Seq<u8>,
    who: u64,
    parent_a: u32,
    parent_b: u32,
    child: u32,
) -> Seq<u8> {
    Seq::new(
        16,
        |i: int|
            (((((seed[i % 8] ^ entropy[i]) ^ u64_byte(who, (i % 8) as u64)) ^ u32_byte(
                parent_a,
                (i % 4) as u32,
            )) ^ u32_byte(parent_b, (i % 4) as u32)) ^ u32_byte(child, (i % 4) as u32)),
    )
}

/// A bred payload: the low bit of each selector byte picks which parent
/// contributes that byte, so every child byte equals the corresponding byte
/// of exactly one parent.
pub open spec fn child_dna(a: Seq<u8>, b: Seq<u8>, sel: Seq<u8>) -> Seq<u8> {
    Seq::new(16, |i: int| if sel[i] & 1 == 1 { a[i] } else { b[i] })
}

fn u64_byte_exec(w: u64, k: u64) -> (r: u8)
    requires
        k < 8,
    ensures
        r == u64_byte(w, k),
{
    proof {
        assert((w >> ((8 * k) as u64)) & 0xff < 256) by (bit_vector);
    }
    ((w >> (8 * k)) & 0xff) as u8
}

fn u32_byte_exec(w: u32, k: u32) -> (r: u8)
    requires
        k < 4,
    ensures
        r == u32_byte(w, k),
{
    proof {
        assert((w >> ((8 * k) as u32)) & 0xff < 256) by (bit_vector);
    }
    ((w >> (8 * k)) & 0xff) as u8
}

fn created_byte(seed: &[u8; 8], entropy: &[u8; 16], who: u64, id: u32, i: usize) -> (r: u8)
    requires
        i < 16,
    ensures
        r == created_dna(seed@, entropy@, who, id)[i as int],
{
    let s = seed[i % 8];
    let e = entropy[i];
    let w = u64_byte_exec(who, (i as u64) % 8);
    let d = u32_byte_exec(id, (i as u32) % 4);
    ((s ^ e) ^ w) ^ d
}

/// The payload stored by a direct creation.
pub fn derive_created(seed: &[u8; 8], entropy: &[u8; 16], who: u64, id: u32) -> (r: Kitty)
    ensures
        r@ == created_dna(seed@, entropy@, who, id),
{
    let dna: [u8; 16] = [
        created_byte(seed, entropy, who, id, 0),
        created_byte(seed, entropy, who, id, 1),
        created_byte(seed, entropy, who, id, 2),
        created_byte(seed, entropy, who, id, 3),
        created_byte(seed, entropy, who, id, 4),
        created_byte(seed, entropy, who, id, 5),
        created_byte(seed, entropy, who, id, 6),
        created_byte(seed, entropy, who, id, 7),
        created_byte(seed, entropy, who, id, 8),
        created_byte(seed, entropy, who, id, 9),
        created_byte(seed, entropy, who, id, 10),
        created_byte(seed, entropy, who, id, 11),
        created_byte(seed, entropy, who, id, 12),
        created_byte(seed, entropy, who, id, 13),
        created_byte(seed, entropy, who, id, 14),
        created_byte(seed, entropy, who, id, 15),
    ];
    proof {
        assert(dna@ =~= created_dna(seed@, entropy@, who, id));
    }
    Kitty { dna }
}

fn bred_byte(
    a: &Kitty,
    b: &Kitty,
    seed: &[u8; 8],
    entropy: &[u8; 16],
    who: u64,
    parent_a: u32,
    parent_b: u32,
    child: u32,
    i: usize,
) -> (r: u8)
    requires
        i < 16,
    ensures
        r == child_dna(
            a@,
            b@,
            breed_selector(seed@, entropy@, who, parent_a, parent_b, child),
        )[i as int],
{
    let s = seed[i % 8];
    let e = entropy[i];
    let w = u64_byte_exec(who, (i as u64) % 8);
    let pa = u32_byte_exec(parent_a, (i as u32) % 4);
    let pb = u32_byte_exec(parent_b, (i as u32) % 4);
    let c = u32_byte_exec(child, (i as u32) % 4);
    let sel = ((((s ^ e) ^ w) ^ pa) ^ pb) ^ c;
    if sel & 1 == 1 {
        a.dna[i]
    } else {
        b.dna[i]
    }
}

/// The payload stored by a breeding call.
pub fn derive_bred(
    a: &Kitty,
    b: &Kitty,
    seed: &[u8; 8],
    entropy: &[u8; 16],
    who: u64,
    parent_a: u32,
    parent_b: u32,
    child: u32,
) -> (r: Kitty)
    ensures
        r@ == child_dna(a@, b@, breed_selector(seed@, entropy@, who, parent_a, parent_b, child)),
{
    let dna: [u8; 16] = [
        bred_byte(a, b, seed, entropy, who, parent_a, parent_b, child, 0),
        bred_byte(a, b, seed, entropy, who, parent_a, parent_b, child, 1),
        bred_byte(a, b, seed, entropy, who, parent_a, parent_b, child, 2),
        bred_byte(a, b, seed, entropy, who, parent_a, parent_b, child, 3),
        bred_byte(a, b, seed, entropy, who, parent_a, parent_b, child, 4),
        bred_byte(a, b, seed, entropy, who, parent_a, parent_b, child, 5),
        bred_byte(a, b, seed, entropy, who, parent_a, parent_b, child, 6),
        bred_byte(a, b, seed, entropy, who, parent_a, parent_b, child, 7),
        bred_byte(a, b, seed, entropy, who, parent_a, parent_b, child, 8),
        bred_byte(a, b, seed, entropy, who, parent_a, parent_b, child, 9),
        bred_byte(a, b, seed, entropy, who, parent_a, parent_b, child, 10),
        bred_byte(a, b, seed, entropy, who, parent_a, parent_b, child, 11),
        bred_byte(a, b, seed, entropy, who, parent_a, parent_b, child, 12),
        bred_byte(a, b, seed, entropy, who, parent_a, parent_b, child, 13),
        bred_byte(a, b, seed, entropy, who, parent_a, parent_b, child, 14),
        bred_byte(a, b, seed, entropy, who, parent_a, parent_b, child, 15),
    ];
    proof {
        assert(dna@ =~= child_dna(
            a@,
            b@,
            breed_selector(seed@, entropy@, who, parent_a, parent_b, child),
        ));
    }
    Kitty { dna }
}

} // verus!
