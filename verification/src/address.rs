//! Deterministic address derivation.
//!
//! A record's account address is a pure function of a record-kind tag and two
//! seed byte strings: the seeds are length-prefixed and concatenated, and the
//! result is hashed into a 32-byte address plus a one-byte discriminator
//! ("bump"). Determinism is what the ledger's create-once guards rest on;
//! collisions across distinct seed tuples are treated as occupancy by the
//! ledger, never as overwrites.

use vstd::prelude::*;

use crate::bytes::push_all;

verus! {

/// Length of a derived address and of an identity, in bytes.
pub const ADDRESS_LEN: usize = 32;

/// Only this many leading bytes of a content identifier take part in
/// address derivation; longer identifiers are truncated.
pub const CONTENT_ID_PREFIX_LEN: usize = 32;

/// FNV-1a 64-bit offset basis.
pub const FNV_OFFSET: u64 = 0xcbf29ce484222325;

/// FNV-1a 64-bit prime.
pub const FNV_PRIME: u64 = 0x100000001b3;

/// First `n` bytes of a byte string, or the whole string when it is shorter.
pub open spec fn prefix_bytes(s: Seq<u8>, n: int) -> Seq<u8> {
    if s.len() <= n {
        s
    } else {
        s.subrange(0, n)
    }
}

/// One FNV-1a step: fold one byte into the running hash, with the
/// multiplication wrapping at 64 bits as FNV-1a prescribes.
pub open spec fn fnv_step(h: u64, b: u8) -> u64 {
    ((((h ^ (b as u64)) as int) * (FNV_PRIME as int)) % 0x1_0000_0000_0000_0000) as u64
}

/// FNV-1a over a byte string, starting from hash state `h`.
pub open spec fn fnv1a(h: u64, data: Seq<u8>) -> u64
    decreases data.len(),
{
    if data.len() == 0 {
        h
    } else {
        fnv1a(fnv_step(h, data[0]), data.drop_first())
    }
}

/// Hash lane `j`: FNV-1a over the data, started from the offset basis with
/// `j` folded in, so each lane walks the data from a different state.
pub open spec fn lane_hash(j: u8, data: Seq<u8>) -> u64 {
    fnv1a(fnv_step(FNV_OFFSET, j), data)
}

/// The eight little-endian bytes of a 64-bit hash state.
pub open spec fn u64_bytes(h: u64) -> Seq<u8> {
    seq![
        (h % 0x100) as u8,
        ((h / 0x100) % 0x100) as u8,
        ((h / 0x10000) % 0x100) as u8,
        ((h / 0x1000000) % 0x100) as u8,
        ((h / 0x100000000) % 0x100) as u8,
        ((h / 0x10000000000) % 0x100) as u8,
        ((h / 0x1000000000000) % 0x100) as u8,
        ((h / 0x100000000000000) % 0x100) as u8,
    ]
}

/// The 32-byte address of a derivation input: four hash lanes side by side.
pub open spec fn address_bytes(data: Seq<u8>) -> Seq<u8> {
    u64_bytes(lane_hash(0, data)) + u64_bytes(lane_hash(1, data)) + u64_bytes(lane_hash(2, data))
        + u64_bytes(lane_hash(3, data))
}

/// The discriminator byte of a derivation input: a fifth hash lane.
pub open spec fn bump_byte(data: Seq<u8>) -> u8 {
    (lane_hash(4, data) % 0x100) as u8
}

/// Derivation input: the tag and both seeds, each length-prefixed, in order.
/// The length prefixes make the encoding injective for components of at
/// most 255 bytes, so distinct seed tuples never hash the same input.
pub open spec fn seed_input(tag: Seq<u8>, seed_a: Seq<u8>, seed_b: Seq<u8>) -> Seq<u8> {
    seq![tag.len() as u8] + tag + seq![seed_a.len() as u8] + seed_a + seq![seed_b.len() as u8]
        + seed_b
}

/// The derivation input encoding is injective: two seed tuples of components
/// no longer than 255 bytes that encode to the same input are the same tuple,
/// component by component. So distinct record kinds (distinct tags), and
/// distinct seeds under one kind, never feed the same bytes to the hash.
pub proof fn lemma_seed_input_injective(
    t1: Seq<u8>,
    a1: Seq<u8>,
    b1: Seq<u8>,
    t2: Seq<u8>,
    a2: Seq<u8>,
    b2: Seq<u8>,
)
    requires
        t1.len() <= 255,
        a1.len() <= 255,
        b1.len() <= 255,
        t2.len() <= 255,
        a2.len() <= 255,
        b2.len() <= 255,
        seed_input(t1, a1, b1) == seed_input(t2, a2, b2),
    ensures
        t1 == t2,
        a1 == a2,
        b1 == b2,
{
    let s1 = seed_input(t1, a1, b1);
    let s2 = seed_input(t2, a2, b2);
    assert(s1[0] == t1.len() as u8);
    assert(s2[0] == t2.len() as u8);
    assert(t1.len() == t2.len());
    let tl = t1.len() as int;
    assert(s1[1 + tl] == a1.len() as u8);
    assert(s2[1 + tl] == a2.len() as u8);
    assert(a1.len() == a2.len());
    let al = a1.len() as int;
    assert(s1[2 + tl + al] == b1.len() as u8);
    assert(s2[2 + tl + al] == b2.len() as u8);
    assert(b1.len() == b2.len());
    assert forall|i: int| 0 <= i < tl implies t1[i] == t2[i] by {
        assert(s1[1 + i] == t1[i]);
        assert(s2[1 + i] == t2[i]);
    }
    assert(t1 =~= t2);
    assert forall|i: int| 0 <= i < al implies a1[i] == a2[i] by {
        assert(s1[2 + tl + i] == a1[i]);
        assert(s2[2 + tl + i] == a2[i]);
    }
    assert(a1 =~= a2);
    assert forall|i: int| 0 <= i < b1.len() as int implies b1[i] == b2[i] by {
        assert(s1[3 + tl + al + i] == b1[i]);
        assert(s2[3 + tl + al + i] == b2[i]);
    }
    assert(b1 =~= b2);
}

/// The record-kind tags keep kinds apart: an asset derivation and a grant
/// derivation never feed the same input bytes to the hash, whatever their
/// seeds are.
pub proof fn lemma_cross_kind_inputs_distinct(a1: Seq<u8>, b1: Seq<u8>, a2: Seq<u8>, b2: Seq<u8>)
    requires
        a1.len() <= 255,
        b1.len() <= 255,
        a2.len() <= 255,
        b2.len() <= 255,
    ensures
        seed_input(asset_tag(), a1, b1) != seed_input(access_tag(), a2, b2),
{
    if seed_input(asset_tag(), a1, b1) == seed_input(access_tag(), a2, b2) {
        lemma_seed_input_injective(asset_tag(), a1, b1, access_tag(), a2, b2);
        assert(asset_tag().len() == 5);
        assert(access_tag().len() == 6);
    }
}

/// A derived address is always exactly 32 bytes long.
pub proof fn lemma_address_bytes_len(data: Seq<u8>)
    ensures
        address_bytes(data).len() == ADDRESS_LEN,
{
}

/// The record-kind tag of an asset record: the bytes of `"asset"`.
pub open spec fn asset_tag() -> Seq<u8> {
    seq![97u8, 115u8, 115u8, 101u8, 116u8]
}

/// The record-kind tag of an access-grant record: the bytes of `"access"`.
pub open spec fn access_tag() -> Seq<u8> {
    seq![97u8, 99u8, 99u8, 101u8, 115u8, 115u8]
}

/// Address of the asset record listed by `owner` for `content_id`.
/// Only the first 32 bytes of the content identifier take part.
pub open spec fn asset_address(owner: Seq<u8>, content_id: Seq<u8>) -> Seq<u8> {
    address_bytes(seed_input(asset_tag(), owner, prefix_bytes(content_id, CONTENT_ID_PREFIX_LEN as int)))
}

/// Bump byte that accompanies an asset address.
pub open spec fn asset_bump(owner: Seq<u8>, content_id: Seq<u8>) -> u8 {
    bump_byte(seed_input(asset_tag(), owner, prefix_bytes(content_id, CONTENT_ID_PREFIX_LEN as int)))
}

/// Address of the grant record binding `user` to the asset at `asset_addr`.
pub open spec fn grant_address(asset_addr: Seq<u8>, user: Seq<u8>) -> Seq<u8> {
    address_bytes(seed_input(access_tag(), asset_addr, user))
}

/// Bump byte that accompanies a grant address.
pub open spec fn grant_bump(asset_addr: Seq<u8>, user: Seq<u8>) -> u8 {
    bump_byte(seed_input(access_tag(), asset_addr, user))
}

fn fnv_step_exec(h: u64, b: u8) -> (r: u64)
    ensures
        r == fnv_step(h, b),
{
    let x: u128 = (h ^ (b as u64)) as u128;
    proof {
        assert(x * (FNV_PRIME as u128) <= 0xffff_ffff_ffff_ffffu128 * (FNV_PRIME as u128))
            by (nonlinear_arith)
            requires
                x <= 0xffff_ffff_ffff_ffffu128,
        ;
    }
    ((x * (FNV_PRIME as u128)) % 0x1_0000_0000_0000_0000u128) as u64
}

fn fnv1a_exec(init: u64, data: &Vec<u8>) -> (r: u64)
    ensures
        r == fnv1a(init, data@),
{
    let mut h: u64 = init;
    let mut i: usize = 0;
    proof {
        assert(data@.skip(0) =~= data@);
    }
    while i < data.len()
        invariant
            0 <= i <= data@.len(),
            fnv1a(init, data@) == fnv1a(h, data@.skip(i as int)),
        decreases data@.len() - i,
    {
        proof {
            assert(data@.skip(i as int).len() > 0);
            assert(data@.skip(i as int)[0] == data@[i as int]);
            assert(data@.skip(i as int).drop_first() =~= data@.skip(i as int + 1));
        }
        h = fnv_step_exec(h, data[i]);
        i = i + 1;
    }
    proof {
        assert(data@.skip(data@.len() as int) =~= Seq::<u8>::empty());
    }
    h
}

fn lane_exec(j: u8, data: &Vec<u8>) -> (r: u64)
    ensures
        r == lane_hash(j, data@),
{
    fnv1a_exec(fnv_step_exec(FNV_OFFSET, j), data)
}

fn push_u64_bytes(out: &mut Vec<u8>, h: u64)
    ensures
        final(out)@ == old(out)@ + u64_bytes(h),
{
    out.push((h % 0x100) as u8);
    out.push(((h / 0x100) % 0x100) as u8);
    out.push(((h / 0x10000) % 0x100) as u8);
    out.push(((h / 0x1000000) % 0x100) as u8);
    out.push(((h / 0x100000000) % 0x100) as u8);
    out.push(((h / 0x10000000000) % 0x100) as u8);
    out.push(((h / 0x1000000000000) % 0x100) as u8);
    out.push(((h / 0x100000000000000) % 0x100) as u8);
    proof {
        assert(out@ =~= old(out)@ + u64_bytes(h));
    }
}

/// The leading bytes of a content identifier that take part in derivation.
pub fn content_prefix(content_id: &Vec<u8>) -> (r: Vec<u8>)
    ensures
        r@ == prefix_bytes(content_id@, CONTENT_ID_PREFIX_LEN as int),
{
    let mut r: Vec<u8> = Vec::new();
    let end: usize = if content_id.len() <= CONTENT_ID_PREFIX_LEN {
        content_id.len()
    } else {
        CONTENT_ID_PREFIX_LEN
    };
    let mut i: usize = 0;
    while i < end
        invariant
            0 <= i <= end,
            end <= content_id@.len(),
            end == prefix_bytes(content_id@, CONTENT_ID_PREFIX_LEN as int).len(),
            r@ == prefix_bytes(content_id@, CONTENT_ID_PREFIX_LEN as int).take(i as int),
        decreases end - i,
    {
        r.push(content_id[i]);
        proof {
            let p = prefix_bytes(content_id@, CONTENT_ID_PREFIX_LEN as int);
            assert(p.take(i as int) + seq![content_id@[i as int]] =~= p.take(i as int + 1));
        }
        i = i + 1;
    }
    proof {
        let p = prefix_bytes(content_id@, CONTENT_ID_PREFIX_LEN as int);
        assert(p.take(p.len() as int) =~= p);
    }
    r
}

/// The byte string `"asset"`.
pub fn asset_tag_vec() -> (r: Vec<u8>)
    ensures
        r@ == asset_tag(),
{
    let mut r: Vec<u8> = Vec::new();
    r.push(97);
    r.push(115);
    r.push(115);
    r.push(101);
    r.push(116);
    proof {
        assert(r@ =~= asset_tag());
    }
    r
}

/// The byte string `"access"`.
pub fn access_tag_vec() -> (r: Vec<u8>)
    ensures
        r@ == access_tag(),
{
    let mut r: Vec<u8> = Vec::new();
    r.push(97);
    r.push(99);
    r.push(99);
    r.push(101);
    r.push(115);
    r.push(115);
    proof {
        assert(r@ =~= access_tag());
    }
    r
}

/// Derive the 32-byte address and bump byte for a tag and two seeds.
pub fn derive_address(tag: &Vec<u8>, seed_a: &Vec<u8>, seed_b: &Vec<u8>) -> (r: (Vec<u8>, u8))
    requires
        tag@.len() <= 255,
        seed_a@.len() <= 255,
        seed_b@.len() <= 255,
    ensures
        r.0@ == address_bytes(seed_input(tag@, seed_a@, seed_b@)),
        r.0@.len() == ADDRESS_LEN,
        r.1 == bump_byte(seed_input(tag@, seed_a@, seed_b@)),
{
    let mut data: Vec<u8> = Vec::new();
    data.push(tag.len() as u8);
    push_all(&mut data, tag);
    data.push(seed_a.len() as u8);
    push_all(&mut data, seed_a);
    data.push(seed_b.len() as u8);
    push_all(&mut data, seed_b);
    proof {
        assert(data@ =~= seed_input(tag@, seed_a@, seed_b@));
    }
    let mut addr: Vec<u8> = Vec::new();
    push_u64_bytes(&mut addr, lane_exec(0, &data));
    push_u64_bytes(&mut addr, lane_exec(1, &data));
    push_u64_bytes(&mut addr, lane_exec(2, &data));
    push_u64_bytes(&mut addr, lane_exec(3, &data));
    proof {
        assert(addr@ =~= address_bytes(data@));
    }
    let bump: u8 = (lane_exec(4, &data) % 0x100) as u8;
    (addr, bump)
}

} // verus!
