//! The wire codec: every message is one self-contained binary blob.
//!
//! The format is little-endian and length-prefixed: unsigned integers are
//! little-endian bytes, signed integers are stored excess-2^31 inside a
//! `u32`, byte strings carry a `u32` length, enums a one-byte tag. A
//! decoder accepts exactly what the matching encoder emits: positions must
//! lie inside the world bound, health inside its range, names within the
//! length limit; everything else is a malformed message.
use vstd::prelude::*;

use vstd::bytes::{
    lemma_auto_spec_u32_to_from_le_bytes, lemma_auto_spec_u64_to_from_le_bytes,
    spec_u32_from_le_bytes, spec_u32_to_le_bytes, spec_u64_from_le_bytes, spec_u64_to_le_bytes,
    u32_from_le_bytes, u32_to_le_bytes, u64_from_le_bytes, u64_to_le_bytes,
};
use vstd::slice::slice_subrange;

use crate::geom::{QuatFx, Vec3Fx, COORD_LIMIT};
use crate::messages::{ClientStateUpdate, MessageV, PlayerShoot, ServerMessage, UpdateV};
use crate::player::{AmmoTable, PlayerRecord, RecordV, Weapon, WeaponSet, NAME_LIMIT};
use crate::registry::pairs_view;

verus! {

// ---------------------------------------------------------------- primitives
/// Encoding of a `u32`: four little-endian bytes.
pub open spec fn spec_enc_u32(v: u32) -> Seq<u8> {
    spec_u32_to_le_bytes(v)
}

/// Decodes a `u32` at offset `i`.
pub open spec fn spec_dec_u32(b: Seq<u8>, i: int) -> Option<(u32, int)> {
    if 0 <= i && i + 4 <= b.len() {
        Some((spec_u32_from_le_bytes(b.subrange(i, i + 4)), i + 4))
    } else {
        None
    }
}

/// Encoding of a `u64`: eight little-endian bytes.
pub open spec fn spec_enc_u64(v: u64) -> Seq<u8> {
    spec_u64_to_le_bytes(v)
}

/// Decodes a `u64` at offset `i`.
pub open spec fn spec_dec_u64(b: Seq<u8>, i: int) -> Option<(u64, int)> {
    if 0 <= i && i + 8 <= b.len() {
        Some((spec_u64_from_le_bytes(b.subrange(i, i + 8)), i + 8))
    } else {
        None
    }
}

/// The excess-2^31 image of a signed 32-bit value.
pub open spec fn spec_biased(x: i32) -> u32 {
    (x + 0x8000_0000) as u32
}

/// The signed value of an excess-2^31 image.
pub open spec fn spec_unbiased(y: u32) -> i32 {
    (y - 0x8000_0000) as i32
}

/// Encoding of an `i32`: its excess-2^31 image as a `u32`.
pub open spec fn spec_enc_i32(x: i32) -> Seq<u8> {
    spec_enc_u32(spec_biased(x))
}

/// Decodes an `i32` at offset `i`.
pub open spec fn spec_dec_i32(b: Seq<u8>, i: int) -> Option<(i32, int)> {
    match spec_dec_u32(b, i) {
        Some((y, j)) => Some((spec_unbiased(y), j)),
        None => None,
    }
}

/// Encoding of a `bool`: one byte, 1 or 0.
pub open spec fn spec_enc_bool(v: bool) -> Seq<u8> {
    seq![if v { 1u8 } else { 0u8 }]
}

/// Decodes a `bool` at offset `i`; any byte other than 0 or 1 is malformed.
pub open spec fn spec_dec_bool(b: Seq<u8>, i: int) -> Option<(bool, int)> {
    if 0 <= i && i + 1 <= b.len() {
        if b[i] == 1u8 {
            Some((true, i + 1))
        } else if b[i] == 0u8 {
            Some((false, i + 1))
        } else {
            None
        }
    } else {
        None
    }
}

/// The one-byte tag of a weapon kind.
pub open spec fn spec_weapon_tag(w: Weapon) -> u8 {
    match w {
        Weapon::Gun => 0,
        Weapon::Shotgun => 1,
        Weapon::Gatling => 2,
        Weapon::RocketLauncher => 3,
        Weapon::Bfg => 4,
    }
}

/// Encoding of a weapon kind: its tag byte.
pub open spec fn spec_enc_weapon(w: Weapon) -> Seq<u8> {
    seq![spec_weapon_tag(w)]
}

/// Decodes a weapon kind at offset `i`; tags above 4 are malformed.
pub open spec fn spec_dec_weapon(b: Seq<u8>, i: int) -> Option<(Weapon, int)> {
    if 0 <= i && i + 1 <= b.len() {
        if b[i] == 0u8 {
            Some((Weapon::Gun, i + 1))
        } else if b[i] == 1u8 {
            Some((Weapon::Shotgun, i + 1))
        } else if b[i] == 2u8 {
            Some((Weapon::Gatling, i + 1))
        } else if b[i] == 3u8 {
            Some((Weapon::RocketLauncher, i + 1))
        } else if b[i] == 4u8 {
            Some((Weapon::Bfg, i + 1))
        } else {
            None
        }
    } else {
        None
    }
}

/// Encoding of a byte string: a `u32` length, then the bytes.
pub open spec fn spec_enc_bytes(s: Seq<u8>) -> Seq<u8> {
    spec_enc_u32(s.len() as u32) + s
}

/// Decodes a byte string at offset `i`; lengths above `NAME_LIMIT` are
/// malformed.
pub open spec fn spec_dec_bytes(b: Seq<u8>, i: int) -> Option<(Seq<u8>, int)> {
    match spec_dec_u32(b, i) {
        Some((n, j)) => if n <= NAME_LIMIT && j + n <= b.len() {
            Some((b.subrange(j, j + n), j + n))
        } else {
            None
        },
        None => None,
    }
}

// ------------------------------------------------- primitive round-trip laws
/// A `u32` decodes to what was encoded, wherever it sits in a buffer.
pub proof fn lemma_dec_enc_u32(v: u32, pre: Seq<u8>, suf: Seq<u8>)
    ensures
        spec_enc_u32(v).len() == 4,
        spec_dec_u32(pre + spec_enc_u32(v) + suf, pre.len() as int) == Some(
            (v, pre.len() as int + 4),
        ),
{
    lemma_auto_spec_u32_to_from_le_bytes();
    let b = pre + spec_enc_u32(v) + suf;
    assert(b.subrange(pre.len() as int, pre.len() as int + 4) =~= spec_enc_u32(v));
}

/// A `u64` decodes to what was encoded, wherever it sits in a buffer.
pub proof fn lemma_dec_enc_u64(v: u64, pre: Seq<u8>, suf: Seq<u8>)
    ensures
        spec_enc_u64(v).len() == 8,
        spec_dec_u64(pre + spec_enc_u64(v) + suf, pre.len() as int) == Some(
            (v, pre.len() as int + 8),
        ),
{
    lemma_auto_spec_u64_to_from_le_bytes();
    let b = pre + spec_enc_u64(v) + suf;
    assert(b.subrange(pre.len() as int, pre.len() as int + 8) =~= spec_enc_u64(v));
}

/// An `i32` decodes to what was encoded, wherever it sits in a buffer.
pub proof fn lemma_dec_enc_i32(x: i32, pre: Seq<u8>, suf: Seq<u8>)
    ensures
        spec_enc_i32(x).len() == 4,
        spec_dec_i32(pre + spec_enc_i32(x) + suf, pre.len() as int) == Some(
            (x, pre.len() as int + 4),
        ),
{
    lemma_dec_enc_u32(spec_biased(x), pre, suf);
    assert(spec_unbiased(spec_biased(x)) == x);
}

/// A `bool` decodes to what was encoded, wherever it sits in a buffer.
pub proof fn lemma_dec_enc_bool(v: bool, pre: Seq<u8>, suf: Seq<u8>)
    ensures
        spec_enc_bool(v).len() == 1,
        spec_dec_bool(pre + spec_enc_bool(v) + suf, pre.len() as int) == Some(
            (v, pre.len() as int + 1),
        ),
{
    let b = pre + spec_enc_bool(v) + suf;
    assert(b[pre.len() as int] == spec_enc_bool(v)[0]);
}

/// A weapon kind decodes to what was encoded, wherever it sits in a buffer.
pub proof fn lemma_dec_enc_weapon(w: Weapon, pre: Seq<u8>, suf: Seq<u8>)
    ensures
        spec_enc_weapon(w).len() == 1,
        spec_dec_weapon(pre + spec_enc_weapon(w) + suf, pre.len() as int) == Some(
            (w, pre.len() as int + 1),
        ),
{
    let b = pre + spec_enc_weapon(w) + suf;
    assert(b[pre.len() as int] == spec_enc_weapon(w)[0]);
}

/// A byte string decodes to what was encoded, wherever it sits in a buffer.
pub proof fn lemma_dec_enc_bytes(s: Seq<u8>, pre: Seq<u8>, suf: Seq<u8>)
    requires
        s.len() <= NAME_LIMIT,
    ensures
        spec_enc_bytes(s).len() == 4 + s.len(),
        spec_dec_bytes(pre + spec_enc_bytes(s) + suf, pre.len() as int) == Some(
            (s, pre.len() as int + 4 + s.len() as int),
        ),
{
    let b = pre + spec_enc_bytes(s) + suf;
    assert(b =~= pre + spec_enc_u32(s.len() as u32) + (s + suf));
    lemma_dec_enc_u32(s.len() as u32, pre, s + suf);
    let j = pre.len() as int + 4;
    assert(b.subrange(j, j + s.len()) =~= s);
}

// ---------------------------------------------------------- exec primitives
/// Appends the encoding of `v`.
pub fn enc_u32(out: &mut Vec<u8>, v: u32)
    ensures
        final(out)@ == old(out)@ + spec_enc_u32(v),
{
    let mut bs = u32_to_le_bytes(v);
    out.append(&mut bs);
}

/// Appends the encoding of `v`.
pub fn enc_u64(out: &mut Vec<u8>, v: u64)
    ensures
        final(out)@ == old(out)@ + spec_enc_u64(v),
{
    let mut bs = u64_to_le_bytes(v);
    out.append(&mut bs);
}

/// Appends the encoding of `x`.
pub fn enc_i32(out: &mut Vec<u8>, x: i32)
    ensures
        final(out)@ == old(out)@ + spec_enc_i32(x),
{
    let y: u32 = ((x as i64) + 0x8000_0000i64) as u32;
    proof {
        assert(y == spec_biased(x));
    }
    enc_u32(out, y);
}

/// Appends the encoding of `v`.
pub fn enc_bool(out: &mut Vec<u8>, v: bool)
    ensures
        final(out)@ == old(out)@ + spec_enc_bool(v),
{
    out.push(if v {
        1u8
    } else {
        0u8
    });
    proof {
        assert(final(out)@ =~= old(out)@ + spec_enc_bool(v));
    }
}

/// Appends the encoding of `w`.
pub fn enc_weapon(out: &mut Vec<u8>, w: Weapon)
    ensures
        final(out)@ == old(out)@ + spec_enc_weapon(w),
{
    let tag: u8 = match w {
        Weapon::Gun => 0,
        Weapon::Shotgun => 1,
        Weapon::Gatling => 2,
        Weapon::RocketLauncher => 3,
        Weapon::Bfg => 4,
    };
    out.push(tag);
    proof {
        assert(final(out)@ =~= old(out)@ + spec_enc_weapon(w));
    }
}

/// Appends the encoding of the byte string `s`.
pub fn enc_bytes(out: &mut Vec<u8>, s: &Vec<u8>)
    requires
        s@.len() <= NAME_LIMIT,
    ensures
        final(out)@ == old(out)@ + spec_enc_bytes(s@),
{
    let n = s.len();
    enc_u32(out, n as u32);
    let ghost mid = out@;
    out.extend_from_slice(s.as_slice());
    proof {
        assert(final(out)@ =~= mid + s@);
        assert(final(out)@ =~= old(out)@ + spec_enc_bytes(s@));
    }
}

/// Decodes a `u32` at offset `i`.
pub fn dec_u32(b: &Vec<u8>, i: usize) -> (r: Option<(u32, usize)>)
    ensures
        match r {
            Some((v, j)) => spec_dec_u32(b@, i as int) == Some((v, j as int)),
            None => spec_dec_u32(b@, i as int) is None,
        },
{
    if i <= b.len() && b.len() - i >= 4 {
        let v = u32_from_le_bytes(slice_subrange(b.as_slice(), i, i + 4));
        Some((v, i + 4))
    } else {
        None
    }
}

/// Decodes a `u64` at offset `i`.
pub fn dec_u64(b: &Vec<u8>, i: usize) -> (r: Option<(u64, usize)>)
    ensures
        match r {
            Some((v, j)) => spec_dec_u64(b@, i as int) == Some((v, j as int)),
            None => spec_dec_u64(b@, i as int) is None,
        },
{
    if i <= b.len() && b.len() - i >= 8 {
        let v = u64_from_le_bytes(slice_subrange(b.as_slice(), i, i + 8));
        Some((v, i + 8))
    } else {
        None
    }
}

/// Decodes an `i32` at offset `i`.
pub fn dec_i32(b: &Vec<u8>, i: usize) -> (r: Option<(i32, usize)>)
    ensures
        match r {
            Some((x, j)) => spec_dec_i32(b@, i as int) == Some((x, j as int)),
            None => spec_dec_i32(b@, i as int) is None,
        },
{
    match dec_u32(b, i) {
        Some((y, j)) => {
            let x: i32 = ((y as i64) - 0x8000_0000i64) as i32;
            proof {
                assert(x == spec_unbiased(y));
            }
            Some((x, j))
        },
        None => None,
    }
}

/// Decodes a `bool` at offset `i`.
pub fn dec_bool(b: &Vec<u8>, i: usize) -> (r: Option<(bool, usize)>)
    ensures
        match r {
            Some((v, j)) => spec_dec_bool(b@, i as int) == Some((v, j as int)),
            None => spec_dec_bool(b@, i as int) is None,
        },
{
    if i < b.len() {
        let byte = b[i];
        if byte == 1 {
            Some((true, i + 1))
        } else if byte == 0 {
            Some((false, i + 1))
        } else {
            None
        }
    } else {
        None
    }
}

/// Decodes a weapon kind at offset `i`.
pub fn dec_weapon(b: &Vec<u8>, i: usize) -> (r: Option<(Weapon, usize)>)
    ensures
        match r {
            Some((w, j)) => spec_dec_weapon(b@, i as int) == Some((w, j as int)),
            None => spec_dec_weapon(b@, i as int) is None,
        },
{
    if i < b.len() {
        let byte = b[i];
        if byte == 0 {
            Some((Weapon::Gun, i + 1))
        } else if byte == 1 {
            Some((Weapon::Shotgun, i + 1))
        } else if byte == 2 {
            Some((Weapon::Gatling, i + 1))
        } else if byte == 3 {
            Some((Weapon::RocketLauncher, i + 1))
        } else if byte == 4 {
            Some((Weapon::Bfg, i + 1))
        } else {
            None
        }
    } else {
        None
    }
}

/// Decodes a byte string at offset `i`.
pub fn dec_bytes(b: &Vec<u8>, i: usize) -> (r: Option<(Vec<u8>, usize)>)
    ensures
        match r {
            Some((s, j)) => spec_dec_bytes(b@, i as int) == Some((s@, j as int)),
            None => spec_dec_bytes(b@, i as int) is None,
        },
{
    match dec_u32(b, i) {
        Some((n, j)) => {
            if n as usize <= NAME_LIMIT && j <= b.len() && b.len() - j >= n as usize {
                let mut s: Vec<u8> = Vec::new();
                s.extend_from_slice(slice_subrange(b.as_slice(), j, j + n as usize));
                proof {
                    assert(s@ =~= b@.subrange(j as int, j + n as int));
                }
                Some((s, j + n as usize))
            } else {
                None
            }
        },
        None => None,
    }
}

// --------------------------------------------------------------- composites
/// Encoding of a point or vector: its three coordinates.
pub open spec fn spec_enc_vec3(v: Vec3Fx) -> Seq<u8> {
    spec_enc_i32(v.x) + spec_enc_i32(v.y) + spec_enc_i32(v.z)
}

/// Decodes a point or vector at offset `i`, without a coordinate bound.
pub open spec fn spec_dec_vec3(b: Seq<u8>, i: int) -> Option<(Vec3Fx, int)> {
    match spec_dec_i32(b, i) {
        Some((x, j)) => match spec_dec_i32(b, j) {
            Some((y, k)) => match spec_dec_i32(b, k) {
                Some((z, l)) => Some((Vec3Fx { x, y, z }, l)),
                None => None,
            },
            None => None,
        },
        None => None,
    }
}

/// Decodes a position at offset `i`; coordinates outside the world bound
/// are malformed.
pub open spec fn spec_dec_pos(b: Seq<u8>, i: int) -> Option<(Vec3Fx, int)> {
    match spec_dec_vec3(b, i) {
        Some((v, j)) => if v.wf() {
            Some((v, j))
        } else {
            None
        },
        None => None,
    }
}

/// Encoding of an orientation: its four components.
pub open spec fn spec_enc_quat(q: QuatFx) -> Seq<u8> {
    spec_enc_i32(q.x) + spec_enc_i32(q.y) + spec_enc_i32(q.z) + spec_enc_i32(q.w)
}

/// Decodes an orientation at offset `i`.
pub open spec fn spec_dec_quat(b: Seq<u8>, i: int) -> Option<(QuatFx, int)> {
    match spec_dec_i32(b, i) {
        Some((x, j)) => match spec_dec_i32(b, j) {
            Some((y, k)) => match spec_dec_i32(b, k) {
                Some((z, l)) => match spec_dec_i32(b, l) {
                    Some((w, m)) => Some((QuatFx { x, y, z, w }, m)),
                    None => None,
                },
                None => None,
            },
            None => None,
        },
        None => None,
    }
}

/// Encoding of an owned-weapon set: five flag bytes.
pub open spec fn spec_enc_weaponset(ws: WeaponSet) -> Seq<u8> {
    spec_enc_bool(ws.gun) + spec_enc_bool(ws.shotgun) + spec_enc_bool(ws.gatling) + spec_enc_bool(
        ws.rocket_launcher,
    ) + spec_enc_bool(ws.bfg)
}

/// Decodes an owned-weapon set at offset `i`.
pub open spec fn spec_dec_weaponset(b: Seq<u8>, i: int) -> Option<(WeaponSet, int)> {
    match spec_dec_bool(b, i) {
        Some((gun, j)) => match spec_dec_bool(b, j) {
            Some((shotgun, k)) => match spec_dec_bool(b, k) {
                Some((gatling, l)) => match spec_dec_bool(b, l) {
                    Some((rocket_launcher, m)) => match spec_dec_bool(b, m) {
                        Some((bfg, n)) => Some(
                            (WeaponSet { gun, shotgun, gatling, rocket_launcher, bfg }, n),
                        ),
                        None => None,
                    },
                    None => None,
                },
                None => None,
            },
            None => None,
        },
        None => None,
    }
}

/// Encoding of an ammunition table: five counters.
pub open spec fn spec_enc_ammo(a: AmmoTable) -> Seq<u8> {
    spec_enc_u32(a.gun) + spec_enc_u32(a.shotgun) + spec_enc_u32(a.gatling) + spec_enc_u32(
        a.rocket_launcher,
    ) + spec_enc_u32(a.bfg)
}

/// Decodes an ammunition table at offset `i`.
pub open spec fn spec_dec_ammo(b: Seq<u8>, i: int) -> Option<(AmmoTable, int)> {
    match spec_dec_u32(b, i) {
        Some((gun, j)) => match spec_dec_u32(b, j) {
            Some((shotgun, k)) => match spec_dec_u32(b, k) {
                Some((gatling, l)) => match spec_dec_u32(b, l) {
                    Some((rocket_launcher, m)) => match spec_dec_u32(b, m) {
                        Some((bfg, n)) => Some(
                            (AmmoTable { gun, shotgun, gatling, rocket_launcher, bfg }, n),
                        ),
                        None => None,
                    },
                    None => None,
                },
                None => None,
            },
            None => None,
        },
        None => None,
    }
}

/// A point or vector decodes to what was encoded.
pub proof fn lemma_dec_enc_vec3(v: Vec3Fx, pre: Seq<u8>, suf: Seq<u8>)
    ensures
        spec_enc_vec3(v).len() == 12,
        spec_dec_vec3(pre + spec_enc_vec3(v) + suf, pre.len() as int) == Some(
            (v, pre.len() as int + 12),
        ),
{
    let e1 = spec_enc_i32(v.x);
    let e2 = spec_enc_i32(v.y);
    let e3 = spec_enc_i32(v.z);
    let b = pre + spec_enc_vec3(v) + suf;
    assert(b =~= pre + e1 + (e2 + e3 + suf));
    lemma_dec_enc_i32(v.x, pre, e2 + e3 + suf);
    assert(b =~= (pre + e1) + e2 + (e3 + suf));
    lemma_dec_enc_i32(v.y, pre + e1, e3 + suf);
    assert(b =~= (pre + e1 + e2) + e3 + suf);
    lemma_dec_enc_i32(v.z, pre + e1 + e2, suf);
}

/// A position inside the world bound decodes to what was encoded.
pub proof fn lemma_dec_enc_pos(v: Vec3Fx, pre: Seq<u8>, suf: Seq<u8>)
    requires
        v.wf(),
    ensures
        spec_enc_vec3(v).len() == 12,
        spec_dec_pos(pre + spec_enc_vec3(v) + suf, pre.len() as int) == Some(
            (v, pre.len() as int + 12),
        ),
{
    lemma_dec_enc_vec3(v, pre, suf);
}

/// An orientation decodes to what was encoded.
pub proof fn lemma_dec_enc_quat(q: QuatFx, pre: Seq<u8>, suf: Seq<u8>)
    ensures
        spec_enc_quat(q).len() == 16,
        spec_dec_quat(pre + spec_enc_quat(q) + suf, pre.len() as int) == Some(
            (q, pre.len() as int + 16),
        ),
{
    let e1 = spec_enc_i32(q.x);
    let e2 = spec_enc_i32(q.y);
    let e3 = spec_enc_i32(q.z);
    let e4 = spec_enc_i32(q.w);
    let b = pre + spec_enc_quat(q) + suf;
    assert(b =~= pre + e1 + (e2 + e3 + e4 + suf));
    lemma_dec_enc_i32(q.x, pre, e2 + e3 + e4 + suf);
    assert(b =~= (pre + e1) + e2 + (e3 + e4 + suf));
    lemma_dec_enc_i32(q.y, pre + e1, e3 + e4 + suf);
    assert(b =~= (pre + e1 + e2) + e3 + (e4 + suf));
    lemma_dec_enc_i32(q.z, pre + e1 + e2, e4 + suf);
    assert(b =~= (pre + e1 + e2 + e3) + e4 + suf);
    lemma_dec_enc_i32(q.w, pre + e1 + e2 + e3, suf);
}

/// An owned-weapon set decodes to what was encoded.
#[verifier::spinoff_prover]
#[verifier::rlimit(50)]
pub proof fn lemma_dec_enc_weaponset(ws: WeaponSet, pre: Seq<u8>, suf: Seq<u8>)
    ensures
        spec_enc_weaponset(ws).len() == 5,
        spec_dec_weaponset(pre + spec_enc_weaponset(ws) + suf, pre.len() as int) == Some(
            (ws, pre.len() as int + 5),
        ),
{
    let e = spec_enc_weaponset(ws);
    let b = pre + e + suf;
    let o = pre.len() as int;
    assert(e[0] == spec_enc_bool(ws.gun)[0]);
    assert(e[1] == spec_enc_bool(ws.shotgun)[0]);
    assert(e[2] == spec_enc_bool(ws.gatling)[0]);
    assert(e[3] == spec_enc_bool(ws.rocket_launcher)[0]);
    assert(e[4] == spec_enc_bool(ws.bfg)[0]);
    assert(b[o] == e[0]);
    assert(b[o + 1] == e[1]);
    assert(b[o + 2] == e[2]);
    assert(b[o + 3] == e[3]);
    assert(b[o + 4] == e[4]);
}

/// An ammunition table decodes to what was encoded.
#[verifier::spinoff_prover]
#[verifier::rlimit(50)]
pub proof fn lemma_dec_enc_ammo(a: AmmoTable, pre: Seq<u8>, suf: Seq<u8>)
    ensures
        spec_enc_ammo(a).len() == 20,
        spec_dec_ammo(pre + spec_enc_ammo(a) + suf, pre.len() as int) == Some(
            (a, pre.len() as int + 20),
        ),
{
    lemma_auto_spec_u32_to_from_le_bytes();
    let e = spec_enc_ammo(a);
    let b = pre + e + suf;
    let o = pre.len() as int;
    assert(b.subrange(o, o + 4) =~= spec_enc_u32(a.gun));
    assert(b.subrange(o + 4, o + 8) =~= spec_enc_u32(a.shotgun));
    assert(b.subrange(o + 8, o + 12) =~= spec_enc_u32(a.gatling));
    assert(b.subrange(o + 12, o + 16) =~= spec_enc_u32(a.rocket_launcher));
    assert(b.subrange(o + 16, o + 20) =~= spec_enc_u32(a.bfg));
}

/// Appends the encoding of `v`.
pub fn enc_vec3(out: &mut Vec<u8>, v: &Vec3Fx)
    ensures
        final(out)@ == old(out)@ + spec_enc_vec3(*v),
{
    enc_i32(out, v.x);
    enc_i32(out, v.y);
    enc_i32(out, v.z);
    proof {
        assert(final(out)@ =~= old(out)@ + spec_enc_vec3(*v));
    }
}

/// Appends the encoding of `q`.
pub fn enc_quat(out: &mut Vec<u8>, q: &QuatFx)
    ensures
        final(out)@ == old(out)@ + spec_enc_quat(*q),
{
    enc_i32(out, q.x);
    enc_i32(out, q.y);
    enc_i32(out, q.z);
    enc_i32(out, q.w);
    proof {
        assert(final(out)@ =~= old(out)@ + spec_enc_quat(*q));
    }
}

/// Appends the encoding of `ws`.
pub fn enc_weaponset(out: &mut Vec<u8>, ws: &WeaponSet)
    ensures
        final(out)@ == old(out)@ + spec_enc_weaponset(*ws),
{
    enc_bool(out, ws.gun);
    enc_bool(out, ws.shotgun);
    enc_bool(out, ws.gatling);
    enc_bool(out, ws.rocket_launcher);
    enc_bool(out, ws.bfg);
    proof {
        assert(final(out)@ =~= old(out)@ + spec_enc_weaponset(*ws));
    }
}

/// Appends the encoding of `a`.
pub fn enc_ammo(out: &mut Vec<u8>, a: &AmmoTable)
    ensures
        final(out)@ == old(out)@ + spec_enc_ammo(*a),
{
    enc_u32(out, a.gun);
    enc_u32(out, a.shotgun);
    enc_u32(out, a.gatling);
    enc_u32(out, a.rocket_launcher);
    enc_u32(out, a.bfg);
    proof {
        assert(final(out)@ =~= old(out)@ + spec_enc_ammo(*a));
    }
}

/// Decodes a point or vector at offset `i`.
pub fn dec_vec3(b: &Vec<u8>, i: usize) -> (r: Option<(Vec3Fx, usize)>)
    ensures
        match r {
            Some((v, j)) => spec_dec_vec3(b@, i as int) == Some((v, j as int)),
            None => spec_dec_vec3(b@, i as int) is None,
        },
{
    match dec_i32(b, i) {
        Some((x, j)) => match dec_i32(b, j) {
            Some((y, k)) => match dec_i32(b, k) {
                Some((z, l)) => Some((Vec3Fx { x, y, z }, l)),
                None => None,
            },
            None => None,
        },
        None => None,
    }
}

/// Decodes a position at offset `i`, enforcing the world bound.
pub fn dec_pos(b: &Vec<u8>, i: usize) -> (r: Option<(Vec3Fx, usize)>)
    ensures
        match r {
            Some((v, j)) => spec_dec_pos(b@, i as int) == Some((v, j as int)) && v.wf(),
            None => spec_dec_pos(b@, i as int) is None,
        },
{
    match dec_vec3(b, i) {
        Some((v, j)) => {
            if -COORD_LIMIT <= v.x && v.x <= COORD_LIMIT && -COORD_LIMIT <= v.y && v.y
                <= COORD_LIMIT && -COORD_LIMIT <= v.z && v.z <= COORD_LIMIT {
                Some((v, j))
            } else {
                None
            }
        },
        None => None,
    }
}

/// Decodes an orientation at offset `i`.
pub fn dec_quat(b: &Vec<u8>, i: usize) -> (r: Option<(QuatFx, usize)>)
    ensures
        match r {
            Some((q, j)) => spec_dec_quat(b@, i as int) == Some((q, j as int)),
            None => spec_dec_quat(b@, i as int) is None,
        },
{
    match dec_i32(b, i) {
        Some((x, j)) => match dec_i32(b, j) {
            Some((y, k)) => match dec_i32(b, k) {
                Some((z, l)) => match dec_i32(b, l) {
                    Some((w, m)) => Some((QuatFx { x, y, z, w }, m)),
                    None => None,
                },
                None => None,
            },
            None => None,
        },
        None => None,
    }
}

/// Decodes an owned-weapon set at offset `i`.
pub fn dec_weaponset(b: &Vec<u8>, i: usize) -> (r: Option<(WeaponSet, usize)>)
    ensures
        match r {
            Some((ws, j)) => spec_dec_weaponset(b@, i as int) == Some((ws, j as int)),
            None => spec_dec_weaponset(b@, i as int) is None,
        },
{
    match dec_bool(b, i) {
        Some((gun, j)) => match dec_bool(b, j) {
            Some((shotgun, k)) => match dec_bool(b, k) {
                Some((gatling, l)) => match dec_bool(b, l) {
                    Some((rocket_launcher, m)) => match dec_bool(b, m) {
                        Some((bfg, n)) => Some(
                            (WeaponSet { gun, shotgun, gatling, rocket_launcher, bfg }, n),
                        ),
                        None => None,
                    },
                    None => None,
                },
                None => None,
            },
            None => None,
        },
        None => None,
    }
}

/// Decodes an ammunition table at offset `i`.
pub fn dec_ammo(b: &Vec<u8>, i: usize) -> (r: Option<(AmmoTable, usize)>)
    ensures
        match r {
            Some((a, j)) => spec_dec_ammo(b@, i as int) == Some((a, j as int)),
            None => spec_dec_ammo(b@, i as int) is None,
        },
{
    match dec_u32(b, i) {
        Some((gun, j)) => match dec_u32(b, j) {
            Some((shotgun, k)) => match dec_u32(b, k) {
                Some((gatling, l)) => match dec_u32(b, l) {
                    Some((rocket_launcher, m)) => match dec_u32(b, m) {
                        Some((bfg, n)) => Some(
                            (AmmoTable { gun, shotgun, gatling, rocket_launcher, bfg }, n),
                        ),
                        None => None,
                    },
                    None => None,
                },
                None => None,
            },
            None => None,
        },
        None => None,
    }
}



// ------------------------------------------------------------ player records
/// Encoding of a player record: name, position, orientation, health,
/// armor, velocity, owned weapons, equipped weapon, ammunition.
pub open spec fn spec_enc_record(r: RecordV) -> Seq<u8> {
    spec_enc_bytes(r.username) + spec_enc_vec3(r.position) + spec_enc_quat(r.rotation)
        + spec_enc_i32(r.health) + spec_enc_i32(r.armor) + spec_enc_vec3(r.velocity)
        + spec_enc_weaponset(r.owned_weapon) + spec_enc_weapon(r.actual_weapon) + spec_enc_ammo(
        r.ammo,
    )
}

/// Decodes a player record at offset `i`; positions outside the world
/// bound and health outside its range are malformed.
pub open spec fn spec_dec_record(b: Seq<u8>, i: int) -> Option<(RecordV, int)> {
    match spec_dec_bytes(b, i) {
        Some((username, i1)) => match spec_dec_pos(b, i1) {
            Some((position, i2)) => match spec_dec_quat(b, i2) {
                Some((rotation, i3)) => match spec_dec_i32(b, i3) {
                    Some((health, i4)) => if 1 <= health <= 100 {
                        match spec_dec_i32(b, i4) {
                            Some((armor, i5)) => match spec_dec_vec3(b, i5) {
                                Some((velocity, i6)) => match spec_dec_weaponset(b, i6) {
                                    Some((owned_weapon, i7)) => match spec_dec_weapon(b, i7) {
                                        Some((actual_weapon, i8)) => match spec_dec_ammo(b, i8) {
                                            Some((ammo, i9)) => Some(
                                                (
                                                    RecordV {
                                                        username,
                                                        position,
                                                        rotation,
                                                        health,
                                                        armor,
                                                        velocity,
                                                        owned_weapon,
                                                        actual_weapon,
                                                        ammo,
                                                    },
                                                    i9,
                                                ),
                                            ),
                                            None => None,
                                        },
                                        None => None,
                                    },
                                    None => None,
                                },
                                None => None,
                            },
                            None => None,
                        }
                    } else {
                        None
                    },
                    None => None,
                },
                None => None,
            },
            None => None,
        },
        None => None,
    }
}

/// A well-formed player record decodes to what was encoded.
#[verifier::spinoff_prover]
#[verifier::rlimit(100)]
pub proof fn lemma_dec_enc_record(r: RecordV, pre: Seq<u8>, suf: Seq<u8>)
    requires
        r.wf(),
    ensures
        spec_enc_record(r).len() == 78 + r.username.len(),
        spec_dec_record(pre + spec_enc_record(r) + suf, pre.len() as int) == Some(
            (r, pre.len() as int + 78 + r.username.len() as int),
        ),
{
    let c1 = spec_enc_bytes(r.username);
    let c2 = spec_enc_vec3(r.position);
    let c3 = spec_enc_quat(r.rotation);
    let c4 = spec_enc_i32(r.health);
    let c5 = spec_enc_i32(r.armor);
    let c6 = spec_enc_vec3(r.velocity);
    let c7 = spec_enc_weaponset(r.owned_weapon);
    let c8 = spec_enc_weapon(r.actual_weapon);
    let c9 = spec_enc_ammo(r.ammo);
    let s9 = suf;
    let s8 = c9 + s9;
    let s7 = c8 + s8;
    let s6 = c7 + s7;
    let s5 = c6 + s6;
    let s4 = c5 + s5;
    let s3 = c4 + s4;
    let s2 = c3 + s3;
    let s1 = c2 + s2;
    let b = pre + spec_enc_record(r) + suf;
    assert(b =~= pre + c1 + s1);
    lemma_dec_enc_bytes(r.username, pre, s1);
    let p1 = pre + c1;
    assert(b =~= p1 + c2 + s2);
    lemma_dec_enc_pos(r.position, p1, s2);
    let p2 = p1 + c2;
    assert(b =~= p2 + c3 + s3);
    lemma_dec_enc_quat(r.rotation, p2, s3);
    let p3 = p2 + c3;
    assert(b =~= p3 + c4 + s4);
    lemma_dec_enc_i32(r.health, p3, s4);
    let p4 = p3 + c4;
    assert(b =~= p4 + c5 + s5);
    lemma_dec_enc_i32(r.armor, p4, s5);
    let p5 = p4 + c5;
    assert(b =~= p5 + c6 + s6);
    lemma_dec_enc_vec3(r.velocity, p5, s6);
    let p6 = p5 + c6;
    assert(b =~= p6 + c7 + s7);
    lemma_dec_enc_weaponset(r.owned_weapon, p6, s7);
    let p7 = p6 + c7;
    assert(b =~= p7 + c8 + s8);
    lemma_dec_enc_weapon(r.actual_weapon, p7, s8);
    let p8 = p7 + c8;
    assert(b =~= p8 + c9 + s9);
    lemma_dec_enc_ammo(r.ammo, p8, s9);
}

/// Appends the encoding of `rec`.
pub fn enc_record(out: &mut Vec<u8>, rec: &PlayerRecord)
    requires
        rec@.username.len() <= NAME_LIMIT,
    ensures
        final(out)@ == old(out)@ + spec_enc_record(rec@),
{
    enc_bytes(out, &rec.username);
    enc_vec3(out, &rec.position);
    enc_quat(out, &rec.rotation);
    enc_i32(out, rec.health);
    enc_i32(out, rec.armor);
    enc_vec3(out, &rec.velocity);
    enc_weaponset(out, &rec.owned_weapon);
    enc_weapon(out, rec.actual_weapon);
    enc_ammo(out, &rec.ammo);
    proof {
        assert(final(out)@ =~= old(out)@ + spec_enc_record(rec@));
    }
}

/// Decodes a player record at offset `i`.
pub fn dec_record(b: &Vec<u8>, i: usize) -> (r: Option<(PlayerRecord, usize)>)
    ensures
        match r {
            Some((rec, j)) => spec_dec_record(b@, i as int) == Some((rec@, j as int)) && rec@.wf(),
            None => spec_dec_record(b@, i as int) is None,
        },
{
    match dec_bytes(b, i) {
        Some((username, i1)) => match dec_pos(b, i1) {
            Some((position, i2)) => match dec_quat(b, i2) {
                Some((rotation, i3)) => match dec_i32(b, i3) {
                    Some((health, i4)) => {
                        if 1 <= health && health <= 100 {
                            match dec_i32(b, i4) {
                                Some((armor, i5)) => match dec_vec3(b, i5) {
                                    Some((velocity, i6)) => match dec_weaponset(b, i6) {
                                        Some((owned_weapon, i7)) => match dec_weapon(b, i7) {
                                            Some((actual_weapon, i8)) => match dec_ammo(b, i8) {
                                                Some((ammo, i9)) => Some(
                                                    (
                                                        PlayerRecord {
                                                            username,
                                                            position,
                                                            rotation,
                                                            health,
                                                            armor,
                                                            velocity,
                                                            owned_weapon,
                                                            actual_weapon,
                                                            ammo,
                                                        },
                                                        i9,
                                                    ),
                                                ),
                                                None => None,
                                            },
                                            None => None,
                                        },
                                        None => None,
                                    },
                                    None => None,
                                },
                                None => None,
                            }
                        } else {
                            None
                        }
                    },
                    None => None,
                },
                None => None,
            },
            None => None,
        },
        None => None,
    }
}


// ------------------------------------------------------------- lobby entries
/// Encoding of the entries of a lobby snapshot, in broadcast order.
pub open spec fn spec_enc_entries_body(s: Seq<(u64, RecordV)>) -> Seq<u8>
    decreases s.len(),
{
    if s.len() == 0 {
        Seq::empty()
    } else {
        spec_enc_u64(s[0].0) + spec_enc_record(s[0].1) + spec_enc_entries_body(s.drop_first())
    }
}

/// Encoding of a lobby snapshot: an entry count, then the entries.
pub open spec fn spec_enc_entries(s: Seq<(u64, RecordV)>) -> Seq<u8> {
    spec_enc_u32(s.len() as u32) + spec_enc_entries_body(s)
}

/// Decodes `n` lobby entries at offset `i`.
pub open spec fn spec_dec_entries_body(b: Seq<u8>, i: int, n: nat) -> Option<
    (Seq<(u64, RecordV)>, int),
>
    decreases n,
{
    if n == 0 {
        Some((Seq::empty(), i))
    } else {
        match spec_dec_u64(b, i) {
            Some((id, j)) => match spec_dec_record(b, j) {
                Some((rec, k)) => match spec_dec_entries_body(b, k, (n - 1) as nat) {
                    Some((rest, l)) => Some((seq![(id, rec)] + rest, l)),
                    None => None,
                },
                None => None,
            },
            None => None,
        }
    }
}

/// Decodes a lobby snapshot at offset `i`.
pub open spec fn spec_dec_entries(b: Seq<u8>, i: int) -> Option<(Seq<(u64, RecordV)>, int)> {
    match spec_dec_u32(b, i) {
        Some((n, j)) => spec_dec_entries_body(b, j, n as nat),
        None => None,
    }
}

/// Appending one entry appends its encoding.
pub proof fn lemma_enc_entries_body_snoc(s: Seq<(u64, RecordV)>, e: (u64, RecordV))
    ensures
        spec_enc_entries_body(s.push(e)) == spec_enc_entries_body(s) + (spec_enc_u64(e.0)
            + spec_enc_record(e.1)),
    decreases s.len(),
{
    let whole = s.push(e);
    if s.len() == 0 {
        assert(whole.drop_first() =~= Seq::<(u64, RecordV)>::empty());
        assert(spec_enc_entries_body(whole.drop_first()) =~= Seq::<u8>::empty());
        assert(spec_enc_entries_body(s) =~= Seq::<u8>::empty());
        assert(whole[0] == e);
        assert(spec_enc_entries_body(whole) =~= spec_enc_entries_body(s) + (spec_enc_u64(e.0)
            + spec_enc_record(e.1)));
    } else {
        assert(whole.drop_first() =~= s.drop_first().push(e));
        lemma_enc_entries_body_snoc(s.drop_first(), e);
        assert(whole[0] == s[0]);
        assert(spec_enc_entries_body(whole) == spec_enc_u64(whole[0].0) + spec_enc_record(
            whole[0].1,
        ) + spec_enc_entries_body(whole.drop_first()));
        assert(spec_enc_entries_body(whole) =~= spec_enc_entries_body(s) + (spec_enc_u64(e.0)
            + spec_enc_record(e.1)));
    }
}

/// A sequence of well-formed lobby entries decodes to what was encoded.
#[verifier::spinoff_prover]
#[verifier::rlimit(100)]
pub proof fn lemma_dec_enc_entries_body(s: Seq<(u64, RecordV)>, pre: Seq<u8>, suf: Seq<u8>)
    requires
        forall|i: int| 0 <= i < s.len() ==> (#[trigger] s[i].1).wf(),
    ensures
        spec_dec_entries_body(pre + spec_enc_entries_body(s) + suf, pre.len() as int, s.len())
            == Some((s, pre.len() as int + spec_enc_entries_body(s).len() as int)),
    decreases s.len(),
{
    let b = pre + spec_enc_entries_body(s) + suf;
    if s.len() == 0 {
        assert(b =~= pre + suf);
        assert(s =~= Seq::<(u64, RecordV)>::empty());
    } else {
        let e_id = spec_enc_u64(s[0].0);
        let e_rec = spec_enc_record(s[0].1);
        let rest = s.drop_first();
        let e_rest = spec_enc_entries_body(rest);
        assert(b =~= pre + e_id + (e_rec + e_rest + suf));
        lemma_dec_enc_u64(s[0].0, pre, e_rec + e_rest + suf);
        let p1 = pre + e_id;
        assert(b =~= p1 + e_rec + (e_rest + suf));
        assert(s[0].1.wf());
        lemma_dec_enc_record(s[0].1, p1, e_rest + suf);
        let p2 = p1 + e_rec;
        assert(b =~= p2 + e_rest + suf);
        assert(forall|i: int| 0 <= i < rest.len() ==> (#[trigger] rest[i].1).wf());
        lemma_dec_enc_entries_body(rest, p2, suf);
        assert(s[0] == (s[0].0, s[0].1));
        assert(seq![s[0]] + rest =~= s);
    }
}

/// A lobby snapshot of well-formed entries decodes to what was encoded.
pub proof fn lemma_dec_enc_entries(s: Seq<(u64, RecordV)>, pre: Seq<u8>, suf: Seq<u8>)
    requires
        forall|i: int| 0 <= i < s.len() ==> (#[trigger] s[i].1).wf(),
        s.len() <= u32::MAX,
    ensures
        spec_enc_entries(s).len() == 4 + spec_enc_entries_body(s).len(),
        spec_dec_entries(pre + spec_enc_entries(s) + suf, pre.len() as int) == Some(
            (s, pre.len() as int + spec_enc_entries(s).len() as int),
        ),
{
    let b = pre + spec_enc_entries(s) + suf;
    let body = spec_enc_entries_body(s);
    assert(b =~= pre + spec_enc_u32(s.len() as u32) + (body + suf));
    lemma_dec_enc_u32(s.len() as u32, pre, body + suf);
    let p1 = pre + spec_enc_u32(s.len() as u32);
    assert(b =~= p1 + body + suf);
    lemma_dec_enc_entries_body(s, p1, suf);
    assert((s.len() as u32) as nat == s.len());
}

/// Appends the encoding of a lobby snapshot.
pub fn enc_entries(out: &mut Vec<u8>, entries: &Vec<(u64, PlayerRecord)>)
    requires
        forall|i: int|
            0 <= i < entries@.len() ==> (#[trigger] pairs_view(entries@)[i].1).wf(),
        entries@.len() <= u32::MAX,
    ensures
        final(out)@ == old(out)@ + spec_enc_entries(pairs_view(entries@)),
{
    let ghost whole = pairs_view(entries@);
    let n = entries.len();
    enc_u32(out, n as u32);
    let ghost base = out@;
    let mut k: usize = 0;
    while k < n
        invariant
            n == entries@.len(),
            whole == pairs_view(entries@),
            whole.len() == n,
            forall|i: int| 0 <= i < whole.len() ==> (#[trigger] whole[i].1).wf(),
            k <= n,
            out@ == base + spec_enc_entries_body(whole.take(k as int)),
        decreases n - k,
    {
        let ghost prefix = whole.take(k as int);
        enc_u64(out, entries[k].0);
        assert(whole[k as int].1.wf());
        enc_record(out, &entries[k].1);
        proof {
            assert(whole.take(k as int + 1) =~= prefix.push(whole[k as int]));
            lemma_enc_entries_body_snoc(prefix, whole[k as int]);
            assert(whole[k as int] == (entries@[k as int].0, entries@[k as int].1@));
            assert(out@ =~= base + spec_enc_entries_body(whole.take(k as int + 1)));
        }
        k = k + 1;
    }
    proof {
        assert(whole.take(n as int) =~= whole);
        assert(final(out)@ =~= old(out)@ + spec_enc_entries(whole));
    }
}

/// One step of lobby-entry decoding, spelled out.
proof fn lemma_dec_entries_body_unfold(b: Seq<u8>, i: int, n: nat)
    requires
        n > 0,
    ensures
        spec_dec_entries_body(b, i, n) == (match spec_dec_u64(b, i) {
            Some((id, j)) => match spec_dec_record(b, j) {
                Some((rec, k)) => match spec_dec_entries_body(b, k, (n - 1) as nat) {
                    Some((rest, l)) => Some((seq![(id, rec)] + rest, l)),
                    None => None,
                },
                None => None,
            },
            None => None,
        }),
{
}

/// Decodes a lobby snapshot at offset `i`.
#[verifier::spinoff_prover]
#[verifier::rlimit(100)]
pub fn dec_entries(b: &Vec<u8>, i: usize) -> (r: Option<(Vec<(u64, PlayerRecord)>, usize)>)
    ensures
        match r {
            Some((v, j)) => spec_dec_entries(b@, i as int) == Some((pairs_view(v@), j as int))
                && v@.len() <= u32::MAX && forall|k: int|
                0 <= k < v@.len() ==> (#[trigger] pairs_view(v@)[k].1).wf(),
            None => spec_dec_entries(b@, i as int) is None,
        },
{
    match dec_u32(b, i) {
        None => None,
        Some((n, j0)) => {
            let mut acc: Vec<(u64, PlayerRecord)> = Vec::new();
            let mut cur: usize = j0;
            let mut k: u32 = 0;
            while k < n
                invariant
                    k <= n,
                    acc@.len() == k,
                    spec_dec_u32(b@, i as int) == Some((n, j0 as int)),
                    spec_dec_entries_body(b@, j0 as int, n as nat) == (match spec_dec_entries_body(
                        b@,
                        cur as int,
                        (n - k) as nat,
                    ) {
                        Some((rest, j)) => Some((pairs_view(acc@) + rest, j)),
                        None => None::<(Seq<(u64, RecordV)>, int)>,
                    }),
                    forall|t: int|
                        0 <= t < acc@.len() ==> (#[trigger] pairs_view(acc@)[t].1).wf(),
                decreases n - k,
            {
                let ghost pre_acc = acc@;
                let ghost pre_cur = cur as int;
                match dec_u64(b, cur) {
                    None => {
                        proof {
                            lemma_dec_entries_body_unfold(b@, cur as int, (n - k) as nat);
                            assert(spec_dec_entries_body(b@, cur as int, (n - k) as nat) is None);
                            assert(spec_dec_entries(b@, i as int) is None);
                        }
                        return None;
                    },
                    Some((id, c1)) => {
                        match dec_record(b, c1) {
                            None => {
                                proof {
                                    lemma_dec_entries_body_unfold(b@, cur as int, (n - k) as nat);
                                    assert(spec_dec_u64(b@, cur as int) == Some((id, c1 as int)));
                                    assert(spec_dec_record(b@, c1 as int) is None);
                                    assert(spec_dec_entries_body(
                                        b@,
                                        cur as int,
                                        (n - k) as nat,
                                    ) is None);
                                    assert(spec_dec_entries(b@, i as int) is None);
                                }
                                return None;
                            },
                            Some((rec, c2)) => {
                                acc.push((id, rec));
                                cur = c2;
                                k = k + 1;
                                proof {
                                    lemma_dec_entries_body_unfold(
                                        b@,
                                        pre_cur,
                                        (n - (k - 1)) as nat,
                                    );
                                    assert(pairs_view(acc@) =~= pairs_view(pre_acc).push(
                                        (id, rec@),
                                    ));
                                    assert(pairs_view(pre_acc).push((id, rec@)) + (match spec_dec_entries_body(
                                        b@,
                                        cur as int,
                                        (n - k) as nat,
                                    ) {
                                        Some((rest, _j)) => rest,
                                        None => Seq::empty(),
                                    }) =~= pairs_view(pre_acc) + (seq![(id, rec@)] + (match spec_dec_entries_body(
                                        b@,
                                        cur as int,
                                        (n - k) as nat,
                                    ) {
                                        Some((rest, _j)) => rest,
                                        None => Seq::empty(),
                                    })));
                                }
                            },
                        }
                    },
                }
            }
            proof {
                assert(pairs_view(acc@) + Seq::<(u64, RecordV)>::empty() =~= pairs_view(acc@));
            }
            Some((acc, cur))
        },
    }
}


// ------------------------------------------------------------ whole messages
/// Encoding of a server message: a tag byte, then the payload.
pub open spec fn spec_enc_message(m: MessageV) -> Seq<u8> {
    match m {
        MessageV::PlayerJoin(id) => seq![0u8] + spec_enc_u64(id),
        MessageV::PlayerLeave(id) => seq![1u8] + spec_enc_u64(id),
        MessageV::LobbySync(entries) => seq![2u8] + spec_enc_entries(entries),
        MessageV::PlayerHit { client_id, new_health } => seq![3u8] + spec_enc_u64(client_id)
            + spec_enc_i32(new_health),
        MessageV::PlayerDeath { dead, attr } => seq![4u8] + spec_enc_u64(dead) + spec_enc_record(
            attr,
        ),
    }
}

/// Decodes a server message at offset `i`.
pub open spec fn spec_dec_message(b: Seq<u8>, i: int) -> Option<(MessageV, int)> {
    if 0 <= i && i + 1 <= b.len() {
        if b[i] == 0u8 {
            match spec_dec_u64(b, i + 1) {
                Some((id, j)) => Some((MessageV::PlayerJoin(id), j)),
                None => None,
            }
        } else if b[i] == 1u8 {
            match spec_dec_u64(b, i + 1) {
                Some((id, j)) => Some((MessageV::PlayerLeave(id), j)),
                None => None,
            }
        } else if b[i] == 2u8 {
            match spec_dec_entries(b, i + 1) {
                Some((entries, j)) => Some((MessageV::LobbySync(entries), j)),
                None => None,
            }
        } else if b[i] == 3u8 {
            match spec_dec_u64(b, i + 1) {
                Some((client_id, j)) => match spec_dec_i32(b, j) {
                    Some((new_health, k)) => Some(
                        (MessageV::PlayerHit { client_id, new_health }, k),
                    ),
                    None => None,
                },
                None => None,
            }
        } else if b[i] == 4u8 {
            match spec_dec_u64(b, i + 1) {
                Some((dead, j)) => match spec_dec_record(b, j) {
                    Some((attr, k)) => Some((MessageV::PlayerDeath { dead, attr }, k)),
                    None => None,
                },
                None => None,
            }
        } else {
            None
        }
    } else {
        None
    }
}

/// Decodes a whole server message blob; trailing bytes are malformed.
pub open spec fn spec_decode_server_message(b: Seq<u8>) -> Option<MessageV> {
    match spec_dec_message(b, 0) {
        Some((m, j)) => if j == b.len() {
            Some(m)
        } else {
            None
        },
        None => None,
    }
}

/// Serializing a well-formed server message and deserializing the blob
/// yields the original message, field for field.
pub proof fn lemma_server_message_round_trip(m: MessageV)
    requires
        m.wf(),
    ensures
        spec_decode_server_message(spec_enc_message(m)) == Some(m),
{
    let b = spec_enc_message(m);
    let empty = Seq::<u8>::empty();
    match m {
        MessageV::PlayerJoin(id) => {
            let pre = seq![0u8];
            assert(b =~= pre + spec_enc_u64(id) + empty);
            lemma_dec_enc_u64(id, pre, empty);
            assert(b[0] == 0u8);
        },
        MessageV::PlayerLeave(id) => {
            let pre = seq![1u8];
            assert(b =~= pre + spec_enc_u64(id) + empty);
            lemma_dec_enc_u64(id, pre, empty);
            assert(b[0] == 1u8);
        },
        MessageV::LobbySync(entries) => {
            let pre = seq![2u8];
            assert(b =~= pre + spec_enc_entries(entries) + empty);
            lemma_dec_enc_entries(entries, pre, empty);
            assert(b[0] == 2u8);
        },
        MessageV::PlayerHit { client_id, new_health } => {
            let pre = seq![3u8];
            let e1 = spec_enc_u64(client_id);
            let e2 = spec_enc_i32(new_health);
            assert(b =~= pre + e1 + e2);
            lemma_dec_enc_u64(client_id, pre, e2);
            assert(b =~= (pre + e1) + e2 + empty);
            lemma_dec_enc_i32(new_health, pre + e1, empty);
            assert(b[0] == 3u8);
        },
        MessageV::PlayerDeath { dead, attr } => {
            let pre = seq![4u8];
            let e1 = spec_enc_u64(dead);
            let e2 = spec_enc_record(attr);
            assert(b =~= pre + e1 + e2);
            lemma_dec_enc_u64(dead, pre, e2);
            assert(b =~= (pre + e1) + e2 + empty);
            lemma_dec_enc_record(attr, pre + e1, empty);
            assert(b[0] == 4u8);
        },
    }
}

/// Serializes a server message into one binary blob.
pub fn encode_server_message(m: &ServerMessage) -> (r: Vec<u8>)
    requires
        m@.wf(),
    ensures
        r@ == spec_enc_message(m@),
{
    let mut out: Vec<u8> = Vec::new();
    match m {
        ServerMessage::PlayerJoin(id) => {
            out.push(0u8);
            enc_u64(&mut out, *id);
        },
        ServerMessage::PlayerLeave(id) => {
            out.push(1u8);
            enc_u64(&mut out, *id);
        },
        ServerMessage::LobbySync(entries) => {
            out.push(2u8);
            enc_entries(&mut out, entries);
        },
        ServerMessage::PlayerHit { client_id, new_health } => {
            out.push(3u8);
            enc_u64(&mut out, *client_id);
            enc_i32(&mut out, *new_health);
        },
        ServerMessage::PlayerDeath { dead, attr } => {
            out.push(4u8);
            enc_u64(&mut out, *dead);
            enc_record(&mut out, attr);
        },
    }
    proof {
        assert(out@ =~= spec_enc_message(m@));
    }
    out
}

/// Deserializes a server message blob; `None` is a malformed message.
pub fn decode_server_message(b: &Vec<u8>) -> (r: Option<ServerMessage>)
    ensures
        match r {
            Some(m) => spec_decode_server_message(b@) == Some(m@) && m@.wf(),
            None => spec_decode_server_message(b@) is None,
        },
{
    if b.len() < 1 {
        return None;
    }
    let tag = b[0];
    if tag == 0 {
        match dec_u64(b, 1) {
            Some((id, j)) => if j == b.len() {
                Some(ServerMessage::PlayerJoin(id))
            } else {
                None
            },
            None => None,
        }
    } else if tag == 1 {
        match dec_u64(b, 1) {
            Some((id, j)) => if j == b.len() {
                Some(ServerMessage::PlayerLeave(id))
            } else {
                None
            },
            None => None,
        }
    } else if tag == 2 {
        match dec_entries(b, 1) {
            Some((entries, j)) => if j == b.len() {
                Some(ServerMessage::LobbySync(entries))
            } else {
                None
            },
            None => None,
        }
    } else if tag == 3 {
        match dec_u64(b, 1) {
            Some((client_id, j)) => match dec_i32(b, j) {
                Some((new_health, k)) => if k == b.len() {
                    Some(ServerMessage::PlayerHit { client_id, new_health })
                } else {
                    None
                },
                None => None,
            },
            None => None,
        }
    } else if tag == 4 {
        match dec_u64(b, 1) {
            Some((dead, j)) => match dec_record(b, j) {
                Some((attr, k)) => if k == b.len() {
                    Some(ServerMessage::PlayerDeath { dead, attr })
                } else {
                    None
                },
                None => None,
            },
            None => None,
        }
    } else {
        None
    }
}

// ------------------------------------------------------ client state updates
/// Encoding of a client state update.
pub open spec fn spec_enc_update(u: UpdateV) -> Seq<u8> {
    spec_enc_bytes(u.username) + spec_enc_vec3(u.position) + spec_enc_quat(u.rotation)
        + spec_enc_weaponset(u.owned_weapon) + spec_enc_weapon(u.actual_weapon) + spec_enc_ammo(
        u.ammo,
    )
}

/// Decodes a client state update at offset `i`.
pub open spec fn spec_dec_update(b: Seq<u8>, i: int) -> Option<(UpdateV, int)> {
    match spec_dec_bytes(b, i) {
        Some((username, i1)) => match spec_dec_pos(b, i1) {
            Some((position, i2)) => match spec_dec_quat(b, i2) {
                Some((rotation, i3)) => match spec_dec_weaponset(b, i3) {
                    Some((owned_weapon, i4)) => match spec_dec_weapon(b, i4) {
                        Some((actual_weapon, i5)) => match spec_dec_ammo(b, i5) {
                            Some((ammo, i6)) => Some(
                                (
                                    UpdateV {
                                        username,
                                        position,
                                        rotation,
                                        owned_weapon,
                                        actual_weapon,
                                        ammo,
                                    },
                                    i6,
                                ),
                            ),
                            None => None,
                        },
                        None => None,
                    },
                    None => None,
                },
                None => None,
            },
            None => None,
        },
        None => None,
    }
}

/// Decodes a whole client state update blob; trailing bytes are malformed.
pub open spec fn spec_decode_client_update(b: Seq<u8>) -> Option<UpdateV> {
    match spec_dec_update(b, 0) {
        Some((u, j)) => if j == b.len() {
            Some(u)
        } else {
            None
        },
        None => None,
    }
}

/// A well-formed client state update decodes to what was encoded.
#[verifier::spinoff_prover]
#[verifier::rlimit(100)]
pub proof fn lemma_dec_enc_update(u: UpdateV, pre: Seq<u8>, suf: Seq<u8>)
    requires
        u.wf(),
    ensures
        spec_dec_update(pre + spec_enc_update(u) + suf, pre.len() as int) == Some(
            (u, pre.len() as int + spec_enc_update(u).len() as int),
        ),
{
    let c1 = spec_enc_bytes(u.username);
    let c2 = spec_enc_vec3(u.position);
    let c3 = spec_enc_quat(u.rotation);
    let c4 = spec_enc_weaponset(u.owned_weapon);
    let c5 = spec_enc_weapon(u.actual_weapon);
    let c6 = spec_enc_ammo(u.ammo);
    let s6 = suf;
    let s5 = c6 + s6;
    let s4 = c5 + s5;
    let s3 = c4 + s4;
    let s2 = c3 + s3;
    let s1 = c2 + s2;
    let b = pre + spec_enc_update(u) + suf;
    assert(b =~= pre + c1 + s1);
    lemma_dec_enc_bytes(u.username, pre, s1);
    let p1 = pre + c1;
    assert(b =~= p1 + c2 + s2);
    lemma_dec_enc_pos(u.position, p1, s2);
    let p2 = p1 + c2;
    assert(b =~= p2 + c3 + s3);
    lemma_dec_enc_quat(u.rotation, p2, s3);
    let p3 = p2 + c3;
    assert(b =~= p3 + c4 + s4);
    lemma_dec_enc_weaponset(u.owned_weapon, p3, s4);
    let p4 = p3 + c4;
    assert(b =~= p4 + c5 + s5);
    lemma_dec_enc_weapon(u.actual_weapon, p4, s5);
    let p5 = p4 + c5;
    assert(b =~= p5 + c6 + s6);
    lemma_dec_enc_ammo(u.ammo, p5, s6);
}

/// Serializing a well-formed client state update and deserializing the
/// blob yields the original update, field for field.
pub proof fn lemma_client_update_round_trip(u: UpdateV)
    requires
        u.wf(),
    ensures
        spec_decode_client_update(spec_enc_update(u)) == Some(u),
{
    let empty = Seq::<u8>::empty();
    assert(spec_enc_update(u) =~= empty + spec_enc_update(u) + empty);
    lemma_dec_enc_update(u, empty, empty);
}

/// Serializes a client state update into one binary blob.
pub fn encode_client_update(u: &ClientStateUpdate) -> (r: Vec<u8>)
    requires
        u@.username.len() <= NAME_LIMIT,
    ensures
        r@ == spec_enc_update(u@),
{
    let mut out: Vec<u8> = Vec::new();
    enc_bytes(&mut out, &u.username);
    enc_vec3(&mut out, &u.position);
    enc_quat(&mut out, &u.rotation);
    enc_weaponset(&mut out, &u.owned_weapon);
    enc_weapon(&mut out, u.actual_weapon);
    enc_ammo(&mut out, &u.ammo);
    proof {
        assert(out@ =~= spec_enc_update(u@));
    }
    out
}

/// Deserializes a client state update blob; `None` is a malformed message.
pub fn decode_client_update(b: &Vec<u8>) -> (r: Option<ClientStateUpdate>)
    ensures
        match r {
            Some(u) => spec_decode_client_update(b@) == Some(u@) && u@.wf(),
            None => spec_decode_client_update(b@) is None,
        },
{
    match dec_bytes(b, 0) {
        Some((username, i1)) => match dec_pos(b, i1) {
            Some((position, i2)) => match dec_quat(b, i2) {
                Some((rotation, i3)) => match dec_weaponset(b, i3) {
                    Some((owned_weapon, i4)) => match dec_weapon(b, i4) {
                        Some((actual_weapon, i5)) => match dec_ammo(b, i5) {
                            Some((ammo, i6)) => {
                                if i6 == b.len() {
                                    let u = ClientStateUpdate {
                                        username,
                                        position,
                                        rotation,
                                        owned_weapon,
                                        actual_weapon,
                                        ammo,
                                    };
                                    proof {
                                        assert(spec_dec_bytes(b@, 0) matches Some((s, _j))
                                            ==> s.len() <= NAME_LIMIT);
                                    }
                                    Some(u)
                                } else {
                                    None
                                }
                            },
                            None => None,
                        },
                        None => None,
                    },
                    None => None,
                },
                None => None,
            },
            None => None,
        },
        None => None,
    }
}

// --------------------------------------------------------------------- shots
/// Encoding of a shot report.
pub open spec fn spec_enc_shoot(s: PlayerShoot) -> Seq<u8> {
    spec_enc_weapon(s.weapon) + spec_enc_vec3(s.from) + spec_enc_vec3(s.to)
}

/// Decodes a shot report at offset `i`; ray points outside the world
/// bound are malformed.
pub open spec fn spec_dec_shoot(b: Seq<u8>, i: int) -> Option<(PlayerShoot, int)> {
    match spec_dec_weapon(b, i) {
        Some((weapon, i1)) => match spec_dec_pos(b, i1) {
            Some((from, i2)) => match spec_dec_pos(b, i2) {
                Some((to, i3)) => Some((PlayerShoot { weapon, from, to }, i3)),
                None => None,
            },
            None => None,
        },
        None => None,
    }
}

/// Decodes a whole shot report blob; trailing bytes are malformed.
pub open spec fn spec_decode_player_shoot(b: Seq<u8>) -> Option<PlayerShoot> {
    match spec_dec_shoot(b, 0) {
        Some((sh, j)) => if j == b.len() {
            Some(sh)
        } else {
            None
        },
        None => None,
    }
}

/// A shot report with in-bound ray points decodes to what was encoded.
pub proof fn lemma_dec_enc_shoot(sh: PlayerShoot, pre: Seq<u8>, suf: Seq<u8>)
    requires
        sh.wf(),
    ensures
        spec_enc_shoot(sh).len() == 25,
        spec_dec_shoot(pre + spec_enc_shoot(sh) + suf, pre.len() as int) == Some(
            (sh, pre.len() as int + 25),
        ),
{
    let c1 = spec_enc_weapon(sh.weapon);
    let c2 = spec_enc_vec3(sh.from);
    let c3 = spec_enc_vec3(sh.to);
    let b = pre + spec_enc_shoot(sh) + suf;
    assert(b =~= pre + c1 + (c2 + c3 + suf));
    lemma_dec_enc_weapon(sh.weapon, pre, c2 + c3 + suf);
    assert(b =~= (pre + c1) + c2 + (c3 + suf));
    lemma_dec_enc_pos(sh.from, pre + c1, c3 + suf);
    assert(b =~= (pre + c1 + c2) + c3 + suf);
    lemma_dec_enc_pos(sh.to, pre + c1 + c2, suf);
}

/// Serializing a well-formed shot report and deserializing the blob
/// yields the original report, field for field.
pub proof fn lemma_player_shoot_round_trip(sh: PlayerShoot)
    requires
        sh.wf(),
    ensures
        spec_decode_player_shoot(spec_enc_shoot(sh)) == Some(sh),
{
    let empty = Seq::<u8>::empty();
    assert(spec_enc_shoot(sh) =~= empty + spec_enc_shoot(sh) + empty);
    lemma_dec_enc_shoot(sh, empty, empty);
}

/// Serializes a shot report into one binary blob.
pub fn encode_player_shoot(sh: &PlayerShoot) -> (r: Vec<u8>)
    ensures
        r@ == spec_enc_shoot(*sh),
{
    let mut out: Vec<u8> = Vec::new();
    enc_weapon(&mut out, sh.weapon);
    enc_vec3(&mut out, &sh.from);
    enc_vec3(&mut out, &sh.to);
    proof {
        assert(out@ =~= spec_enc_shoot(*sh));
    }
    out
}

/// Deserializes a shot report blob; `None` is a malformed message.
pub fn decode_player_shoot(b: &Vec<u8>) -> (r: Option<PlayerShoot>)
    ensures
        match r {
            Some(sh) => spec_decode_player_shoot(b@) == Some(sh) && sh.wf(),
            None => spec_decode_player_shoot(b@) is None,
        },
{
    match dec_weapon(b, 0) {
        Some((weapon, i1)) => match dec_pos(b, i1) {
            Some((from, i2)) => match dec_pos(b, i2) {
                Some((to, i3)) => {
                    if i3 == b.len() {
                        Some(PlayerShoot { weapon, from, to })
                    } else {
                        None
                    }
                },
                None => None,
            },
            None => None,
        },
        None => None,
    }
}

} // verus!
