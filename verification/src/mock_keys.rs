//! The byte encoding of a secp256k1 public key used to sign mock
//! transactions.
//!
//! A coordinate of a curve point is a field element held as 64-bit limbs,
//! least significant limb first. The mock transaction generator takes the x
//! coordinate as big-endian bytes and the y coordinate as little-endian bytes.
use vstd::prelude::*;
use vstd::arithmetic::power2::{pow2, lemma2_to64, lemma2_to64_rest};

verus! {

/// Byte `k` of the little-endian encoding of `limbs`: byte `k % 8` of limb
/// `k / 8`.
pub open spec fn le_byte(limbs: Seq<u64>, k: int) -> u8 {
    ((limbs[k / 8] >> ((8 * (k % 8)) as u64)) & 0xff) as u8
}

/// The little-endian encoding of `limbs`, least significant limb first.
pub open spec fn le_bytes(limbs: Seq<u64>) -> Seq<u8> {
    Seq::new(8 * limbs.len(), |k: int| le_byte(limbs, k))
}

/// The little-endian bytes of `limbs`: each limb's eight bytes, least
/// significant first, limb after limb.
pub fn limbs_to_le_bytes(limbs: &[u64]) -> (bytes: Vec<u8>)
    requires
        8 * limbs.len() <= usize::MAX,
    ensures
        bytes@ == le_bytes(limbs@),
        bytes@.len() == 8 * limbs@.len(),
        forall|i: int, j: int|
            0 <= i < limbs@.len() && 0 <= j < 8 ==> #[trigger] bytes@[8 * i + j] == (limbs@[i]
                as nat / pow2((8 * j) as nat)) % 256,
{
    let mut bytes: Vec<u8> = Vec::new();
    let mut i: usize = 0;
    while i < limbs.len()
        invariant
            i <= limbs.len(),
            8 * limbs.len() <= usize::MAX,
            bytes@ =~= le_bytes(limbs@.take(i as int)),
            forall|k: int| 0 <= k < 8 * i ==> le_byte(limbs@.take(i as int), k) == le_byte(limbs@, k),
        decreases limbs.len() - i,
    {
        let limb = limbs[i];
        let mut j: u64 = 0;
        while j < 8
            invariant
                j <= 8,
                i < limbs.len(),
                limb == limbs@[i as int],
                bytes@.len() == 8 * i + j,
                forall|k: int| 0 <= k < 8 * i ==> bytes@[k] == le_byte(limbs@, k),
                forall|k: int|
                    8 * i <= k < 8 * i + j ==> #[trigger] bytes@[k] == ((limb >> ((8 * (k - 8
                        * i)) as u64)) & 0xff) as u8,
            decreases 8 - j,
        {
            bytes.push(((limb >> (8 * j)) & 0xff) as u8);
            j = j + 1;
        }
        proof {
            assert forall|k: int| 0 <= k < 8 * (i + 1) implies bytes@[k] == le_byte(limbs@, k) by {
                if k >= 8 * i {
                    let t = k - 8 * i;
                    assert(k / 8 == i && k % 8 == t) by (nonlinear_arith)
                        requires
                            k == 8 * i + t,
                            0 <= t < 8,
                    ;
                }
            }
            assert forall|k: int| 0 <= k < 8 * (i + 1) implies le_byte(limbs@.take(i + 1), k)
                == le_byte(limbs@, k) by {
                assert(0 <= k / 8 < i + 1) by (nonlinear_arith)
                    requires
                        0 <= k < 8 * (i + 1),
                ;
            }
        }
        i = i + 1;
    }
    proof {
        assert(limbs@.take(limbs.len() as int) =~= limbs@);
        assert forall|i: int, j: int|
            0 <= i < limbs@.len() && 0 <= j < 8 implies #[trigger] bytes@[8 * i + j] == (
            limbs@[i] as nat / pow2((8 * j) as nat)) % 256 by {
            assert((8 * i + j) / 8 == i && (8 * i + j) % 8 == j) by (nonlinear_arith)
                requires
                    0 <= j < 8,
                    0 <= i,
            ;
            lemma_le_byte_is_base_256_digit(limbs@[i], j);
        }
    }
    bytes
}

/// Byte `j` of a 64-bit word in little-endian order is its `j`-th base-256
/// digit: the word divided by `2^(8 j)`, modulo 256.
pub proof fn lemma_le_byte_is_base_256_digit(w: u64, j: int)
    requires
        0 <= j < 8,
    ensures
        ((w >> ((8 * j) as u64)) & 0xff) as u8 == (w as nat / pow2((8 * j) as nat)) % 256,
{
    lemma2_to64();
    lemma2_to64_rest();
    let s: u64 = (8 * j) as u64;
    let b: u64 = (w >> s) & 0xff;
    assert(b < 256) by (bit_vector)
        requires
            b == (w >> s) & 0xff,
    ;
    if j == 0 {
        assert(b == w % 0x100) by (bit_vector)
            requires
                b == (w >> s) & 0xff,
                s == 0,
        ;
        assert(pow2(0) == 0x1);
        assert((8 * j) as nat == 0);
    } else if j == 1 {
        assert(b == (w / 0x100) % 0x100) by (bit_vector)
            requires
                b == (w >> s) & 0xff,
                s == 8,
        ;
        assert(pow2(8) == 0x100);
        assert((8 * j) as nat == 8);
    } else if j == 2 {
        assert(b == (w / 0x10000) % 0x100) by (bit_vector)
            requires
                b == (w >> s) & 0xff,
                s == 16,
        ;
        assert(pow2(16) == 0x10000);
        assert((8 * j) as nat == 16);
    } else if j == 3 {
        assert(b == (w / 0x1000000) % 0x100) by (bit_vector)
            requires
                b == (w >> s) & 0xff,
                s == 24,
        ;
        assert(pow2(24) == 0x1000000);
        assert((8 * j) as nat == 24);
    } else if j == 4 {
        assert(b == (w / 0x100000000) % 0x100) by (bit_vector)
            requires
                b == (w >> s) & 0xff,
                s == 32,
        ;
        assert(pow2(32) == 0x100000000);
        assert((8 * j) as nat == 32);
    } else if j == 5 {
        assert(b == (w / 0x10000000000) % 0x100) by (bit_vector)
            requires
                b == (w >> s) & 0xff,
                s == 40,
        ;
        assert(pow2(40) == 0x10000000000);
        assert((8 * j) as nat == 40);
    } else if j == 6 {
        assert(b == (w / 0x1000000000000) % 0x100) by (bit_vector)
            requires
                b == (w >> s) & 0xff,
                s == 48,
        ;
        assert(pow2(48) == 0x1000000000000);
        assert((8 * j) as nat == 48);
    } else {
        assert(b == (w / 0x100000000000000) % 0x100) by (bit_vector)
            requires
                b == (w >> s) & 0xff,
                s == 56,
        ;
        assert(pow2(56) == 0x100000000000000);
        assert((8 * j) as nat == 56);
    }
}


/// The bytes of `bytes` in reverse order.
pub fn reversed(bytes: &Vec<u8>) -> (rev: Vec<u8>)
    ensures
        rev@ == bytes@.reverse(),
{
    let n = bytes.len();
    let mut rev: Vec<u8> = Vec::new();
    let mut t: usize = 0;
    while t < n
        invariant
            t <= n,
            n == bytes.len(),
            rev@.len() == t,
            forall|s: int| 0 <= s < t ==> rev@[s] == bytes@[n - 1 - s],
        decreases n - t,
    {
        rev.push(bytes[n - 1 - t]);
        t = t + 1;
    }
    proof {
        assert(rev@ =~= bytes@.reverse());
    }
    rev
}

/// The encoding of a public key's coordinates, each four 64-bit limbs: the
/// 32 big-endian bytes of `x` and the 32 little-endian bytes of `y`.
pub fn public_key_coordinate_bytes(x: &[u64; 4], y: &[u64; 4]) -> (coords: (Vec<u8>, Vec<u8>))
    ensures
        coords.0@ == le_bytes(x@).reverse(),
        coords.1@ == le_bytes(y@),
        coords.0@.len() == 32,
        coords.1@.len() == 32,
        forall|i: int, j: int|
            0 <= i < 4 && 0 <= j < 8 ==> #[trigger] coords.1@[8 * i + j] == (y@[i] as nat / pow2(
                (8 * j) as nat,
            )) % 256 && coords.0@[31 - (8 * i + j)] == (x@[i] as nat / pow2((8 * j) as nat))
                % 256,
{
    let x_le = limbs_to_le_bytes(x.as_slice());
    let x_be = reversed(&x_le);
    let y_le = limbs_to_le_bytes(y.as_slice());
    (x_be, y_le)
}

/// Byte `i` of the big-endian encoding of `x` is byte `31 - i` of its
/// little-endian one.
pub proof fn lemma_big_endian_mirrors_little_endian(x: Seq<u64>, i: int)
    requires
        x.len() == 4,
        0 <= i < 32,
    ensures
        le_bytes(x).reverse()[i] == le_byte(x, 31 - i),
{
}

} // verus!
