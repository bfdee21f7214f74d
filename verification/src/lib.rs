//! Power consistent hashing: a stateless, deterministic mapping from 64-bit
//! keys onto a finite set of `n` buckets (`n >= 2`), with the
//! consistent-hashing guarantee that growing or shrinking the bucket count
//! relocates only a small fraction of keys.
//!
//! One hash call combines three pieces: a uniform map `f` onto `[0, m)` for
//! the smallest power of two `m >= n`, driven by the key's low bits; a
//! weighted sampler `g` that advances an index toward `n` with integer
//! arithmetic only; and a seeded [`pcg32`] generator, constructed per call
//! from the key, that supplies the random draws. Every step is a pure
//! function of `(n, key)`, so the result is reproducible bit for bit across
//! calls and hosts.

use vstd::prelude::*;

pub mod pcg32;

use crate::pcg32::Pcg32;
use crate::pcg32::pcg_init_spec;
use crate::pcg32::pcg_output_spec;
use crate::pcg32::pcg_step_spec;

verus! {

/// The one failure of this library: construction with fewer than two
/// buckets, for which consistent hashing is not meaningful.
#[derive(Debug)]
pub enum PowerConsistentHasherError {
    NotEnoughBuckets,
}

/// `m` holds the low bits of a word: `m + 1` is a power of two (where
/// `u32::MAX` counts as well, its successor being 2^32).
pub open spec fn is_low_mask(m: u32) -> bool {
    m & m.wrapping_add(1) == 0
}

/// The low bits of `key` under the mask `m_minus_one`; they fit in 32 bits
/// because the mask does.
pub open spec fn low_of(key: u64, m_minus_one: u32) -> u32 {
    (key & (m_minus_one as u64)) as u32
}

/// The index of the highest set bit of `low`, i.e. the floor of its base-two
/// logarithm; meaningful for nonzero input only.
pub open spec fn msb_of(low: u32) -> u32
    decreases low,
{
    if low <= 1 {
        0
    } else {
        (1 + msb_of(low / 2)) as u32
    }
}

/// `m - 1` for the smallest power of two `m >= n`, computed by the classic
/// bit smear that spreads the highest set bit of `n - 1` downward.
/// Meaningful for `2 <= n <= 2^31`.
pub open spec fn m_minus_one_of(n: u32) -> u32 {
    let a = n.wrapping_sub(1);
    let b = a | (a >> 1u32);
    let c = b | (b >> 2u32);
    let d = c | (c >> 4u32);
    let e = d | (d >> 8u32);
    e | (e >> 16u32)
}

/// `m / 2 - 1` for the same `m`; since `m - 1` is odd, this is its
/// upper half, a shift to the right.
pub open spec fn m_half_minus_one_of(n: u32) -> u32 {
    m_minus_one_of(n) >> 1u32
}

/// The generator that the uniform map seeds for a key whose low bits are
/// nonzero: the key is the seed and the index of the highest low bit is the
/// stream, so keys that share low bits but differ in magnitude draw from
/// different streams.
pub open spec fn f_prng_of(key: u64, m_minus_one: u32) -> (u64, u64) {
    pcg_init_spec(key, msb_of(low_of(key, m_minus_one)) as u64)
}

/// The value of the uniform power-of-two map `f`: zero low bits map to
/// bucket zero; otherwise the highest low bit selects the dyadic interval
/// `[h, 2h)` and a seeded draw fills the interval.
pub open spec fn f_spec(key: u64, m_minus_one: u32) -> u32 {
    let low = low_of(key, m_minus_one);
    if low == 0 {
        0
    } else {
        let h = 1u32 << msb_of(low);
        h.wrapping_add(pcg_output_spec(f_prng_of(key, m_minus_one).0) & h.wrapping_sub(1))
    }
}

/// The highest set bit of a nonzero word is found by shifting the word down
/// to 1, and it is at most bit 31.
proof fn lemma_msb(low: u32)
    requires
        1 <= low,
    ensures
        msb_of(low) <= 31,
        low >> msb_of(low) == 1,
    decreases low,
{
    if low <= 1 {
        assert(low >> 0u32 == low) by (bit_vector);
    } else {
        lemma_msb(low / 2);
        let mp = msb_of(low / 2);
        assert(low / 2 == low >> 1u32) by (bit_vector);
        assert((low >> 1u32) >> mp == 1 && mp <= 31 && low >= 2 ==> mp <= 30
            && low >> ((mp + 1) as u32) == 1) by (bit_vector);
    }
}

/// Index of the highest set bit of a nonzero word: the floor of its base-two
/// logarithm, as a bit-scan-reverse instruction would report it.
fn msb_bit_index(low: u32) -> (r: u32)
    requires
        low != 0,
    ensures
        r == msb_of(low),
        r <= 31,
        low >> r == 1,
{
    proof {
        lemma_msb(low);
    }
    let mut v = low;
    let mut r: u32 = 0;
    while v > 1
        invariant
            1 <= v,
            1 <= low,
            msb_of(low) == r + msb_of(v),
            r <= 31,
        decreases v,
    {
        proof {
            lemma_msb(v);
            lemma_msb(v / 2);
            lemma_msb(low);
        }
        v = v / 2;
        r = r + 1;
    }
    proof {
        lemma_msb(low);
    }
    r
}

/// The `f` function: maps `key` to a uniform integer in `[0, m)`, where
/// `m = m_minus_one + 1` must be a power of two and the key should carry
/// reasonably random bits of width at least `log2(m)`.
///
/// Keys whose low `log2(m)` bits are all zero take the fast path to bucket
/// zero and come back without a generator; every other key also hands back
/// the seeded generator that produced its draw, read once and not yet
/// stepped.
pub fn consistent_hash_power_of_two(key: u64, m_minus_one: u32) -> (r: (u32, Option<Pcg32>))
    requires
        is_low_mask(m_minus_one),
        m_minus_one <= 0x7FFF_FFFF,
    ensures
        r.0 == f_spec(key, m_minus_one),
        r.0 <= m_minus_one,
        low_of(key, m_minus_one) == 0 ==> r.0 == 0 && r.1 is None,
        low_of(key, m_minus_one) != 0 ==> (r.1 matches Some(p) && p@ == f_prng_of(
            key,
            m_minus_one,
        )),
{
    let log2bits = (key & m_minus_one as u64) as u32;
    assert((key & (m_minus_one as u64)) <= (m_minus_one as u64)) by (bit_vector);
    if log2bits == 0 {
        return (0, None);
    }

    let msb_set = msb_bit_index(log2bits);
    let mut rng = Pcg32::new(key, msb_set as u64);
    // 2 ** msb_set, h >= 1
    let h = 1_u32 << msb_set;
    // rand integer in [h; 2h - 1] range
    let draw = rng.next_u32();
    let r = h.wrapping_add(draw & h.wrapping_sub(1));
    assert({
        let hh = 1u32 << msb_set;
        hh.wrapping_add(draw & hh.wrapping_sub(1)) <= m_minus_one
    }) by (bit_vector)
        requires
            log2bits >> msb_set == 1,
            msb_set <= 31,
            log2bits <= m_minus_one,
            m_minus_one & m_minus_one.wrapping_add(1) == 0,
    ;
    (r, Some(rng))
}

/// A cap on the number of draws one weighted-sampling call may consume. The
/// generator's state has period 2^64 and a zero draw always ends the
/// sampling, so a run of 2^64 draws without an exit cannot happen; the cap
/// only gives the loop a termination measure.
pub const DRAW_LIMIT: u128 = 0x1_0000_0000_0000_0000;

/// The weighted sampler after `fuel` draws at most: starting from index `x`,
/// each round draws `rnd` from the current generator state and stops at `x`
/// once `n * (rnd + 1)` is no more than `(x + 1) * (2^32 - 1)`; otherwise the
/// quotient of the two scaled values becomes the next index and the
/// generator steps once. Exhausted fuel stops at the current index.
pub open spec fn g_rec(n: u32, x: u32, p: (u64, u64), fuel: nat) -> u32
    decreases fuel,
{
    let rnd = pcg_output_spec(p.0);
    if fuel == 0 {
        x
    } else if n * (rnd + 1) <= (x + 1) * 0xFFFF_FFFF {
        x
    } else {
        let x2 = (((x + 1) * 0xFFFF_FFFF) / (rnd + 1)) as u32;
        g_rec(n, x2, pcg_step_spec(p), (fuel - 1) as nat)
    }
}

/// The value the weighted sampler returns for bucket count `n`, start index
/// `s` and generator `p`.
pub open spec fn g_spec(n: u32, s: u32, p: (u64, u64)) -> u32 {
    g_rec(n, s, p, DRAW_LIMIT as nat)
}

/// The `g` function: returns an integer in `[s, n)` with a weighted
/// probability, the distribution of the largest index `j` reached by a
/// process that jumps from `x` to `j > x` while a uniform draw `U` in
/// `(0, 1)` exceeds `(x + 1) / (j + 1)`.
///
/// The comparison is carried out in integers: with `U = (rnd + 1) / 2^32`
/// and both sides scaled by `2^32 - 1`, the process stops as soon as
/// `n * (rnd + 1) <= (x + 1) * (2^32 - 1)`, and otherwise jumps to the
/// quotient of the scaled values, which the stopping test keeps below `n`.
#[verifier::rlimit(50)]
fn g(n: u32, s: u32, rng: Pcg32) -> (r: u32)
    requires
        s < n,
    ensures
        s <= r < n,
        r == g_spec(n, s, rng@),
{
    let ghost p0 = rng@;
    let mut rng = rng;
    let mut x = s;
    let n64 = n as u64;
    let mut fuel: u128 = DRAW_LIMIT;

    let mut scaled_x: u64 = (x as u64 + 1) * 0xFFFF_FFFF;
    let mut rnd_plus_one: u64 = rng.next_u32() as u64 + 1;
    assert(n64 * rnd_plus_one <= 0xFFFF_FFFF * 0x1_0000_0000) by (nonlinear_arith)
        requires
            n64 <= 0xFFFF_FFFF,
            rnd_plus_one <= 0x1_0000_0000,
    ;
    while fuel > 0 && n64 * rnd_plus_one > scaled_x
        invariant
            n64 == n,
            s <= x < n,
            fuel <= DRAW_LIMIT,
            scaled_x == (x + 1) * 0xFFFF_FFFF,
            1 <= rnd_plus_one <= 0x1_0000_0000,
            n64 * rnd_plus_one <= 0xFFFF_FFFF * 0x1_0000_0000,
            rnd_plus_one == pcg_output_spec(rng@.0) + 1,
            g_rec(n, s, p0, DRAW_LIMIT as nat) == g_rec(n, x, rng@, fuel as nat),
        decreases fuel,
    {
        // n * rnd_plus_one > scaled_x bounds the next index below n:
        // n > scaled_x / rnd_plus_one.
        let ghost x2 = scaled_x as int / rnd_plus_one as int;
        assert(x <= x2 < n) by (nonlinear_arith)
            requires
                scaled_x == (x + 1) * 0xFFFF_FFFF,
                n64 * rnd_plus_one > scaled_x,
                1 <= rnd_plus_one <= 0x1_0000_0000,
                x2 == scaled_x as int / rnd_plus_one as int,
                n64 == n,
                x < n,
        ;
        proof {
            assert(g_rec(n, x, rng@, fuel as nat) == g_rec(
                n,
                x2 as u32,
                pcg_step_spec(rng@),
                (fuel - 1) as nat,
            ));
        }
        rng.step();
        // new x is not less than the previous x and less than n
        x = (scaled_x / rnd_plus_one) as u32;
        fuel = fuel - 1;
        scaled_x = (x as u64 + 1) * 0xFFFF_FFFF;
        rnd_plus_one = rng.next_u32() as u64 + 1;
        assert(n64 * rnd_plus_one <= 0xFFFF_FFFF * 0x1_0000_0000) by (nonlinear_arith)
            requires
                n64 <= 0xFFFF_FFFF,
                rnd_plus_one <= 0x1_0000_0000,
        ;
    }
    x
}

/// The 64-bit SeaHash fingerprint of a byte string: a pure function of the
/// bytes alone, since the hash function's seed is prechosen.
pub uninterp spec fn seahash_of(bytes: Seq<u8>) -> u64;

/// Relies on seahash::hash: with its prechosen seed the fingerprint it
/// returns depends on the buffer's bytes alone.
#[verifier::external_body]
fn seahash_fingerprint(buf: &[u8]) -> (r: u64)
    ensures
        r == seahash_of(buf@),
{
    seahash::hash(buf)
}

/// The model of a hasher: the bucket count and the two precomputed masks.
pub ghost struct HasherModel {
    pub n: u32,
    pub m_minus_one: u32,
    pub m_half_minus_one: u32,
}

/// The one model a hasher for `n` buckets can have: both masks are derived
/// from `n` alone.
pub open spec fn model_of(n: u32) -> HasherModel {
    HasherModel {
        n,
        m_minus_one: m_minus_one_of(n),
        m_half_minus_one: m_half_minus_one_of(n),
    }
}

/// Maps an unbounded space of 64-bit keys onto `n` buckets (`2 <= n`,
/// `n <= 2^31`), so that a change of `n` relocates only a fraction of
/// roughly `|n - n'| / max(n, n')` of the keys. A hasher is an immutable
/// plain value: hashing allocates nothing, shares nothing and is free to
/// cross threads.
pub struct PowerConsistentHasher {
    // number of buckets
    n: u32,
    // m - 1
    m_minus_one: u32,
    // m/2 - 1
    m_half_minus_one: u32,
}

impl View for PowerConsistentHasher {
    type V = HasherModel;

    closed spec fn view(&self) -> HasherModel {
        HasherModel {
            n: self.n,
            m_minus_one: self.m_minus_one,
            m_half_minus_one: self.m_half_minus_one,
        }
    }
}

/// The masks that the bit smear precomputes for `2 <= n <= 2^31`:
/// `m_minus_one_of(n)` masks the low bits of the smallest power of two
/// `m >= n`, which also satisfies `m < 2n`, so the half mask stays below
/// `n` and the full mask below 2^31.
pub proof fn lemma_smear(n: u32)
    by (bit_vector)
    requires
        2 <= n <= 0x8000_0000,
    ensures
        is_low_mask(m_minus_one_of(n)),
        is_low_mask(m_half_minus_one_of(n)),
        m_minus_one_of(n) <= 0x7FFF_FFFF,
        n <= m_minus_one_of(n) + 1,
        m_minus_one_of(n) & 1 == 1,
        m_half_minus_one_of(n) < n,
        m_half_minus_one_of(n) == ((m_minus_one_of(n) + 1) as u32 >> 1u32) - 1,
{
}

/// The full hash of `key` for `n` buckets (`2 <= n <= 2^31`): the uniform
/// draw on `[0, m)` if it already falls below `n`; otherwise the weighted
/// sample on `[m/2 - 1, n)`, taken after one generator step, if it clears
/// `m/2 - 1`; otherwise a fresh uniform draw on `[0, m/2)` recomputed from
/// the key. The result is a function of `n` and `key` alone: every call on
/// every host returns the same bucket.
pub open spec fn hash_spec(n: u32, key: u64) -> u32 {
    let m1 = m_minus_one_of(n);
    let mh1 = m_half_minus_one_of(n);
    let r1 = f_spec(key, m1);
    if r1 < n {
        r1
    } else {
        let r2 = g_spec(n, mh1, pcg_step_spec(f_prng_of(key, m1)));
        if r2 > mh1 {
            r2
        } else {
            f_spec(key, mh1)
        }
    }
}

impl PowerConsistentHasher {
    /// A hasher is well formed when its masks are the ones derived from its
    /// bucket count, which lies in the valid range.
    pub open spec fn wf(&self) -> bool {
        &&& 2 <= self@.n <= 0x8000_0000
        &&& self@ == model_of(self@.n)
    }

    /// Build a hasher for `n` buckets. Fails, with the only error this
    /// library knows, exactly when `n < 2`; any other count up to 2^31
    /// yields the one well-formed hasher for `n`, so equal counts always
    /// yield equal hashers.
    pub fn try_new(n: u32) -> (r: Result<Self, PowerConsistentHasherError>)
        requires
            n <= 0x8000_0000,
        ensures
            r is Err <==> n < 2,
            r matches Err(e) ==> e is NotEnoughBuckets,
            r matches Ok(h) ==> h@ == model_of(n) && h.wf(),
    {
        if n < 2 {
            return Err(PowerConsistentHasherError::NotEnoughBuckets);
        }

        proof {
            lemma_smear(n);
        }
        // closest larger power of 2, by smearing the highest bit of n - 1
        // downward and adding one back
        let mut m = n;
        m -= 1;
        m |= m >> 1u32;
        m |= m >> 2u32;
        m |= m >> 4u32;
        m |= m >> 8u32;
        m |= m >> 16u32;
        let m_minus_one = m;
        assert(m_minus_one == m_minus_one_of(n));
        m += 1;
        let m_half_minus_one = (m >> 1u32) - 1;

        Ok(
            Self {
                n,
                m_minus_one,
                m_half_minus_one,
            },
        )
    }

    /// Hash a byte-string key consistently.
    ///
    /// The buffer is fingerprinted into a well-distributed 64-bit key,
    /// which then goes through [`Self::hash_u64`]; equal buffers therefore
    /// land in the same bucket, which is always below the bucket count.
    pub fn hash_bytes(&self, buf: &[u8]) -> (r: u32)
        requires
            self.wf(),
        ensures
            r < self@.n,
            r == hash_spec(self@.n, seahash_of(buf@)),
    {
        let key = seahash_fingerprint(buf);
        self.hash_u64(key)
    }

    /// Hash u64 consistently.
    ///
    /// Used when keys are sufficiently distributed over u64 range. The
    /// bucket that comes back is `hash_spec(n, key)`, always below `n`: the
    /// result depends on the bucket count and the key alone, never on the
    /// call site, the process or the host.
    pub fn hash_u64(&self, key: u64) -> (r: u32)
        requires
            self.wf(),
        ensures
            r < self@.n,
            r == hash_spec(self@.n, key),
    {
        proof {
            lemma_smear(self@.n);
        }
        let (r1, maybe_rng) = consistent_hash_power_of_two(key, self.m_minus_one);

        if r1 < self.n {
            return r1;
        }
        // r1 >= n >= 2, so the key's low bits were not zero and the map
        // handed its generator back
        let mut rng = maybe_rng.unwrap();
        rng.step();
        let r2 = g(self.n, self.m_half_minus_one, rng);

        if r2 > self.m_half_minus_one {
            return r2;
        }
        let (r, _) = consistent_hash_power_of_two(key, self.m_half_minus_one);
        r
    }
}

/// Hashing is deterministic: a bucket for `n` and `key` is the one value of
/// `hash_spec(n, key)`, so any two results of `hash_u64` for the same
/// bucket count and key are equal, on every call and every host.
pub proof fn lemma_hash_deterministic(n: u32, key: u64, r1: u32, r2: u32)
    requires
        r1 == hash_spec(n, key),
        r2 == hash_spec(n, key),
    ensures
        r1 == r2,
{
}

/// Construction is idempotent: two well-formed hashers built for the same
/// bucket count have the same model, and so hash every key alike.
pub proof fn lemma_construction_idempotent(
    h1: PowerConsistentHasher,
    h2: PowerConsistentHasher,
    n: u32,
)
    requires
        h1@ == model_of(n),
        h2@ == model_of(n),
    ensures
        h1@ == h2@,
        forall|key: u64| hash_spec(h1@.n, key) == hash_spec(h2@.n, key),
{
}

} // verus!
