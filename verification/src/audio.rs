use vstd::prelude::*;

verus! {

/// The state that the hiss noise generator starts from.
pub const HISS_SEED: u64 = 0xdeadbeef;

/// One step of the hiss noise generator, a 64-bit linear congruential
/// generator with the multiplier and increment of Knuth's MMIX.
pub open spec fn lcg_step(state: u64) -> u64 {
    state.wrapping_mul(6364136223846793005).wrapping_add(1442695040888963407)
}

/// The generator state that sample `i` draws its noise from: the seed
/// advanced `i + 1` times.
pub open spec fn hiss_state(i: nat) -> u64
    decreases i,
{
    if i == 0 {
        lcg_step(HISS_SEED)
    } else {
        lcg_step(hiss_state((i - 1) as nat))
    }
}

/// The upper 32 bits of a generator state, which become the noise of a
/// sample: spread over the whole `u32` range, so that the noise is
/// centred on zero.
pub open spec fn noise_bits(state: u64) -> u32 {
    (state >> 32u64) as u32
}

/// The noise bits for the first `count` samples, in order.
pub fn hiss_noise_bits(count: usize) -> (r: Vec<u32>)
    ensures
        r@.len() == count,
        forall|i: int| 0 <= i < count ==> #[trigger] r@[i] == noise_bits(hiss_state(i as nat)),
{
    let mut rng: u64 = HISS_SEED;
    let mut out: Vec<u32> = Vec::new();
    for i in 0..count
        invariant
            out@.len() == i,
            i == 0 ==> rng == HISS_SEED,
            i > 0 ==> rng == hiss_state((i - 1) as nat),
            forall|j: int| 0 <= j < i ==> #[trigger] out@[j] == noise_bits(hiss_state(j as nat)),
    {
        rng = rng.wrapping_mul(6364136223846793005).wrapping_add(1442695040888963407);
        assert(rng == hiss_state(i as nat));
        out.push((rng >> 32u64) as u32);
    }
    out
}

/// `v` limited to the range of `i16`.
pub open spec fn clamp_i16(v: int) -> i16 {
    if v < i16::MIN {
        i16::MIN
    } else if v > i16::MAX {
        i16::MAX
    } else {
        v as i16
    }
}

/// Adds to each sample its noise offset, saturating at the limits of
/// 16-bit audio.
pub fn add_noise(samples: &Vec<i16>, offsets: &Vec<i32>) -> (r: Vec<i16>)
    requires
        samples@.len() == offsets@.len(),
    ensures
        r@.len() == samples@.len(),
        forall|i: int|
            0 <= i < samples@.len() ==> #[trigger] r@[i] == clamp_i16(
                samples@[i] as int + offsets@[i] as int,
            ),
{
    let mut out: Vec<i16> = Vec::new();
    let n = samples.len();
    for i in 0..n
        invariant
            n == samples@.len(),
            n == offsets@.len(),
            out@.len() == i,
            forall|j: int|
                0 <= j < i ==> #[trigger] out@[j] == clamp_i16(
                    samples@[j] as int + offsets@[j] as int,
                ),
    {
        let v = samples[i] as i64 + offsets[i] as i64;
        let s = if v < i16::MIN as i64 {
            i16::MIN
        } else if v > i16::MAX as i64 {
            i16::MAX
        } else {
            v as i16
        };
        out.push(s);
    }
    out
}

/// One step of the generator multiplies by 6364136223846793005, adds
/// 1442695040888963407, and keeps the result modulo 2^64.
pub proof fn lemma_lcg_step(state: u64)
    ensures
        lcg_step(state) as int == (state as int * 6364136223846793005 + 1442695040888963407)
            % 0x1_0000_0000_0000_0000,
{
    let r: int = 0x1_0000_0000_0000_0000;
    let m: int = (state as int * 6364136223846793005) % r;
    assert(0 <= m < r) by {
        vstd::arithmetic::div_mod::lemma_mod_pos_bound(state as int * 6364136223846793005, r);
    }
    assert(state.wrapping_mul(6364136223846793005) as int == m);
    vstd::arithmetic::div_mod::lemma_add_mod_noop(
        state as int * 6364136223846793005,
        1442695040888963407,
        r,
    );
    vstd::arithmetic::div_mod::lemma_small_mod(1442695040888963407nat, r as nat);
    if m + 1442695040888963407 < r {
        vstd::arithmetic::div_mod::lemma_small_mod((m + 1442695040888963407) as nat, r as nat);
    } else {
        let b: int = m + 1442695040888963407 - r;
        vstd::arithmetic::div_mod::lemma_small_mod(b as nat, r as nat);
        vstd::arithmetic::div_mod::lemma_mod_add_multiples_vanish(b, r);
    }
}

/// The generator is seeded once, with 0xdeadbeef, and never reset: sample
/// 0 draws from one step after the seed, and each further sample from one
/// step after the state of the sample before it.
pub proof fn lemma_hiss_states_follow_each_other(i: nat)
    ensures
        hiss_state(0) == lcg_step(0xdeadbeefu64),
        hiss_state(i + 1) == lcg_step(hiss_state(i)),
{
}

/// The noise of a sample is the upper half of its generator state: the
/// state divided by 2^32.
pub proof fn lemma_noise_bits_upper_half(state: u64)
    ensures
        noise_bits(state) as int == state as int / 0x1_0000_0000,
{
    assert((state >> 32u64) as u32 as u64 == state / 0x1_0000_0000u64) by (bit_vector);
}

} // verus!
