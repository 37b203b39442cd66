use vstd::prelude::*;

verus! {

/// Seed used when the system clock reads earlier than the Unix epoch.
pub const FALLBACK_SEED: u64 = 0x9E37_79B9_7F4A_7C15;

/// Multiplier applied to the xorshift state before reducing it.
pub const MIX: u64 = 0x2545_F491_4F6C_DD1D;

/// One xorshift step (shifts 12, 25, 27) on a 64-bit state.
pub open spec fn xorshift(x: u64) -> u64 {
    let a = x ^ (x >> 12u64);
    let b = a ^ (a << 25u64);
    b ^ (b >> 27u64)
}

/// The value drawn below `n` from an already advanced state.
pub open spec fn draw(state: u64, n: u64) -> u64 {
    (vstd::wrapping::u64_specs::wrapping_mul(state, MIX) % n) as u64
}

/// The clock as `std::time::SystemTime` gives it.
#[verifier::external_type_specification]
#[verifier::external_body]
pub struct ExSystemTime(std::time::SystemTime);

/// Calls `SystemTime::now`; nothing is promised of the time it reads.
#[verifier::external_body]
fn system_now() -> (t: std::time::SystemTime) {
    std::time::SystemTime::now()
}

/// Calls `SystemTime::duration_since` against `UNIX_EPOCH`, which fails when
/// `t` lies before the epoch; nothing is promised of the duration, which
/// depends on the clock reading that `t` holds.
#[verifier::external_body]
fn since_unix_epoch(t: &std::time::SystemTime) -> (d: Option<core::time::Duration>) {
    t.duration_since(std::time::UNIX_EPOCH).ok()
}

/// Calls `Duration::as_nanos`, the whole number of nanoseconds in `d`; a
/// `Duration` is opaque here, so the count is not tied to it.
#[verifier::external_body]
fn duration_nanos(d: &core::time::Duration) -> (n: u128) {
    d.as_nanos()
}

/// The seed taken from a clock reading in nanoseconds since the epoch
/// (truncated to 64 bits), or the fallback seed when there is none; the
/// lowest bit is always set so that the state is never zero.
pub open spec fn seed_from(reading: Option<u128>) -> u64 {
    let raw: u64 = match reading {
        Some(n) => n as u64,
        None => FALLBACK_SEED,
    };
    raw | 1u64
}

/// A small xorshift generator, so that no random-number crate is needed.
pub struct Rng(u64);

impl Rng {
    /// The generator's current state.
    pub closed spec fn state(&self) -> u64 {
        self.0
    }

    /// Seeds a generator from the system clock.
    pub fn from_time() -> (r: Rng)
        ensures
            r.state() % 2 == 1,
    {
        let now = system_now();
        let reading = match since_unix_epoch(&now) {
            Some(d) => Some(duration_nanos(&d)),
            None => None,
        };
        Rng::from_clock(reading)
    }

    /// Seeds a generator from a clock reading in nanoseconds since the
    /// epoch (`None` when the clock is before the epoch).
    pub fn from_clock(reading: Option<u128>) -> (r: Rng)
        ensures
            r.state() == seed_from(reading),
            r.state() % 2 == 1,
    {
        let raw: u64 = match reading {
            Some(n) => n as u64,
            None => FALLBACK_SEED,
        };
        let s = raw | 1u64;
        assert(s % 2 == 1) by (bit_vector)
            requires
                s == raw | 1u64,
        ;
        Rng(s)
    }

    /// Advances the state by one xorshift step and returns the scrambled
    /// state reduced modulo `n`.
    pub fn below(&mut self, n: u64) -> (r: u64)
        requires
            n > 0,
        ensures
            final(self).state() == xorshift(old(self).state()),
            r == draw(final(self).state(), n),
            r < n,
    {
        let mut x = self.0;
        x ^= x >> 12u64;
        x ^= x << 25u64;
        x ^= x >> 27u64;
        self.0 = x;
        x.wrapping_mul(MIX) % n
    }
}

} // verus!
