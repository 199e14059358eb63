//! Breathing-gas consumption model.
//!
//! Volumes are in centilitres at surface pressure, depths in whole metres and
//! pressures in centibar (10 m of water add 1 bar = 100 centibar).

use vstd::prelude::*;

verus! {

/// Gas breathed per minute at the surface, in centilitres.
pub const RESPIRATORY_MINUTE_VOLUME_CL: u32 = 1200;

/// Gas breathed per second at the surface, in centilitres.
pub const RESPIRATORY_SECOND_VOLUME_CL: u32 = RESPIRATORY_MINUTE_VOLUME_CL / 60;

/// Fastest safe ascent, in metres per minute.
pub const MAX_SAFE_ASCEND_RATE: u32 = 15;

/// Seconds needed to rise one metre at the fastest safe ascent.
pub const SECONDS_PER_METER: u32 = 60 / MAX_SAFE_ASCEND_RATE;

/// Deepest start, in metres, whose gas to the surface still fits in a `u32`.
pub const MAX_SURFACE_DEPTH_M: u32 = 32_758;

/// Ambient pressure in centibar at `depth_m` metres.
pub open spec fn ambient_pressure_cb(depth_m: nat) -> nat {
    100 + 10 * depth_m
}

/// Gas consumed per second at `depth_m` metres, in centilitres: the surface
/// volume scaled by ambient over standard pressure.
pub open spec fn gas_rate(depth_m: nat) -> nat {
    (RESPIRATORY_SECOND_VOLUME_CL as nat * ambient_pressure_cb(depth_m)) / 100
}

/// Gas consumed while rising from `depth_m` metres to the surface at the
/// fastest safe ascent: the sum over every metre `d` below `depth_m` of the
/// rate at `d` times the seconds spent on that metre.
pub open spec fn gas_to_surface(depth_m: nat) -> nat
    decreases depth_m,
{
    if depth_m == 0 {
        0
    } else {
        gas_to_surface((depth_m - 1) as nat) + gas_rate((depth_m - 1) as nat)
            * SECONDS_PER_METER as nat
    }
}

/// The per-second rate grows by two centilitres with every metre.
pub proof fn lemma_gas_rate_linear(depth_m: nat)
    ensures
        gas_rate(depth_m) == 20 + 2 * depth_m,
{
}

/// The gas to the surface from `d` metres has the closed form `4 d^2 + 76 d`.
pub proof fn lemma_gas_to_surface_closed_form(depth_m: nat)
    ensures
        gas_to_surface(depth_m) == 4 * (depth_m * depth_m) + 76 * depth_m,
    decreases depth_m,
{
    if depth_m > 0 {
        let p = (depth_m - 1) as nat;
        lemma_gas_to_surface_closed_form(p);
        lemma_gas_rate_linear(p);
        assert(depth_m * depth_m == p * p + 2 * p + 1) by (nonlinear_arith)
            requires
                depth_m == p + 1,
        ;
    } else {
        assert(depth_m * depth_m == 0) by (nonlinear_arith)
            requires
                depth_m == 0,
        ;
    }
}

/// A deeper start never needs less gas.
pub proof fn lemma_gas_to_surface_monotonic(shallow: nat, deep: nat)
    requires
        shallow <= deep,
    ensures
        gas_to_surface(shallow) <= gas_to_surface(deep),
    decreases deep,
{
    if shallow < deep {
        lemma_gas_to_surface_monotonic(shallow, (deep - 1) as nat);
    }
}

/// The gas to the surface fits in a `u32` exactly up to
/// `MAX_SURFACE_DEPTH_M` metres.
pub proof fn lemma_gas_to_surface_fits(depth_m: nat)
    ensures
        depth_m <= MAX_SURFACE_DEPTH_M <==> gas_to_surface(depth_m) <= u32::MAX,
{
    let limit = MAX_SURFACE_DEPTH_M as nat;
    lemma_gas_to_surface_closed_form(limit);
    lemma_gas_to_surface_closed_form(limit + 1);
    if depth_m <= limit {
        lemma_gas_to_surface_monotonic(depth_m, limit);
    } else {
        lemma_gas_to_surface_monotonic(limit + 1, depth_m);
    }
}

/// Gas consumed per second at `depth_in_m` metres, in centilitres: twenty at
/// the surface and two more with every metre.
pub fn gas_rate_in_cl(depth_in_m: u32) -> (rate: u32)
    requires
        gas_rate(depth_in_m as nat) <= u32::MAX,
    ensures
        rate == gas_rate(depth_in_m as nat),
        rate == 20 + 2 * depth_in_m,
{
    let ambient_pressure_in_cb: u64 = 100 + 10 * (depth_in_m as u64);
    ((RESPIRATORY_SECOND_VOLUME_CL as u64 * ambient_pressure_in_cb) / 100) as u32
}

/// Gas needed to reach the surface from `depth_in_m` metres at the fastest
/// safe ascent, in centilitres: the sum of the rates of the metres passed,
/// four seconds each, which is `4 d^2 + 76 d`. The depth is at most
/// `MAX_SURFACE_DEPTH_M`, beyond which the sum does not fit the result.
pub fn gas_to_surface_in_cl(depth_in_m: u32) -> (gas: u32)
    requires
        depth_in_m <= MAX_SURFACE_DEPTH_M,
    ensures
        gas == gas_to_surface(depth_in_m as nat),
        gas == 4 * (depth_in_m * depth_in_m) + 76 * depth_in_m,
{
    proof {
        lemma_gas_to_surface_fits(depth_in_m as nat);
        lemma_gas_to_surface_closed_form(depth_in_m as nat);
    }
    let mut gas: u32 = 0;
    let mut depth: u32 = 0;
    while depth < depth_in_m
        invariant
            depth <= depth_in_m,
            gas == gas_to_surface(depth as nat),
            gas_to_surface(depth_in_m as nat) <= u32::MAX,
        decreases depth_in_m - depth,
    {
        proof {
            lemma_gas_to_surface_monotonic((depth + 1) as nat, depth_in_m as nat);
            lemma_gas_rate_linear(depth as nat);
        }
        gas = gas + gas_rate_in_cl(depth) * SECONDS_PER_METER;
        depth = depth + 1;
    }
    gas
}

} // verus!
