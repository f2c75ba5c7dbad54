//! Resource negotiation: operator-specified ceilings clamped against
//! host-reported limits and the engine's own declared capabilities.

use vstd::prelude::*;

verus! {

/// Hard ceilings the operator allows for the engine subprocess, already
/// clamped against host capability before reaching the process driver.
/// `max_hash` is in MiB.
#[derive(Clone, Copy, PartialEq, Eq, Structural, Debug)]
pub struct EngineParameters {
    pub max_threads: u32,
    pub max_hash: u32,
}

impl EngineParameters {
    pub open spec fn valid(self) -> bool {
        self.max_threads >= 1 && self.max_hash >= 1
    }
}

/// Capabilities derived once during the handshake from the engine's own
/// option declarations, intersected with the configured parameters.
/// Immutable after the handshake.
#[derive(Debug, PartialEq, Eq)]
pub struct EngineCapabilities {
    pub name: Option<String>,
    pub variants: Vec<String>,
    pub max_threads: u32,
    pub max_hash: u32,
}

/// Minimum of three values, the mathematical statement of capability
/// clamping.
pub open spec fn min3(a: int, b: int, c: int) -> int {
    if a <= b {
        if a <= c {
            a
        } else {
            c
        }
    } else {
        if b <= c {
            b
        } else {
            c
        }
    }
}

/// Effective cap for a resource: the minimum of the operator's cap, the
/// host's cap and the cap the engine itself declared.
pub fn clamp_cap(operator_cap: u32, host_cap: u32, engine_declared_cap: u32) -> (r: u32)
    ensures
        r == min3(operator_cap as int, host_cap as int, engine_declared_cap as int),
{
    let m: u32 = if operator_cap <= host_cap {
        operator_cap
    } else {
        host_cap
    };
    if m <= engine_declared_cap {
        m
    } else {
        engine_declared_cap
    }
}

/// Law: no combination of inputs ever produces an effective value exceeding
/// any one of the three caps, and the effective value is always one of them.
pub proof fn lemma_clamp_never_exceeds(operator_cap: int, host_cap: int, engine_declared_cap: int)
    ensures
        min3(operator_cap, host_cap, engine_declared_cap) <= operator_cap,
        min3(operator_cap, host_cap, engine_declared_cap) <= host_cap,
        min3(operator_cap, host_cap, engine_declared_cap) <= engine_declared_cap,
        min3(operator_cap, host_cap, engine_declared_cap) == operator_cap
            || min3(operator_cap, host_cap, engine_declared_cap) == host_cap
            || min3(operator_cap, host_cap, engine_declared_cap) == engine_declared_cap,
{
}

/// Operator ceiling for one resource: the operator's explicit limit if any,
/// clamped to what the host reports.
pub fn operator_cap(limit: Option<u32>, host_cap: u32) -> (r: u32)
    ensures
        r == (if limit is Some && limit.unwrap() <= host_cap {
            limit.unwrap() as int
        } else {
            host_cap as int
        }),
{
    match limit {
        Some(l) => {
            if l <= host_cap {
                l
            } else {
                host_cap
            }
        },
        None => host_cap,
    }
}

/// The parameters handed to the process driver: each operator limit (if
/// any) clamped to what the host reports, and at least 1.
pub fn negotiate_parameters(
    limit_threads: Option<u32>,
    limit_hash: Option<u32>,
    host_threads: u32,
    host_hash: u32,
) -> (p: EngineParameters)
    requires
        host_threads >= 1,
        host_hash >= 1,
    ensures
        p.max_threads == (if limit_threads is Some && limit_threads.unwrap() <= host_threads
            && limit_threads.unwrap() >= 1 {
            limit_threads.unwrap() as int
        } else if limit_threads is Some && limit_threads.unwrap() == 0 {
            1int
        } else {
            host_threads as int
        }),
        p.max_hash == (if limit_hash is Some && limit_hash.unwrap() <= host_hash
            && limit_hash.unwrap() >= 1 {
            limit_hash.unwrap() as int
        } else if limit_hash is Some && limit_hash.unwrap() == 0 {
            1int
        } else {
            host_hash as int
        }),
        p.valid(),
{
    let t = operator_cap(limit_threads, host_threads);
    let h = operator_cap(limit_hash, host_hash);
    EngineParameters {
        max_threads: if t >= 1 {
            t
        } else {
            1
        },
        max_hash: if h >= 1 {
            h
        } else {
            1
        },
    }
}

/// `n` is a power of two.
pub open spec fn is_pow2(n: nat) -> bool
    decreases n,
{
    if n == 0 {
        false
    } else if n == 1 {
        true
    } else {
        n % 2 == 0 && is_pow2(n / 2)
    }
}

/// Two powers of two that differ, differ at least by a factor of two.
proof fn lemma_pow2_double_le(a: nat, b: nat)
    requires
        is_pow2(a),
        is_pow2(b),
        a < b,
    ensures
        2 * a <= b,
    decreases b,
{
    if a == 1 {
        assert(b % 2 == 0 && is_pow2(b / 2));
    } else {
        assert(a % 2 == 0 && is_pow2(a / 2));
        assert(b % 2 == 0 && is_pow2(b / 2));
        lemma_pow2_double_le(a / 2, b / 2);
    }
}

/// The largest `u64` power of two is indeed a power of two.
#[verifier::rlimit(100)]
proof fn lemma_pow2_top()
    ensures
        is_pow2(0x8000_0000_0000_0000u64 as nat),
{
    reveal_with_fuel(is_pow2, 64);
}

/// Default hash-table budget from the host's available memory: half of the
/// smallest power of two no smaller than `mib` (so, below 2, zero; otherwise
/// a power of two `r` with `r < mib <= 2 * r`).
pub fn default_hash_budget(mib: u64) -> (r: u64)
    ensures
        mib < 2 ==> r == 0,
        mib >= 2 ==> is_pow2(r as nat) && r < mib && mib <= 2 * (r as int),
{
    proof {
        lemma_pow2_top();
    }
    if mib < 2 {
        return 0u64;
    }
    if mib > 0x8000_0000_0000_0000u64 {
        return 0x8000_0000_0000_0000u64;
    }
    let mut r: u64 = 1;
    while r < mib
        invariant
            is_pow2(r as nat),
            is_pow2(0x8000_0000_0000_0000u64 as nat),
            2 <= mib <= 0x8000_0000_0000_0000u64,
            1 <= r,
            r < 2 * (mib as int),
        decreases 2 * (mib as int) - r,
    {
        proof {
            if r < 0x8000_0000_0000_0000u64 {
                lemma_pow2_double_le(r as nat, 0x8000_0000_0000_0000u64 as nat);
            }
            assert(is_pow2((2 * r) as nat)) by {
                reveal_with_fuel(is_pow2, 2);
            }
        }
        r = r * 2;
    }
    proof {
        assert(r % 2 == 0 && is_pow2((r / 2) as nat));
    }
    r / 2
}

} // verus!
