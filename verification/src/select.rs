//! Selection of the engine executable from a CPU feature snapshot: a pure
//! function from the operator's per-feature choices and the detected
//! features to the path to launch. Feature detection itself happens outside;
//! this logic only decides.

use vstd::prelude::*;

verus! {

/// A snapshot of the host CPU's relevant features.
#[derive(Clone, Copy, PartialEq, Eq, Structural, Debug)]
pub struct CpuFeatures {
    pub avx512dq: bool,
    pub avx512vl: bool,
    pub avx512vnni: bool,
    pub avx512f: bool,
    pub avx512bw: bool,
    pub bmi2: bool,
    pub avx2: bool,
    pub sse41: bool,
    pub ssse3: bool,
    pub sse3: bool,
    pub popcnt: bool,
}

/// The operator's engine executables, one per instruction-set tier, with a
/// mandatory fallback.
pub struct EngineOpts {
    pub engine_x86_64_vnni512: Option<String>,
    pub engine_x86_64_avx512: Option<String>,
    pub engine_x86_64_bmi2: Option<String>,
    pub engine_x86_64_avx2: Option<String>,
    pub engine_x86_64_sse41_popcnt: Option<String>,
    pub engine_x86_64_ssse3: Option<String>,
    pub engine_x86_64_sse3_popcnt: Option<String>,
    pub engine: String,
}

/// Keep a candidate only when the feature gate holds.
pub open spec fn gate(c: Option<String>, ok: bool) -> Option<String> {
    if ok {
        c
    } else {
        None
    }
}

/// The first of two candidates that is present.
pub open spec fn or_else(a: Option<String>, b: Option<String>) -> Option<String> {
    if a is Some {
        a
    } else {
        b
    }
}

/// The executable the cascade selects: each tier is taken only when
/// configured and only when every feature gate on the way down holds, and
/// the plain `engine` is the fallback.
pub open spec fn spec_best(o: EngineOpts, f: CpuFeatures) -> Seq<char> {
    let c1 = gate(o.engine_x86_64_vnni512, f.avx512dq && f.avx512vl && f.avx512vnni);
    let c2 = gate(or_else(c1, o.engine_x86_64_avx512), f.avx512f && f.avx512bw);
    let c3 = gate(or_else(c2, o.engine_x86_64_bmi2), f.bmi2);
    let c4 = gate(or_else(c3, o.engine_x86_64_avx2), f.avx2);
    let c5 = gate(or_else(c4, o.engine_x86_64_sse41_popcnt), f.sse41);
    let c6 = gate(or_else(c5, o.engine_x86_64_ssse3), f.ssse3);
    let c7 = gate(or_else(c6, o.engine_x86_64_sse3_popcnt), f.sse3 && f.popcnt);
    match c7 {
        Some(p) => p@,
        None => o.engine@,
    }
}

impl EngineOpts {
    /// Pick the executable for the detected features.
    pub fn best(self, f: &CpuFeatures) -> (r: String)
        ensures
            r@ == spec_best(self, *f),
    {
        let c1 = if f.avx512dq && f.avx512vl && f.avx512vnni {
            self.engine_x86_64_vnni512
        } else {
            None
        };
        let c2 = if f.avx512f && f.avx512bw {
            match c1 {
                Some(p) => Some(p),
                None => self.engine_x86_64_avx512,
            }
        } else {
            None
        };
        let c3 = if f.bmi2 {
            match c2 {
                Some(p) => Some(p),
                None => self.engine_x86_64_bmi2,
            }
        } else {
            None
        };
        let c4 = if f.avx2 {
            match c3 {
                Some(p) => Some(p),
                None => self.engine_x86_64_avx2,
            }
        } else {
            None
        };
        let c5 = if f.sse41 {
            match c4 {
                Some(p) => Some(p),
                None => self.engine_x86_64_sse41_popcnt,
            }
        } else {
            None
        };
        let c6 = if f.ssse3 {
            match c5 {
                Some(p) => Some(p),
                None => self.engine_x86_64_ssse3,
            }
        } else {
            None
        };
        let c7 = if f.sse3 && f.popcnt {
            match c6 {
                Some(p) => Some(p),
                None => self.engine_x86_64_sse3_popcnt,
            }
        } else {
            None
        };
        match c7 {
            Some(p) => p,
            None => self.engine,
        }
    }
}

} // verus!
