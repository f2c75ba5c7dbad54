use remote_uci::select::{CpuFeatures, EngineOpts};

fn no_features() -> CpuFeatures {
    CpuFeatures {
        avx512dq: false,
        avx512vl: false,
        avx512vnni: false,
        avx512f: false,
        avx512bw: false,
        bmi2: false,
        avx2: false,
        sse41: false,
        ssse3: false,
        sse3: false,
        popcnt: false,
    }
}

fn all_features() -> CpuFeatures {
    CpuFeatures {
        avx512dq: true,
        avx512vl: true,
        avx512vnni: true,
        avx512f: true,
        avx512bw: true,
        bmi2: true,
        avx2: true,
        sse41: true,
        ssse3: true,
        sse3: true,
        popcnt: true,
    }
}

fn full_opts() -> EngineOpts {
    EngineOpts {
        engine_x86_64_vnni512: Some("sf-vnni512".to_string()),
        engine_x86_64_avx512: Some("sf-avx512".to_string()),
        engine_x86_64_bmi2: Some("sf-bmi2".to_string()),
        engine_x86_64_avx2: Some("sf-avx2".to_string()),
        engine_x86_64_sse41_popcnt: Some("sf-sse41".to_string()),
        engine_x86_64_ssse3: Some("sf-ssse3".to_string()),
        engine_x86_64_sse3_popcnt: Some("sf-sse3".to_string()),
        engine: "sf-generic".to_string(),
    }
}

#[test]
fn fallback_when_nothing_is_supported() {
    assert_eq!(full_opts().best(&no_features()), "sf-generic");
}

#[test]
fn best_tier_wins_on_a_full_featureset() {
    assert_eq!(full_opts().best(&all_features()), "sf-vnni512");
    let mut opts = full_opts();
    opts.engine_x86_64_vnni512 = None;
    assert_eq!(opts.best(&all_features()), "sf-avx512");
}

#[test]
fn each_tier_needs_its_own_features() {
    // a bmi2-tier pick must also pass every lower gate of the cascade
    let mut f = all_features();
    f.avx512dq = false;
    f.avx512f = false;
    assert_eq!(full_opts().best(&f), "sf-bmi2");
    let mut f = no_features();
    f.sse3 = true;
    // sse3 alone is not enough: popcnt is also required
    assert_eq!(full_opts().best(&f), "sf-generic");
    f.popcnt = true;
    assert_eq!(full_opts().best(&f), "sf-sse3");
}

#[test]
fn candidates_fall_through_lower_gates() {
    // a candidate chosen high in the cascade still passes the later gates,
    // so features of the lower tiers must hold too
    let mut f = no_features();
    f.avx512dq = true;
    f.avx512vl = true;
    f.avx512vnni = true;
    // without avx512f/avx512bw the selection falls through to the fallback
    assert_eq!(full_opts().best(&f), "sf-generic");
}

#[test]
fn fallback_only_configuration() {
    let opts = EngineOpts {
        engine_x86_64_vnni512: None,
        engine_x86_64_avx512: None,
        engine_x86_64_bmi2: None,
        engine_x86_64_avx2: None,
        engine_x86_64_sse41_popcnt: None,
        engine_x86_64_ssse3: None,
        engine_x86_64_sse3_popcnt: None,
        engine: "stockfish".to_string(),
    };
    assert_eq!(opts.best(&all_features()), "stockfish");
}
