use remote_uci::regurl::ExternalWorkerOpts;

#[test]
fn registration_url_encodes_all_fields() {
    let opts = ExternalWorkerOpts {
        url: "ws://127.0.0.1:9670/socket".to_string(),
        secret: "s3cret x".to_string(),
        name: "My Engine".to_string(),
        max_threads: 8,
        max_hash: 256,
        variants: vec!["chess".to_string(), "atomic".to_string()],
        official_stockfish: true,
    };
    assert_eq!(
        opts.registration_url(),
        "https://lichess.org/analysis/external?\
         url=ws%3A%2F%2F127.0.0.1%3A9670%2Fsocket\
         &secret=s3cret+x\
         &name=My+Engine\
         &maxThreads=8\
         &maxHash=256\
         &variants=chess%2Catomic\
         &officialStockfish=true"
    );
}

#[test]
fn registration_url_skips_empty_variants_and_unpromised_flag() {
    let opts = ExternalWorkerOpts {
        url: "ws://localhost:9670/socket".to_string(),
        secret: "tok".to_string(),
        name: "remote-uci".to_string(),
        max_threads: 1,
        max_hash: 16,
        variants: Vec::new(),
        official_stockfish: false,
    };
    assert_eq!(
        opts.registration_url(),
        "https://lichess.org/analysis/external?\
         url=ws%3A%2F%2Flocalhost%3A9670%2Fsocket\
         &secret=tok\
         &name=remote-uci\
         &maxThreads=1\
         &maxHash=16"
    );
}
