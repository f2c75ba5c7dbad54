use remote_uci::text::{join_commas, join_from, parse_u64, tokenize, u64_to_dec};

#[test]
fn tokenize_splits_on_spaces_and_drops_empties() {
    let toks = tokenize("  id   name  Stockfish 16 ");
    assert_eq!(toks, vec!["id", "name", "Stockfish", "16"]);
    assert_eq!(tokenize(""), Vec::<String>::new());
    assert_eq!(tokenize("    "), Vec::<String>::new());
    assert_eq!(tokenize("uciok"), vec!["uciok"]);
}

#[test]
fn join_from_restores_single_spacing() {
    let toks = tokenize("id name My  Engine  2");
    assert_eq!(join_from(&toks, 2), "My Engine 2");
    assert_eq!(join_from(&toks, 4), "2");
    assert_eq!(join_from(&toks, 5), "");
}

#[test]
fn join_commas_joins_all() {
    let v = vec!["chess".to_string(), "atomic".to_string(), "crazyhouse".to_string()];
    assert_eq!(join_commas(&v), "chess,atomic,crazyhouse");
    assert_eq!(join_commas(&vec!["chess".to_string()]), "chess");
    assert_eq!(join_commas(&Vec::new()), "");
}

#[test]
fn parse_u64_accepts_exactly_decimal_tokens() {
    assert_eq!(parse_u64("0"), Some(0));
    assert_eq!(parse_u64("42"), Some(42));
    assert_eq!(parse_u64("007"), Some(7));
    assert_eq!(parse_u64("18446744073709551615"), Some(u64::MAX));
    assert_eq!(parse_u64(""), None);
    assert_eq!(parse_u64("4x"), None);
    assert_eq!(parse_u64("-1"), None);
    assert_eq!(parse_u64("18446744073709551616"), None);
    assert_eq!(parse_u64("99999999999999999999999"), None);
}

#[test]
fn u64_to_dec_renders_exact_decimal() {
    assert_eq!(u64_to_dec(0), "0");
    assert_eq!(u64_to_dec(7), "7");
    assert_eq!(u64_to_dec(10), "10");
    assert_eq!(u64_to_dec(1234567890), "1234567890");
    assert_eq!(u64_to_dec(u64::MAX), "18446744073709551615");
}

#[test]
fn render_then_parse_is_identity() {
    for n in [0u64, 1, 9, 10, 99, 100, 512, u64::MAX] {
        assert_eq!(parse_u64(&u64_to_dec(n)), Some(n));
    }
}
