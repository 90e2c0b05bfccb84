use governance_bot::principal::parse_principal;

#[test]
fn governance_canister_id_parses() {
    let p = parse_principal("rrkah-fqaaa-aaaaa-aaaaq-cai").unwrap();
    assert_eq!(p.to_text(), "rrkah-fqaaa-aaaaa-aaaaq-cai");
    assert_eq!(p.as_slice(), &[0, 0, 0, 0, 0, 0, 0, 1, 1, 1]);
}

#[test]
fn management_canister_id_parses() {
    let p = parse_principal("aaaaa-aa").unwrap();
    assert!(p.as_slice().is_empty());
}

#[test]
fn not_found_is_no_principal() {
    assert!(parse_principal("not found").is_err());
    assert!(parse_principal("rrkah-fqaaa-aaaaa-aaaaq-caj").is_err());
    assert!(parse_principal("").is_err());
}
