use pwcrypt::combine_shared_secrets;

#[test]
fn combine_is_deterministic() {
    let a = combine_shared_secrets("kyber secret", "ecdh secret").unwrap();
    let b = combine_shared_secrets("kyber secret", "ecdh secret").unwrap();
    assert_eq!(a, b);
}

#[test]
fn combine_is_order_sensitive() {
    let ab = combine_shared_secrets("alpha", "beta").unwrap();
    let ba = combine_shared_secrets("beta", "alpha").unwrap();
    assert_ne!(ab, ba);
}

#[test]
fn combine_empty_secrets() {
    // SHA3-512 of the empty string, hex-encoded.
    let expected = "a69f73cca23a9ac5c8b567dc185a756e97c982164fe25859e0d1dcc1475c80a6\
                    15b2123af1f5f94c11e3e9402c3ac558f500199d95b6d3e301758586281dcd26";
    assert_eq!(combine_shared_secrets("", "").unwrap(), expected);
}

#[test]
fn combine_concatenates_without_separator() {
    // Only the concatenated bytes matter, not where one secret ends.
    let a = combine_shared_secrets("a", "bc").unwrap();
    let b = combine_shared_secrets("ab", "c").unwrap();
    assert_eq!(a, b);
}

#[test]
fn combine_output_shape() {
    let out = combine_shared_secrets("one", "two").unwrap();
    assert_eq!(out.len(), 128);
    assert!(out.chars().all(|c| c.is_ascii_hexdigit() && !c.is_ascii_uppercase()));
}
